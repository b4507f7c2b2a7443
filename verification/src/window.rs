use vstd::prelude::*;

verus! {

/// The window that remains of `samples` when at most `cap` of them are kept:
/// the `cap` most recent ones, in arrival order.
pub open spec fn capped<T>(samples: Seq<T>, cap: nat) -> Seq<T> {
    if samples.len() <= cap {
        samples
    } else {
        samples.skip(samples.len() - cap)
    }
}

/// A window holds at most `cap` samples, and the most recent sample stays in
/// it whenever `cap` is positive.
pub proof fn lemma_capped_bounds<T>(samples: Seq<T>, cap: nat)
    ensures
        capped(samples, cap).len() == if samples.len() <= cap { samples.len() } else { cap },
        capped(samples, cap).len() <= cap,
        cap > 0 && samples.len() > 0 ==> capped(samples, cap).last() == samples.last(),
        forall|i: int|
            0 <= i < capped(samples, cap).len() ==> #[trigger] capped(samples, cap)[i]
                == samples[samples.len() - capped(samples, cap).len() + i],
{
}

/// Dropping old samples after each arrival leaves the same window as
/// dropping them once after the last arrival.
pub proof fn lemma_capped_push<T>(samples: Seq<T>, sample: T, cap: nat)
    ensures
        capped(capped(samples, cap).push(sample), cap) == capped(samples.push(sample), cap),
{
    if samples.len() > cap {
        let w = samples.skip(samples.len() - cap);
        assert(w.push(sample).skip(1) =~= samples.push(sample).skip(samples.len() + 1 - cap));
    }
}

/// The window left by appending `samples` one at a time to `window`, each
/// append followed by dropping the oldest beyond `cap`.
pub open spec fn window_after<T>(window: Seq<T>, samples: Seq<T>, cap: nat) -> Seq<T>
    decreases samples.len(),
{
    if samples.len() == 0 {
        window
    } else {
        capped(window_after(window, samples.drop_last(), cap).push(samples.last()), cap)
    }
}

/// A channel's window always holds the `cap` most recent samples of all
/// that it has received: feeding a stream sample by sample into a window
/// gives the last `cap` samples of the whole history.
pub proof fn lemma_window_after_stream<T>(history: Seq<T>, samples: Seq<T>, cap: nat)
    ensures
        window_after(capped(history, cap), samples, cap) == capped(history + samples, cap),
    decreases samples.len(),
{
    if samples.len() == 0 {
        assert(history + samples == history);
    } else {
        let earlier = samples.drop_last();
        lemma_window_after_stream(history, earlier, cap);
        lemma_capped_push(history + earlier, samples.last(), cap);
        assert((history + earlier).push(samples.last()) == history + samples);
    }
}

/// Appends `sample` to a channel's samples, then drops the oldest samples
/// until no more than `cap` remain.
pub fn push_capped<T>(entry: &mut Vec<T>, sample: T, cap: usize)
    ensures
        final(entry)@ == capped(old(entry)@.push(sample), cap as nat),
{
    entry.push(sample);
    while entry.len() > cap
        invariant
            cap < entry.len() ==> entry@.len() > 0,
            capped(entry@, cap as nat) == capped(old(entry)@.push(sample), cap as nat),
        decreases entry.len(),
    {
        let ghost before = entry@;
        entry.remove(0);
        assert(entry@ == before.skip(1));
    }
}

} // verus!
