use vstd::prelude::*;
use crate::plot_options::names;

verus! {

/// The channels whose plot windows are open, each once, in the order they
/// were opened.
pub struct PlotSelection {
    keys: Vec<String>,
}

impl View for PlotSelection {
    type V = Seq<Seq<char>>;

    closed spec fn view(&self) -> Seq<Seq<char>> {
        names(self.keys@)
    }
}

impl PlotSelection {
    #[verifier::type_invariant]
    spec fn each_once(self) -> bool {
        names(self.keys@).no_duplicates()
    }

    /// No channel open.
    pub fn new() -> (s: Self)
        ensures
            s@ == Seq::<Seq<char>>::empty(),
    {
        let s = PlotSelection { keys: Vec::new() };
        assert(names(s.keys@) == Seq::<Seq<char>>::empty());
        s
    }

    /// The open channels.
    pub fn keys(&self) -> (k: &Vec<String>)
        ensures
            names(k@) == self@,
            self@.no_duplicates(),
    {
        proof {
            use_type_invariant(self);
        }
        &self.keys
    }

    /// Position of `key` among the open channels, if it is open.
    fn position(&self, key: &String) -> (p: Option<usize>)
        ensures
            match p {
                Some(i) => i < self@.len() && self@[i as int] == key@,
                None => !self@.contains(key@),
            },
    {
        let mut i: usize = 0;
        while i < self.keys.len()
            invariant
                i <= self.keys.len(),
                forall|j: int| 0 <= j < i ==> #[trigger] self.keys@[j]@ != key@,
            decreases self.keys.len() - i,
        {
            if self.keys[i] == *key {
                return Some(i);
            }
            i = i + 1;
        }
        assert forall|j: int| 0 <= j < self@.len() implies self@[j] != key@ by {
            assert(self@[j] == self.keys@[j]@);
        }
        None
    }

    /// Whether the plot window of `key` is open.
    pub fn contains(&self, key: &String) -> (b: bool)
        ensures
            b == self@.contains(key@),
    {
        self.position(key).is_some()
    }

    /// Closes the window of `key` when it is open, and opens it (last in
    /// order) when it is not.
    pub fn toggle(&mut self, key: &String)
        ensures
            old(self)@.contains(key@) ==> exists|i: int|
                0 <= i < old(self)@.len() && old(self)@[i] == key@ && final(self)@ == old(
                    self,
                )@.remove(i),
            !old(self)@.contains(key@) ==> final(self)@ == old(self)@.push(key@),
    {
        proof {
            use_type_invariant(&*self);
        }
        match self.position(key) {
            Some(i) => {
                let ghost before = self.keys@;
                proof {
                    let after = before.remove(i as int);
                    assert(names(after) == names(before).remove(i as int));
                    assert(names(after).no_duplicates()) by {
                        assert forall|a: int, b: int|
                            0 <= a < names(after).len() && 0 <= b < names(after).len() && a
                                != b implies names(after)[a] != names(after)[b] by {
                            let a0 = if a < i { a } else { a + 1 };
                            let b0 = if b < i { b } else { b + 1 };
                            assert(names(after)[a] == names(before)[a0]);
                            assert(names(after)[b] == names(before)[b0]);
                        }
                    }
                }
                let mut keys: Vec<String> = Vec::new();
                std::mem::swap(&mut keys, &mut self.keys);
                keys.remove(i);
                assert(names(keys@) == names(before).remove(i as int));
                self.keys = keys;
            },
            None => {
                let ghost before = self.keys@;
                let mut keys: Vec<String> = Vec::new();
                std::mem::swap(&mut keys, &mut self.keys);
                keys.push(key.clone());
                assert(names(keys@) == names(before).push(key@));
                assert(names(keys@).no_duplicates()) by {
                    assert forall|a: int, b: int|
                        0 <= a < names(keys@).len() && 0 <= b < names(keys@).len() && a
                            != b implies names(keys@)[a] != names(keys@)[b] by {
                        if a == names(before).len() {
                            assert(names(before)[b] == before[b]@);
                        } else if b == names(before).len() {
                            assert(names(before)[a] == before[a]@);
                        }
                    }
                }
                self.keys = keys;
            },
        }
    }
}

/// The set of channels whose windows are open.
pub open spec fn open_set(view: Seq<Seq<char>>) -> Set<Seq<char>> {
    view.to_set()
}

/// Clicking a channel twice leaves the same channels open.
pub proof fn lemma_toggle_twice(before: Seq<Seq<char>>, key: Seq<char>, mid: Seq<Seq<char>>, after: Seq<Seq<char>>)
    requires
        before.no_duplicates(),
        before.contains(key) ==> exists|i: int|
            0 <= i < before.len() && before[i] == key && mid == before.remove(i),
        !before.contains(key) ==> mid == before.push(key),
        mid.contains(key) ==> exists|i: int|
            0 <= i < mid.len() && mid[i] == key && after == mid.remove(i),
        !mid.contains(key) ==> after == mid.push(key),
    ensures
        open_set(after) == open_set(before),
{
    if before.contains(key) {
        let i = choose|i: int| 0 <= i < before.len() && before[i] == key && mid == before.remove(i);
        assert(!mid.contains(key)) by {
            if mid.contains(key) {
                let j = choose|j: int| 0 <= j < mid.len() && mid[j] == key;
                let j0 = if j < i { j } else { j + 1 };
                assert(before[j0] == key);
            }
        }
        assert(open_set(after) =~= open_set(before)) by {
            assert forall|x: Seq<char>| open_set(before).contains(x) implies open_set(after).contains(x) by {
                let k = choose|k: int| 0 <= k < before.len() && before[k] == x;
                if k < i {
                    assert(after[k] == x);
                } else if k > i {
                    assert(after[k - 1] == x);
                } else {
                    assert(after[after.len() - 1] == x);
                }
            }
            assert forall|x: Seq<char>| open_set(after).contains(x) implies open_set(before).contains(x) by {
                let k = choose|k: int| 0 <= k < after.len() && after[k] == x;
                if k == after.len() - 1 {
                    assert(before[i] == x);
                } else if k < i {
                    assert(before[k] == x);
                } else {
                    assert(before[k + 1] == x);
                }
            }
        }
    } else {
        assert(mid.contains(key)) by {
            assert(mid[mid.len() - 1] == key);
        }
        let j = choose|j: int| 0 <= j < mid.len() && mid[j] == key && after == mid.remove(j);
        assert(j == mid.len() - 1) by {
            if j < mid.len() - 1 {
                assert(before[j] == key);
            }
        }
        assert(after =~= before);
    }
}

} // verus!
