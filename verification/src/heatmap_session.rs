use vstd::prelude::*;
use crate::text::{is_trim_of, lemma_trimmed_is_trim, trim_line, trimmed};

verus! {

/// Number of values in one heat-map frame.
pub const FRAME_LEN: i32 = 50;

/// What a heat-map connection expects next: its channel name, one of the
/// first values of a frame, or the value that completes a frame.
#[derive(Clone, Copy, Debug, PartialEq, Eq, Structural)]
pub enum HeatPhase {
    Name,
    Values,
    Last,
}

/// Abstract state of a heat-map connection.
pub struct HeatState<T> {
    pub phase: HeatPhase,
    /// Position of the next value in the frame.
    pub counter: i32,
    /// The values collected for the frame so far, each with its position.
    pub frame: Seq<(T, i32)>,
    /// The channel that frames go to.
    pub channel: Seq<char>,
}

/// Abstract outcome of one line of a heat-map connection.
pub enum HeatEvent<T> {
    /// The channel is named; it is to be created when the store lacks it.
    Registered(Seq<char>),
    /// A value joined the frame.
    Collected,
    /// The channel's samples are to be replaced by this complete frame.
    Replaced(Seq<(T, i32)>),
    /// A value line did not hold a number.
    Unparsed,
}

/// One line of the heat-map protocol: `line` as read, `value` the number
/// that its trimmed text holds, if it holds one.
pub open spec fn heat_step<T>(s: HeatState<T>, line: Seq<char>, value: Option<T>) -> (
    HeatState<T>,
    HeatEvent<T>,
) {
    match s.phase {
        HeatPhase::Name => (
            HeatState { phase: HeatPhase::Values, channel: trimmed(line), ..s },
            HeatEvent::Registered(trimmed(line)),
        ),
        HeatPhase::Values => {
            let counter = (s.counter + 1) as i32;
            let phase = if counter == FRAME_LEN - 1 {
                HeatPhase::Last
            } else {
                HeatPhase::Values
            };
            match value {
                Some(v) => (
                    HeatState { phase, counter, frame: s.frame.push((v, s.counter)), ..s },
                    HeatEvent::Collected,
                ),
                None => (HeatState { phase, counter, ..s }, HeatEvent::Unparsed),
            }
        },
        HeatPhase::Last => match value {
            Some(v) => (
                HeatState { phase: HeatPhase::Values, counter: 0, frame: seq![], ..s },
                HeatEvent::Replaced(s.frame.push((v, s.counter))),
            ),
            None => (HeatState { phase: HeatPhase::Values, ..s }, HeatEvent::Unparsed),
        },
    }
}

/// Whether a line can be taken in state `s` without the position counter
/// leaving the `i32` range.
pub open spec fn heat_step_defined<T>(s: HeatState<T>) -> bool {
    s.phase == HeatPhase::Values ==> s.counter < i32::MAX
}

/// The state and the outcomes after `lines`, each a line as read and the
/// number its trimmed text holds, are fed one by one to a connection in
/// state `s`.
pub open spec fn heat_run<T>(s: HeatState<T>, lines: Seq<(Seq<char>, Option<T>)>) -> (
    HeatState<T>,
    Seq<HeatEvent<T>>,
)
    decreases lines.len(),
{
    if lines.len() == 0 {
        (s, seq![])
    } else {
        let (mid, events) = heat_run(s, lines.drop_last());
        let (next, e) = heat_step(mid, lines.last().0, lines.last().1);
        (next, events.push(e))
    }
}

/// The frame that the values `vs` make, each with its position.
pub open spec fn numbered<T>(vs: Seq<T>) -> Seq<(T, i32)> {
    Seq::new(vs.len(), |i: int| (vs[i], i as i32))
}

/// A name line names the connection after the whole line without its white
/// space ends, whatever its length: the registered name and the channel
/// that later frames go to are that same text, and a fresh frame begins.
pub proof fn lemma_heat_name_line<T>(s: HeatState<T>, line: Seq<char>, value: Option<T>)
    requires
        s.phase == HeatPhase::Name,
    ensures
        heat_step(s, line, value).1 == HeatEvent::<T>::Registered(heat_step(s, line, value).0.channel),
        is_trim_of(heat_step(s, line, value).0.channel, line),
        heat_step(s, line, value).0.phase == HeatPhase::Values,
        heat_step(s, line, value).0.counter == s.counter,
        heat_step(s, line, value).0.frame == s.frame,
{
    lemma_trimmed_is_trim(line);
}

/// A connection is named once: after its name line, no later line changes
/// its channel or makes it wait for a name again.
pub proof fn lemma_heat_channel_fixed<T>(s: HeatState<T>, lines: Seq<(Seq<char>, Option<T>)>)
    requires
        s.phase != HeatPhase::Name,
    ensures
        heat_run(s, lines).0.phase != HeatPhase::Name,
        heat_run(s, lines).0.channel == s.channel,
    decreases lines.len(),
{
    if lines.len() > 0 {
        lemma_heat_channel_fixed(s, lines.drop_last());
    }
}

proof fn lemma_heat_frame_prefix<T>(
    s: HeatState<T>,
    lines: Seq<(Seq<char>, Option<T>)>,
    vs: Seq<T>,
    k: int,
)
    requires
        s.phase == HeatPhase::Values,
        s.counter == 0,
        s.frame == Seq::<(T, i32)>::empty(),
        vs.len() == FRAME_LEN,
        lines.len() == FRAME_LEN,
        forall|i: int| 0 <= i < FRAME_LEN ==> #[trigger] lines[i].1 == Some(vs[i]),
        0 <= k < FRAME_LEN,
    ensures
        heat_run(s, lines.take(k)).0 == (HeatState {
            phase: if k == FRAME_LEN - 1 {
                HeatPhase::Last
            } else {
                HeatPhase::Values
            },
            counter: k as i32,
            frame: numbered(vs.take(k)),
            channel: s.channel,
        }),
        heat_run(s, lines.take(k)).1 == Seq::new(k as nat, |i: int| HeatEvent::<T>::Collected),
    decreases k,
{
    if k == 0 {
        assert(lines.take(0) == Seq::<(Seq<char>, Option<T>)>::empty());
        assert(numbered(vs.take(0)) == Seq::<(T, i32)>::empty());
        assert(Seq::new(0, |i: int| HeatEvent::<T>::Collected) == Seq::<HeatEvent<T>>::empty());
    } else {
        let j = k - 1;
        lemma_heat_frame_prefix(s, lines, vs, j);
        assert(lines.take(k).drop_last() == lines.take(j));
        assert(lines.take(k).last() == lines[j]);
        assert(numbered(vs.take(k)) == numbered(vs.take(j)).push((vs[j], j as i32)));
        assert(Seq::new(k as nat, |i: int| HeatEvent::<T>::Collected) == Seq::new(
            j as nat,
            |i: int| HeatEvent::<T>::Collected,
        ).push(HeatEvent::Collected));
    }
}

/// The heat-map protocol: from the start of a frame, `FRAME_LEN` lines that
/// hold the numbers v0 .. v49 collect them one by one and then replace the
/// channel's samples with the frame (v0, 0) .. (v49, 49), after which the
/// connection waits for the first value of the next frame.
pub proof fn lemma_heat_frame_replaces<T>(
    s: HeatState<T>,
    lines: Seq<(Seq<char>, Option<T>)>,
    vs: Seq<T>,
)
    requires
        s.phase == HeatPhase::Values,
        s.counter == 0,
        s.frame == Seq::<(T, i32)>::empty(),
        vs.len() == FRAME_LEN,
        lines.len() == FRAME_LEN,
        forall|i: int| 0 <= i < FRAME_LEN ==> #[trigger] lines[i].1 == Some(vs[i]),
    ensures
        heat_run(s, lines).0 == s,
        heat_run(s, lines).1.len() == FRAME_LEN,
        forall|i: int| 0 <= i < FRAME_LEN - 1 ==> #[trigger] heat_run(s, lines).1[i] == HeatEvent::<T>::Collected,
        heat_run(s, lines).1.last() == HeatEvent::Replaced(numbered(vs)),
{
    let k = FRAME_LEN - 1;
    lemma_heat_frame_prefix(s, lines, vs, k as int);
    assert(lines.drop_last() == lines.take(k as int));
    assert(numbered(vs) == numbered(vs.take(k as int)).push((vs[k as int], k as i32)));
}

/// What the connection handler is to do after a line.
pub enum HeatmapAction<T> {
    /// Create the named channel (and its plot settings) unless it exists.
    Register(String),
    /// Nothing to do: the value joined the frame.
    Collected,
    /// Replace the channel's samples by this frame.
    Replace(Vec<(T, i32)>),
    /// Report that the line held no number.
    Unparsed,
}

impl<T> View for HeatmapAction<T> {
    type V = HeatEvent<T>;

    open spec fn view(&self) -> HeatEvent<T> {
        match self {
            HeatmapAction::Register(name) => HeatEvent::Registered(name@),
            HeatmapAction::Collected => HeatEvent::Collected,
            HeatmapAction::Replace(frame) => HeatEvent::Replaced(frame@),
            HeatmapAction::Unparsed => HeatEvent::Unparsed,
        }
    }
}

/// The state of one connection to the heat-map port: a channel name line,
/// then frames of `FRAME_LEN` values, one value per line.
pub struct HeatmapSession<T> {
    phase: HeatPhase,
    counter: i32,
    frame: Vec<(T, i32)>,
    channel: String,
}

impl<T> View for HeatmapSession<T> {
    type V = HeatState<T>;

    closed spec fn view(&self) -> HeatState<T> {
        HeatState {
            phase: self.phase,
            counter: self.counter,
            frame: self.frame@,
            channel: self.channel@,
        }
    }
}

impl<T> HeatmapSession<T> {
    /// A fresh connection: it waits for its channel name, with an empty
    /// frame, position 0 and the channel `"temp"`.
    pub fn new() -> (s: Self)
        ensures
            s@.phase == HeatPhase::Name,
            s@.counter == 0,
            s@.frame == Seq::<(T, i32)>::empty(),
            s@.channel == "temp"@,
    {
        HeatmapSession {
            phase: HeatPhase::Name,
            counter: 0,
            frame: Vec::new(),
            channel: "temp".to_owned(),
        }
    }

    /// The phase the connection is in.
    pub fn phase(&self) -> (p: HeatPhase)
        ensures
            p == self@.phase,
    {
        self.phase
    }

    /// Position of the next value in the frame.
    pub fn counter(&self) -> (c: i32)
        ensures
            c == self@.counter,
    {
        self.counter
    }

    /// The channel that frames go to.
    pub fn channel(&self) -> (c: &String)
        ensures
            c@ == self@.channel,
    {
        &self.channel
    }

    /// Takes one line and the number that its trimmed text holds, if any,
    /// and says what to do with it.
    pub fn on_line(&mut self, line: &str, value: Option<T>) -> (a: HeatmapAction<T>)
        requires
            heat_step_defined(old(self)@),
        ensures
            (final(self)@, a@) == heat_step(old(self)@, line@, value),
    {
        match self.phase {
            HeatPhase::Name => {
                let name = trim_line(line);
                self.channel = name.clone();
                self.phase = HeatPhase::Values;
                HeatmapAction::Register(name)
            },
            HeatPhase::Values => {
                let position = self.counter;
                self.counter = position + 1;
                if self.counter == FRAME_LEN - 1 {
                    self.phase = HeatPhase::Last;
                }
                match value {
                    Some(v) => {
                        self.frame.push((v, position));
                        HeatmapAction::Collected
                    },
                    None => HeatmapAction::Unparsed,
                }
            },
            HeatPhase::Last => {
                self.phase = HeatPhase::Values;
                match value {
                    Some(v) => {
                        self.frame.push((v, self.counter));
                        self.counter = 0;
                        let mut complete = Vec::new();
                        std::mem::swap(&mut complete, &mut self.frame);
                        HeatmapAction::Replace(complete)
                    },
                    None => HeatmapAction::Unparsed,
                }
            },
        }
    }
}

} // verus!
