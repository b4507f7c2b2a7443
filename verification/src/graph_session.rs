use vstd::prelude::*;
use crate::text::{is_trim_of, lemma_trimmed_is_trim, trim_line, trimmed};

verus! {

/// What a graph connection expects next: its channel name, an x value or a
/// y value.
#[derive(Clone, Copy, Debug, PartialEq, Eq, Structural)]
pub enum GraphPhase {
    Name,
    X,
    Y,
}

/// Abstract state of a graph connection.
pub struct GraphState<T> {
    pub phase: GraphPhase,
    /// The last x value that was read (kept when an x line does not parse).
    pub pending_x: T,
    /// The channel that samples go to.
    pub channel: Seq<char>,
}

/// Abstract outcome of one line of a graph connection.
pub enum GraphEvent<T> {
    /// The channel is named; it is to be created when the store lacks it.
    Registered(Seq<char>),
    /// An x value was stored; its y value comes next.
    Stored,
    /// The sample `(x, y)` is to be appended to the channel.
    Appended(T, T),
    /// A value line did not hold a number.
    Unparsed,
}

/// One line of the graph protocol: `line` as read, `value` the number that
/// its trimmed text holds, if it holds one.
pub open spec fn graph_step<T>(s: GraphState<T>, line: Seq<char>, value: Option<T>) -> (
    GraphState<T>,
    GraphEvent<T>,
) {
    match s.phase {
        GraphPhase::Name => (
            GraphState { phase: GraphPhase::X, pending_x: s.pending_x, channel: trimmed(line) },
            GraphEvent::Registered(trimmed(line)),
        ),
        GraphPhase::X => match value {
            Some(x) => (GraphState { phase: GraphPhase::Y, pending_x: x, ..s }, GraphEvent::Stored),
            None => (GraphState { phase: GraphPhase::Y, ..s }, GraphEvent::Unparsed),
        },
        GraphPhase::Y => match value {
            Some(y) => (GraphState { phase: GraphPhase::X, ..s }, GraphEvent::Appended(s.pending_x, y)),
            None => (GraphState { phase: GraphPhase::X, ..s }, GraphEvent::Unparsed),
        },
    }
}

/// The state and the outcomes after `lines`, each a line as read and the
/// number its trimmed text holds, are fed one by one to a connection in
/// state `s`.
pub open spec fn graph_run<T>(s: GraphState<T>, lines: Seq<(Seq<char>, Option<T>)>) -> (
    GraphState<T>,
    Seq<GraphEvent<T>>,
)
    decreases lines.len(),
{
    if lines.len() == 0 {
        (s, seq![])
    } else {
        let (mid, events) = graph_run(s, lines.drop_last());
        let (next, e) = graph_step(mid, lines.last().0, lines.last().1);
        (next, events.push(e))
    }
}

/// The samples that `events` append, in order.
pub open spec fn appended_samples<T>(events: Seq<GraphEvent<T>>) -> Seq<(T, T)>
    decreases events.len(),
{
    if events.len() == 0 {
        seq![]
    } else {
        let earlier = appended_samples(events.drop_last());
        match events.last() {
            GraphEvent::Appended(x, y) => earlier.push((x, y)),
            _ => earlier,
        }
    }
}

/// A name line names the connection after the whole line without its white
/// space ends, whatever its length: the registered name and the channel
/// that later samples go to are that same text, and the next line is an x
/// value.
pub proof fn lemma_graph_name_line<T>(s: GraphState<T>, line: Seq<char>, value: Option<T>)
    requires
        s.phase == GraphPhase::Name,
    ensures
        graph_step(s, line, value).1 == GraphEvent::<T>::Registered(graph_step(s, line, value).0.channel),
        is_trim_of(graph_step(s, line, value).0.channel, line),
        graph_step(s, line, value).0.phase == GraphPhase::X,
{
    lemma_trimmed_is_trim(line);
}

/// A connection is named once: after its name line, no later line changes
/// its channel or makes it wait for a name again.
pub proof fn lemma_graph_channel_fixed<T>(s: GraphState<T>, lines: Seq<(Seq<char>, Option<T>)>)
    requires
        s.phase != GraphPhase::Name,
    ensures
        graph_run(s, lines).0.phase != GraphPhase::Name,
        graph_run(s, lines).0.channel == s.channel,
    decreases lines.len(),
{
    if lines.len() > 0 {
        lemma_graph_channel_fixed(s, lines.drop_last());
    }
}

proof fn lemma_graph_pairs_prefix<T>(
    s: GraphState<T>,
    lines: Seq<(Seq<char>, Option<T>)>,
    xs: Seq<T>,
    ys: Seq<T>,
    k: int,
)
    requires
        s.phase == GraphPhase::X,
        xs.len() == ys.len(),
        lines.len() == 2 * xs.len(),
        0 <= k <= xs.len(),
        forall|i: int| 0 <= i < xs.len() ==> #[trigger] lines[2 * i].1 == Some(xs[i]),
        forall|i: int| 0 <= i < xs.len() ==> #[trigger] lines[2 * i + 1].1 == Some(ys[i]),
    ensures
        graph_run(s, lines.take(2 * k)).0.phase == GraphPhase::X,
        graph_run(s, lines.take(2 * k)).0.channel == s.channel,
        appended_samples(graph_run(s, lines.take(2 * k)).1) == Seq::new(
            xs.len(),
            |i: int| (xs[i], ys[i]),
        ).take(k),
    decreases k,
{
    let pairs = Seq::new(xs.len(), |i: int| (xs[i], ys[i]));
    if k == 0 {
        assert(lines.take(0) == Seq::<(Seq<char>, Option<T>)>::empty());
        assert(pairs.take(0) == Seq::<(T, T)>::empty());
    } else {
        let j = k - 1;
        lemma_graph_pairs_prefix(s, lines, xs, ys, j);
        let a = lines.take(2 * j);
        let b = lines.take(2 * j + 1);
        let c = lines.take(2 * j + 2);
        assert(b.drop_last() == a);
        assert(c.drop_last() == b);
        assert(b.last() == lines[2 * j]);
        assert(c.last() == lines[2 * j + 1]);
        let e0 = graph_run(s, a).1;
        let e1 = graph_run(s, b).1;
        let e2 = graph_run(s, c).1;
        assert(e1.drop_last() == e0);
        assert(e2.drop_last() == e1);
        assert(appended_samples(e1) == appended_samples(e0));
        assert(pairs.take(k) == pairs.take(j).push((xs[j], ys[j])));
    }
}

/// The graph protocol: once a connection has its name, lines that hold the
/// numbers x0, y0, x1, y1, ... append exactly the samples (x0, y0),
/// (x1, y1), ... to its channel, in that order, and leave it waiting for
/// the next x value on the same channel.
pub proof fn lemma_graph_pairs_append<T>(
    s: GraphState<T>,
    lines: Seq<(Seq<char>, Option<T>)>,
    xs: Seq<T>,
    ys: Seq<T>,
)
    requires
        s.phase == GraphPhase::X,
        xs.len() == ys.len(),
        lines.len() == 2 * xs.len(),
        forall|i: int| 0 <= i < xs.len() ==> #[trigger] lines[2 * i].1 == Some(xs[i]),
        forall|i: int| 0 <= i < xs.len() ==> #[trigger] lines[2 * i + 1].1 == Some(ys[i]),
    ensures
        graph_run(s, lines).0.phase == GraphPhase::X,
        graph_run(s, lines).0.channel == s.channel,
        appended_samples(graph_run(s, lines).1) == Seq::new(xs.len(), |i: int| (xs[i], ys[i])),
{
    let pairs = Seq::new(xs.len(), |i: int| (xs[i], ys[i]));
    lemma_graph_pairs_prefix(s, lines, xs, ys, xs.len() as int);
    assert(lines.take(2 * (xs.len() as int)) == lines);
    assert(pairs.take(xs.len() as int) == pairs);
}

/// What the connection handler is to do after a line.
pub enum GraphAction<T> {
    /// Create the named channel (and its plot settings) unless it exists.
    Register(String),
    /// Nothing to do: an x value was stored.
    Stored,
    /// Append the sample `(x, y)` to the session's channel.
    Append(T, T),
    /// Report that the line held no number.
    Unparsed,
}

impl<T> View for GraphAction<T> {
    type V = GraphEvent<T>;

    open spec fn view(&self) -> GraphEvent<T> {
        match self {
            GraphAction::Register(name) => GraphEvent::Registered(name@),
            GraphAction::Stored => GraphEvent::Stored,
            GraphAction::Append(x, y) => GraphEvent::Appended(*x, *y),
            GraphAction::Unparsed => GraphEvent::Unparsed,
        }
    }
}

/// The state of one connection to the graph port: a channel name line,
/// then x and y lines in turn.
pub struct GraphSession<T> {
    phase: GraphPhase,
    pending_x: T,
    channel: String,
}

impl<T: Copy> View for GraphSession<T> {
    type V = GraphState<T>;

    closed spec fn view(&self) -> GraphState<T> {
        GraphState { phase: self.phase, pending_x: self.pending_x, channel: self.channel@ }
    }
}

impl<T: Copy> GraphSession<T> {
    /// A fresh connection: it waits for its channel name, its x value
    /// starts at `zero` and its channel at `"temp"`.
    pub fn new(zero: T) -> (s: Self)
        ensures
            s@.phase == GraphPhase::Name,
            s@.pending_x == zero,
            s@.channel == "temp"@,
    {
        GraphSession { phase: GraphPhase::Name, pending_x: zero, channel: "temp".to_owned() }
    }

    /// The phase the connection is in.
    pub fn phase(&self) -> (p: GraphPhase)
        ensures
            p == self@.phase,
    {
        self.phase
    }

    /// The channel that samples go to.
    pub fn channel(&self) -> (c: &String)
        ensures
            c@ == self@.channel,
    {
        &self.channel
    }

    /// Takes one line and the number that its trimmed text holds, if any,
    /// and says what to do with it.
    pub fn on_line(&mut self, line: &str, value: Option<T>) -> (a: GraphAction<T>)
        ensures
            (final(self)@, a@) == graph_step(old(self)@, line@, value),
    {
        match self.phase {
            GraphPhase::Name => {
                let name = trim_line(line);
                self.channel = name.clone();
                self.phase = GraphPhase::X;
                GraphAction::Register(name)
            },
            GraphPhase::X => {
                self.phase = GraphPhase::Y;
                match value {
                    Some(x) => {
                        self.pending_x = x;
                        GraphAction::Stored
                    },
                    None => GraphAction::Unparsed,
                }
            },
            GraphPhase::Y => {
                self.phase = GraphPhase::X;
                match value {
                    Some(y) => GraphAction::Append(self.pending_x, y),
                    None => GraphAction::Unparsed,
                }
            },
        }
    }
}

} // verus!
