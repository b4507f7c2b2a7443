use vstd::prelude::*;

verus! {

/// How a graph channel is drawn.
#[derive(Clone, Copy, Debug, PartialEq, Eq, Structural)]
pub enum PlotMode {
    Scatter,
    Line,
}

impl PlotMode {
    /// The name under which the mode is shown.
    pub fn label(&self) -> (s: &'static str)
        ensures
            s@ == (match self {
                PlotMode::Scatter => "Scatter"@,
                PlotMode::Line => "Line"@,
            }),
    {
        match self {
            PlotMode::Scatter => "Scatter",
            PlotMode::Line => "Line",
        }
    }
}

/// Number of other channels that a graph window can draw over its own.
pub const OVERLAY_SLOTS: usize = 4;

/// Display settings of a graph window, apart from its axis ranges.
#[derive(Clone, Copy, Debug)]
pub struct GraphSettings {
    /// Whether the settings window is open.
    pub settings: bool,
    /// Whether the legend is shown.
    pub legend: bool,
    /// Whether the x range follows the data alone rather than growing to
    /// cover it.
    pub x_rescale: bool,
    /// Whether the y range follows the data alone rather than growing to
    /// cover it.
    pub y_rescale: bool,
    /// For each overlay slot, a position in the window's channel choices
    /// (position 0 is the "Unselected" entry).
    pub addplots: [usize; 4],
    /// How the window's own channel is drawn.
    pub plot_mode: PlotMode,
}

impl Default for GraphSettings {
    /// Everything hidden and off, every overlay slot on "Unselected", and
    /// the channel drawn as a scatter plot.
    fn default() -> (g: Self)
        ensures
            !g.settings,
            !g.legend,
            !g.x_rescale,
            !g.y_rescale,
            forall|i: int| 0 <= i < 4 ==> g.addplots[i] == 0,
            g.plot_mode == PlotMode::Scatter,
    {
        GraphSettings {
            settings: false,
            legend: false,
            x_rescale: false,
            y_rescale: false,
            addplots: [0, 0, 0, 0],
            plot_mode: PlotMode::Scatter,
        }
    }
}

impl GraphSettings {
    /// Opens the settings window when closed and closes it when open.
    pub fn toggle_settings(&mut self)
        ensures
            final(self).settings == !old(self).settings,
            final(self).legend == old(self).legend,
            final(self).x_rescale == old(self).x_rescale,
            final(self).y_rescale == old(self).y_rescale,
            final(self).addplots == old(self).addplots,
            final(self).plot_mode == old(self).plot_mode,
    {
        self.settings = !self.settings;
    }

    /// Shows the legend when hidden and hides it when shown.
    pub fn toggle_legend(&mut self)
        ensures
            final(self).legend == !old(self).legend,
            final(self).settings == old(self).settings,
            final(self).x_rescale == old(self).x_rescale,
            final(self).y_rescale == old(self).y_rescale,
            final(self).addplots == old(self).addplots,
            final(self).plot_mode == old(self).plot_mode,
    {
        self.legend = !self.legend;
    }

    /// Closes the settings window.
    pub fn close_settings(&mut self)
        ensures
            !final(self).settings,
            final(self).legend == old(self).legend,
            final(self).x_rescale == old(self).x_rescale,
            final(self).y_rescale == old(self).y_rescale,
            final(self).addplots == old(self).addplots,
            final(self).plot_mode == old(self).plot_mode,
    {
        self.settings = false;
    }

    /// Puts the channel choice at position `choice` into overlay slot `slot`.
    pub fn select_overlay(&mut self, slot: usize, choice: usize)
        requires
            slot < OVERLAY_SLOTS,
        ensures
            final(self).addplots@ == old(self).addplots@.update(slot as int, choice),
            final(self).settings == old(self).settings,
            final(self).legend == old(self).legend,
            final(self).x_rescale == old(self).x_rescale,
            final(self).y_rescale == old(self).y_rescale,
            final(self).plot_mode == old(self).plot_mode,
    {
        self.addplots[slot] = choice;
    }
}

/// The names in `keys` other than `current`, in order.
pub open spec fn other_channels(keys: Seq<Seq<char>>, current: Seq<char>) -> Seq<Seq<char>>
    decreases keys.len(),
{
    if keys.len() == 0 {
        seq![]
    } else {
        let earlier = other_channels(keys.drop_last(), current);
        if keys.last() == current {
            earlier
        } else {
            earlier.push(keys.last())
        }
    }
}

/// Whether a key is other than `current`.
pub open spec fn other_than(current: Seq<char>) -> spec_fn(Seq<char>) -> bool {
    |k: Seq<char>| k != current
}

/// The other channels are the keys that differ from the window's own
/// channel, every one of them and in their order, and nothing else: a key
/// is offered exactly when it is in `keys` and is not `current`, and as
/// often as it occurs there.
pub proof fn lemma_other_channels_are_all_others(keys: Seq<Seq<char>>, current: Seq<char>)
    ensures
        other_channels(keys, current) == keys.filter(other_than(current)),
        forall|x: Seq<char>|
            #[trigger] other_channels(keys, current).contains(x) <==> (keys.contains(x) && x
                != current),
        other_channels(keys, current).len() <= keys.len(),
        !keys.contains(current) ==> other_channels(keys, current) == keys,
    decreases keys.len(),
{
    let pred = other_than(current);
    reveal_with_fuel(Seq::<_>::filter, 1);
    if keys.len() == 0 {
        assert(keys.filter(pred) == keys);
    } else {
        let rest = keys.drop_last();
        lemma_other_channels_are_all_others(rest, current);
        assert(keys.filter(pred) == if pred(keys.last()) {
            rest.filter(pred).push(keys.last())
        } else {
            rest.filter(pred)
        });
        let o = other_channels(keys, current);
        let ro = other_channels(rest, current);
        assert(o == if keys.last() == current {
            ro
        } else {
            ro.push(keys.last())
        });
        assert forall|x: Seq<char>| #[trigger] o.contains(x) <==> (keys.contains(x) && x != current) by {
            if o.contains(x) {
                let i = choose|i: int| 0 <= i < o.len() && o[i] == x;
                if i < ro.len() {
                    assert(ro[i] == x);
                    assert(ro.contains(x));
                    let j = choose|j: int| 0 <= j < rest.len() && rest[j] == x;
                    assert(keys[j] == x);
                } else {
                    assert(keys[keys.len() - 1] == x);
                }
            }
            if keys.contains(x) && x != current {
                let j = choose|j: int| 0 <= j < keys.len() && keys[j] == x;
                if j < keys.len() - 1 {
                    assert(rest[j] == x);
                    assert(rest.contains(x));
                    assert(ro.contains(x));
                    let i = choose|i: int| 0 <= i < ro.len() && ro[i] == x;
                    assert(o[i] == ro[i]);
                } else {
                    assert(keys.last() == x);
                    assert(o == ro.push(x));
                    assert(o[o.len() - 1] == x);
                }
            }
        }
        if !keys.contains(current) {
            assert(!rest.contains(current)) by {
                if rest.contains(current) {
                    let j = choose|j: int| 0 <= j < rest.len() && rest[j] == current;
                    assert(keys[j] == current);
                }
            }
            assert(keys.last() != current) by {
                assert(keys[keys.len() - 1] == keys.last());
            }
            assert(rest.push(keys.last()) == keys);
        }
    }
}

/// The views of a list of strings.
pub open spec fn names(v: Seq<String>) -> Seq<Seq<char>> {
    v.map_values(|s: String| s@)
}

/// The channels that a graph window offers for its overlay slots: first
/// "Unselected", then every channel in `keys` other than the window's own,
/// in the order of `keys`.
pub fn channel_choices(keys: &Vec<String>, current: &String) -> (choices: Vec<String>)
    ensures
        names(choices@) == seq!["Unselected"@] + other_channels(names(keys@), current@),
{
    let mut choices: Vec<String> = Vec::new();
    choices.push("Unselected".to_owned());
    let mut i: usize = 0;
    while i < keys.len()
        invariant
            0 <= i <= keys.len(),
            names(choices@) == seq!["Unselected"@] + other_channels(
                names(keys@.take(i as int)),
                current@,
            ),
        decreases keys.len() - i,
    {
        let ghost before = choices@;
        assert(names(keys@.take(i as int + 1)).drop_last() == names(keys@.take(i as int)));
        assert(names(keys@.take(i as int + 1)).last() == keys@[i as int]@);
        if !(keys[i] == *current) {
            choices.push(keys[i].clone());
            assert(names(choices@) == names(before).push(keys@[i as int]@));
        }
        i = i + 1;
    }
    assert(keys@.take(keys.len() as int) == keys@);
    choices
}

/// The channels that the overlay slots name: for each slot, the channel
/// choice at the position it holds.
pub fn overlay_channels(addplots: &[usize; 4], choices: &Vec<String>) -> (chosen: Vec<String>)
    requires
        forall|i: int| 0 <= i < 4 ==> #[trigger] addplots[i] < choices.len(),
    ensures
        chosen.len() == OVERLAY_SLOTS,
        forall|i: int| 0 <= i < 4 ==> #[trigger] chosen@[i]@ == choices@[addplots[i] as int]@,
{
    let mut chosen: Vec<String> = Vec::new();
    let mut i: usize = 0;
    while i < OVERLAY_SLOTS
        invariant
            0 <= i <= 4,
            chosen.len() == i,
            forall|j: int| 0 <= j < 4 ==> #[trigger] addplots[j] < choices.len(),
            forall|j: int| 0 <= j < i ==> #[trigger] chosen@[j]@ == choices@[addplots[j] as int]@,
        decreases 4 - i,
    {
        let c = addplots[i];
        chosen.push(choices[c].clone());
        i = i + 1;
    }
    chosen
}

/// Colour of the channel side panel: a dark blue under a dark theme, a
/// brighter blue otherwise.
pub fn side_panel_rgb(dark_theme: bool) -> (rgb: (u8, u8, u8))
    ensures
        rgb == (if dark_theme {
            (0u8, 10u8, 18u8)
        } else {
            (0u8, 100u8, 180u8)
        }),
{
    if dark_theme {
        (0, 10, 18)
    } else {
        (0, 100, 180)
    }
}

} // verus!
