use vstd::prelude::*;

verus! {

/// How many cells a grid dimension gives: a dimension below one gives none.
pub open spec fn dim(n: i32) -> nat {
    if n > 0 {
        n as nat
    } else {
        0
    }
}

/// Lays the first components of a channel's samples out as heat-map rows:
/// an empty leading row, then `y_num` rows of `x_num` cells each, filled
/// row by row from the start of `data`.
pub fn heatmap_rows<T: Copy, U: Copy>(data: &Vec<(T, U)>, x_num: i32, y_num: i32) -> (rows: Vec<
    Vec<T>,
>)
    requires
        dim(x_num) * dim(y_num) <= data.len(),
    ensures
        rows.len() == 1 + dim(y_num),
        rows[0].len() == 0,
        forall|r: int| 1 <= r < rows.len() ==> #[trigger] rows[r].len() == dim(x_num),
        forall|r: int, c: int|
            1 <= r < rows.len() && 0 <= c < dim(x_num) ==> #[trigger] rows[r][c] == data[(r - 1)
                * dim(x_num) + c].0,
{
    let ghost w = dim(x_num);
    let ghost h = dim(y_num);
    let mut rows: Vec<Vec<T>> = Vec::new();
    rows.push(Vec::new());
    let mut k: usize = 0;
    let mut i: i32 = 0;
    while i < y_num
        invariant
            w == dim(x_num),
            h == dim(y_num),
            w * h <= data.len(),
            0 <= i,
            i <= y_num || y_num <= 0,
            i as nat <= h,
            k == i * w,
            rows.len() == 1 + i,
            rows[0].len() == 0,
            forall|r: int| 1 <= r < rows.len() ==> #[trigger] rows[r].len() == w,
            forall|r: int, c: int|
                1 <= r < rows.len() && 0 <= c < w ==> #[trigger] rows[r][c] == data[(r - 1) * w
                    + c].0,
        decreases y_num - i,
    {
        assert((i + 1) * w <= h * w) by (nonlinear_arith)
            requires
                i + 1 <= h,
                0 <= w,
        ;
        assert(h * w == w * h) by (nonlinear_arith);
        let mut row: Vec<T> = Vec::new();
        let mut j: i32 = 0;
        while j < x_num
            invariant
                w == dim(x_num),
                0 <= j,
                j <= x_num || x_num <= 0,
                j as nat <= w,
                k == i * w + j,
                (i + 1) * w <= data.len(),
                row.len() == j,
                forall|c: int| 0 <= c < j ==> #[trigger] row[c] == data[i * w + c].0,
            decreases x_num - j,
        {
            assert(i * w + j < (i + 1) * w) by (nonlinear_arith)
                requires
                    j < w,
            ;
            row.push(data[k].0);
            k = k + 1;
            j = j + 1;
        }
        assert(j as nat == w);
        assert(k == (i + 1) * w) by (nonlinear_arith)
            requires
                k == i * w + j,
                j == w,
        ;
        let ghost before = rows@;
        rows.push(row);
        i = i + 1;
        assert forall|r: int, c: int|
            1 <= r < rows.len() && 0 <= c < w implies #[trigger] rows[r][c] == data[(r - 1) * w
                + c].0 by {
            if r < rows.len() - 1 {
                assert(rows[r] == before[r]);
            }
        }
    }
    assert(i as nat == h);
    rows
}

/// The largest extent a grid dimension may take when the other dimension
/// is `other` and the channel holds `data_len` samples: the whole number of
/// rows (or columns) of length `other` that the samples fill; with no
/// length given (`other == 0`) any extent when there are samples and none
/// when there are not; none for a negative `other`.
pub open spec fn extent_limit(data_len: nat, other: int) -> nat {
    if other > 0 {
        data_len / (other as nat)
    } else if other == 0 && data_len > 0 {
        usize::MAX as nat
    } else {
        0
    }
}

/// The upper bound of the range that a heat map's x (or y) extent may be
/// set to, given the other extent.
pub fn extent_bound(data_len: usize, other: i32) -> (limit: usize)
    ensures
        limit == extent_limit(data_len as nat, other as int),
        other > 0 ==> limit * other <= data_len < (limit + 1) * other,
{
    if other > 0 {
        let q = data_len / (other as usize);
        assert(q * other <= data_len < (q + 1) * other) by (nonlinear_arith)
            requires
                q == data_len / (other as usize),
                other > 0,
        ;
        q
    } else if other == 0 && data_len > 0 {
        usize::MAX
    } else {
        0
    }
}

/// Display settings of a heat-map window.
#[derive(Clone, Copy, Debug, PartialEq, Eq, Structural)]
pub struct HeatmapParams {
    /// Whether the settings window is open.
    pub settings: bool,
    /// Whether the legend is shown.
    pub legend: bool,
    /// Number of cells per row.
    pub x_num: i32,
    /// Number of rows.
    pub y_num: i32,
}

impl Default for HeatmapParams {
    /// Five cells per row, ten rows, settings and legend hidden.
    fn default() -> (p: Self)
        ensures
            p == (HeatmapParams { settings: false, legend: false, x_num: 5, y_num: 10 }),
    {
        HeatmapParams { x_num: 5, y_num: 10, settings: false, legend: false }
    }
}

impl HeatmapParams {
    /// Opens the settings window when closed and closes it when open.
    pub fn toggle_settings(&mut self)
        ensures
            *final(self) == (HeatmapParams { settings: !old(self).settings, ..*old(self) }),
    {
        self.settings = !self.settings;
    }

    /// Closes the settings window.
    pub fn close_settings(&mut self)
        ensures
            *final(self) == (HeatmapParams { settings: false, ..*old(self) }),
    {
        self.settings = false;
    }

    /// Whether the samples of a channel holding `data_len` samples fill the
    /// grid, so that its heat map can be drawn.
    pub fn fits(&self, data_len: usize) -> (b: bool)
        ensures
            b == (dim(self.x_num) * dim(self.y_num) <= data_len),
    {
        let w: u64 = if self.x_num > 0 { self.x_num as u64 } else { 0 };
        let h: u64 = if self.y_num > 0 { self.y_num as u64 } else { 0 };
        assert(w * h <= 0x7fff_ffff * 0x7fff_ffff) by (nonlinear_arith)
            requires
                w <= 0x7fff_ffff,
                h <= 0x7fff_ffff,
        ;
        (w * h) as u128 <= data_len as u128
    }
}

} // verus!
