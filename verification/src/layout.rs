//! The grid/table text renderer.
//!
//! A [`GridLayout`] accumulates rows of [`Cell`]s, computes one width per
//! column (the widest cell of the column), and renders every cell padded to
//! its column's width, optionally framed by border characters.  When an
//! overall width cap is set and the natural row width exceeds it, the last
//! column is narrowed by truncating its text; all other columns keep their
//! natural width.  All width accounting is on printable characters: styling
//! escape sequences occupy no columns (see [`crate::text`]).

use vstd::prelude::*;

use crate::text::clip;
use crate::text::display_width;
use crate::text::esc_closed;
use crate::text::lemma_clip_end_state;
use crate::text::lemma_clip_width;
use crate::text::lemma_plain_visible;
use crate::text::lemma_spaces_visible;
use crate::text::lemma_visible_concat;
use crate::text::make_spaces;
use crate::text::spaces;
use crate::text::truncate_to_width;
use crate::text::visible_width;

verus! {

/// How a cell's text sits inside its column.
#[derive(Clone, Copy, Debug, PartialEq, Eq, Structural)]
pub enum Alignment {
    Left,
    Right,
    Center,
}

/// One piece of aligned text within a row.
pub struct Cell {
    pub text: String,
    pub alignment: Alignment,
}

/// The mathematical content of a [`Cell`]: its characters and alignment.
#[verifier::ext_equal]
pub ghost struct CellModel {
    pub text: Seq<char>,
    pub align: Alignment,
}

impl View for Cell {
    type V = CellModel;

    open spec fn view(&self) -> CellModel {
        CellModel { text: self.text@, align: self.alignment }
    }
}

impl Cell {
    /// A left-aligned cell holding `text`.
    pub fn new(text: &str) -> (r: Cell)
        ensures
            r@ == (CellModel { text: text@, align: Alignment::Left }),
    {
        Cell { text: text.to_owned(), alignment: Alignment::Left }
    }

    /// The same cell with another alignment.
    pub fn with_alignment(self, alignment: Alignment) -> (r: Cell)
        ensures
            r@ == (CellModel { text: self@.text, align: alignment }),
    {
        Cell { text: self.text, alignment }
    }
}

/// The rows of a grid as sequences of cell models.
pub open spec fn row_model(cells: Seq<Cell>) -> Seq<CellModel> {
    cells.map_values(|c: Cell| c@)
}

/// `text` padded with spaces to `w` printable columns.  Left alignment pads
/// on the right, right alignment on the left; centering puts the odd extra
/// space on the right.  Text at or above `w` columns is left as it is.
pub open spec fn pad_spec(text: Seq<char>, align: Alignment, w: nat) -> Seq<char> {
    let vis = visible_width(text);
    if vis >= w {
        text
    } else {
        let pad = (w - vis) as nat;
        match align {
            Alignment::Left => text + spaces(pad),
            Alignment::Right => spaces(pad) + text,
            Alignment::Center => spaces((pad / 2) as nat) + text + spaces(
                (pad - pad / 2) as nat,
            ),
        }
    }
}

/// A cell rendered into a column of width `w`: truncated to at most `w`
/// printable characters, then padded to exactly `w`.
pub open spec fn rendered_cell(c: CellModel, w: nat) -> Seq<char> {
    pad_spec(clip(c.text, w), c.align, w)
}

/// The width of column `j`: the widest cell of that column over all rows.
pub open spec fn col_width(rows: Seq<Seq<CellModel>>, j: int) -> nat
    decreases rows.len(),
{
    if rows.len() == 0 {
        0
    } else {
        let rest = col_width(rows.drop_last(), j);
        let w = visible_width(rows.last()[j].text);
        if w > rest {
            w
        } else {
            rest
        }
    }
}

/// All natural column widths of a grid with `ncols` columns.
pub open spec fn natural_widths(rows: Seq<Seq<CellModel>>, ncols: nat) -> Seq<nat> {
    Seq::new(ncols, |j: int| col_width(rows, j))
}

/// The sum of a sequence of widths.
pub open spec fn sum_widths(ws: Seq<nat>) -> nat
    decreases ws.len(),
{
    if ws.len() == 0 {
        0
    } else {
        sum_widths(ws.drop_last()) + ws.last()
    }
}

/// Characters of framing per row: one separator around and between columns
/// when bordered, none otherwise.
pub open spec fn frame_overhead(bordered: bool, ncols: nat) -> nat {
    if bordered {
        ncols + 1
    } else {
        0
    }
}

/// Column widths after applying the overall cap: if the natural total
/// (including framing) exceeds the cap, the last column is narrowed to what
/// remains after the other columns and the framing, and no other column
/// changes.
pub open spec fn effective_widths(ws: Seq<nat>, cap: Option<nat>, overhead: nat) -> Seq<nat> {
    match cap {
        Option::None => ws,
        Option::Some(mw) => {
            if ws.len() == 0 {
                ws
            } else {
                let others = sum_widths(ws.drop_last());
                if others + ws.last() + overhead <= mw {
                    ws
                } else {
                    let last_w: nat = if others + overhead <= mw {
                        (mw - others - overhead) as nat
                    } else {
                        0
                    };
                    ws.update(ws.len() - 1, last_w)
                }
            }
        },
    }
}

/// The first `j` cells of a row rendered and joined, with a leading
/// separator and one after each cell when bordered.
pub open spec fn cells_prefix(row: Seq<CellModel>, ws: Seq<nat>, j: int, bordered: bool) -> Seq<
    char,
>
    decreases j,
{
    if j <= 0 {
        if bordered {
            seq!['\u{2502}']
        } else {
            Seq::empty()
        }
    } else {
        cells_prefix(row, ws, j - 1, bordered) + rendered_cell(row[j - 1], ws[j - 1]) + (
        if bordered {
            seq!['\u{2502}']
        } else {
            Seq::<char>::empty()
        })
    }
}

/// One rendered row: its cells followed by a newline.
pub open spec fn line_text(row: Seq<CellModel>, ws: Seq<nat>, bordered: bool) -> Seq<char> {
    cells_prefix(row, ws, row.len() as int, bordered) + seq!['\n']
}

/// The first `i` rendered rows, concatenated.
pub open spec fn lines_prefix(
    rows: Seq<Seq<CellModel>>,
    ws: Seq<nat>,
    bordered: bool,
    i: int,
) -> Seq<char>
    decreases i,
{
    if i <= 0 {
        Seq::empty()
    } else {
        lines_prefix(rows, ws, bordered, i - 1) + line_text(rows[i - 1], ws, bordered)
    }
}

/// A horizontal rule of `total` dash characters and a newline.
pub open spec fn rule_line(total: nat) -> Seq<char> {
    Seq::new(total, |i: int| '\u{2500}') + seq!['\n']
}

/// The mathematical content of a [`GridLayout`].
#[verifier::ext_equal]
pub ghost struct GridModel {
    pub rows: Seq<Seq<CellModel>>,
    pub max_width: Option<nat>,
    pub bordered: bool,
}

impl GridModel {
    /// Number of columns: fixed by the first row.
    pub open spec fn ncols(self) -> nat {
        if self.rows.len() == 0 {
            0
        } else {
            self.rows[0].len()
        }
    }

    /// Every row has the column count of the first row.
    pub open spec fn consistent_arity(self) -> bool {
        forall|i: int|
            0 <= i < self.rows.len() ==> (#[trigger] self.rows[i]).len() == self.ncols()
    }

    /// The column widths the renderer lays cells out with.
    pub open spec fn widths(self) -> Seq<nat> {
        effective_widths(
            natural_widths(self.rows, self.ncols()),
            self.max_width,
            frame_overhead(self.bordered, self.ncols()),
        )
    }

    /// The exact text the grid renders to: every row's cells padded to the
    /// column widths, framed and ruled when bordered, and nothing at all for
    /// an empty grid.
    pub open spec fn render_spec(self) -> Seq<char> {
        if self.rows.len() == 0 {
            Seq::empty()
        } else {
            let body = lines_prefix(self.rows, self.widths(), self.bordered, self.rows.len() as int);
            if self.bordered {
                let total = sum_widths(self.widths()) + frame_overhead(true, self.ncols());
                rule_line(total) + body + rule_line(total)
            } else {
                body
            }
        }
    }
}

/// A structural error of the grid: a row that does not match the column
/// count the first row fixed.
#[derive(Clone, Copy, Debug, PartialEq, Eq, Structural)]
pub enum LayoutError {
    ArityMismatch,
}

/// The tabular text renderer: rows of cells, an optional overall width cap,
/// and a border switch (bordered by default).
pub struct GridLayout {
    rows: Vec<Vec<Cell>>,
    max_width: Option<usize>,
    bordered: bool,
}

impl View for GridLayout {
    type V = GridModel;

    closed spec fn view(&self) -> GridModel {
        GridModel {
            rows: self.rows@.map_values(|r: Vec<Cell>| row_model(r@)),
            max_width: match self.max_width {
                Option::None => None,
                Option::Some(w) => Some(w as nat),
            },
            bordered: self.bordered,
        }
    }
}

impl GridLayout {
    /// An empty, bordered grid without a width cap.
    pub fn new() -> (r: GridLayout)
        ensures
            r@ == (GridModel { rows: Seq::empty(), max_width: None, bordered: true }),
    {
        let r = GridLayout { rows: Vec::new(), max_width: None, bordered: true };
        proof {
            assert(r@ =~~= (GridModel { rows: Seq::empty(), max_width: None, bordered: true }));
        }
        r
    }

    /// The same grid with an overall width cap.
    pub fn with_max_width(self, n: usize) -> (r: GridLayout)
        ensures
            r@ == (GridModel { max_width: Some(n as nat), ..self@ }),
    {
        let r = GridLayout { rows: self.rows, max_width: Some(n), bordered: self.bordered };
        proof {
            assert(r@ =~~= (GridModel { max_width: Some(n as nat), ..self@ }));
        }
        r
    }

    /// The same grid without the frame.
    pub fn without_border(self) -> (r: GridLayout)
        ensures
            r@ == (GridModel { bordered: false, ..self@ }),
    {
        let r = GridLayout { rows: self.rows, max_width: self.max_width, bordered: false };
        proof {
            assert(r@ =~~= (GridModel { bordered: false, ..self@ }));
        }
        r
    }

    /// Appends a row.  The first row fixes the column count; a row of any
    /// other arity is refused and the grid is left as it was.
    pub fn add_row(&mut self, cells: Vec<Cell>) -> (r: Result<(), LayoutError>)
        ensures
            r is Ok <==> (old(self)@.rows.len() == 0 || cells@.len() == old(self)@.ncols()),
            r is Ok ==> final(self)@ == (GridModel {
                rows: old(self)@.rows.push(row_model(cells@)),
                ..old(self)@
            }),
            r is Err ==> final(self)@ == old(self)@ && r == Result::<(), LayoutError>::Err(
                LayoutError::ArityMismatch,
            ),
            old(self)@.consistent_arity() ==> final(self)@.consistent_arity(),
    {
        if self.rows.len() > 0 && cells.len() != self.rows[0].len() {
            return Err(LayoutError::ArityMismatch);
        }
        let ghost old_model = self@;
        self.rows.push(cells);
        proof {
            assert(self@.rows =~~= old_model.rows.push(row_model(cells@)));
            assert(self@ =~~= (GridModel { rows: old_model.rows.push(row_model(cells@)), ..old_model }));
            if old_model.consistent_arity() {
                assert forall|i: int| 0 <= i < self@.rows.len() implies (#[trigger] self@.rows[i]).len()
                    == self@.ncols() by {
                    if i < old_model.rows.len() {
                        assert(old_model.rows[i].len() == old_model.ncols());
                    }
                }
            }
        }
        Ok(())
    }

    /// The natural width of column `j`.
    fn natural_col_width(&self, j: usize) -> (w: usize)
        requires
            self@.consistent_arity(),
            j < self@.ncols(),
        ensures
            w as nat == col_width(self@.rows, j as int),
    {
        let mut w: usize = 0;
        let mut i: usize = 0;
        let n = self.rows.len();
        proof {
            assert(self@.rows.take(0) =~= Seq::<Seq<CellModel>>::empty());
        }
        while i < n
            invariant
                0 <= i <= n,
                n == self@.rows.len(),
                self@.consistent_arity(),
                j < self@.ncols(),
                n == self.rows@.len(),
                self@.rows == self.rows@.map_values(|r: Vec<Cell>| row_model(r@)),
                w as nat == col_width(self@.rows.take(i as int), j as int),
            decreases n - i,
        {
            proof {
                assert(self@.rows[i as int].len() == self@.ncols());
                assert(self@.rows[i as int] == row_model(self.rows@[i as int]@));
            }
            let cw = display_width(self.rows[i][j].text.as_str());
            proof {
                assert(self@.rows.take(i as int + 1).drop_last() =~= self@.rows.take(i as int));
                assert(self@.rows.take(i as int + 1).last() == self@.rows[i as int]);
                assert(self@.rows[i as int][j as int] == self.rows@[i as int]@[j as int]@);
            }
            if cw > w {
                w = cw;
            }
            i = i + 1;
        }
        proof {
            assert(self@.rows.take(n as int) =~= self@.rows);
        }
        w
    }

    /// Renders the grid: the exact text of `render_spec`, built row by row.
    pub fn render(&self) -> (r: String)
        requires
            self@.consistent_arity(),
            sum_widths(natural_widths(self@.rows, self@.ncols())) + frame_overhead(
                self@.bordered,
                self@.ncols(),
            ) <= usize::MAX,
        ensures
            r@ == self@.render_spec(),
    {
        let n = self.rows.len();
        if n == 0 {
            let out = String::new();
            proof {
                assert(out@ =~= self@.render_spec());
            }
            return out;
        }
        let ncols = self.rows[0].len();
        proof {
            assert(self@.rows[0] == row_model(self.rows@[0]@));
            assert(ncols as nat == self@.ncols());
        }
        let ghost nat_ws = natural_widths(self@.rows, self@.ncols());

        // Natural column widths.
        let mut ws: Vec<usize> = Vec::new();
        let mut j: usize = 0;
        while j < ncols
            invariant
                0 <= j <= ncols,
                ncols as nat == self@.ncols(),
                self@.consistent_arity(),
                ws@.len() == j,
                forall|k: int| 0 <= k < j ==> ws@[k] as nat == nat_ws[k],
                nat_ws == natural_widths(self@.rows, self@.ncols()),
            decreases ncols - j,
        {
            let w = self.natural_col_width(j);
            ws.push(w);
            j = j + 1;
        }
        proof {
            assert(usize_widths(ws@) =~= nat_ws);
        }

        // Overhead of the frame.
        let overhead: usize = if self.bordered {
            proof {
                lemma_sum_take_le(nat_ws, 0);
            }
            ncols + 1
        } else {
            0
        };
        proof {
            assert(overhead as nat == frame_overhead(self@.bordered, self@.ncols()));
        }

        // Narrow the last column when the cap demands it.
        if let Some(mw) = self.max_width {
            if ncols > 0 {
            let mut others: usize = 0;
            let mut k: usize = 0;
            proof {
                assert(nat_ws.take(0) =~= Seq::<nat>::empty());
            }
            while k < ncols - 1
                invariant
                    ncols >= 1,
                    0 <= k <= ncols - 1,
                    ws@.len() == ncols,
                    usize_widths(ws@) == nat_ws,
                    sum_widths(nat_ws) + overhead <= usize::MAX,
                    others as nat == sum_widths(nat_ws.take(k as int)),
                    nat_ws.len() == ncols,
                decreases ncols - 1 - k,
            {
                proof {
                    lemma_sum_take_step(nat_ws, k as int);
                    lemma_sum_take_le(nat_ws, k as int + 1);
                }
                others = others + ws[k];
                k = k + 1;
            }
            proof {
                assert(nat_ws.take(ncols - 1 as int) =~= nat_ws.drop_last());
                lemma_sum_take_step(nat_ws, ncols - 1 as int);
                lemma_sum_take_le(nat_ws, ncols as int);
                assert(nat_ws.take(ncols as int) =~= nat_ws);
            }
            let last = ws[ncols - 1];
            if others + last + overhead > mw {
                let last_w: usize = if others + overhead <= mw {
                    mw - others - overhead
                } else {
                    0
                };
                ws.set(ncols - 1, last_w);
            }
            }
        }
        let ghost eff_ws = self@.widths();
        proof {
            assert(usize_widths(ws@) =~= eff_ws);
            lemma_effective_le_natural(nat_ws, self@.max_width, overhead as nat);
        }

        // The body, row by row, cell by cell.
        let mut out = String::new();
        proof {
            reveal_strlit("\u{2502}");
            reveal_strlit("\n");
            assert("\u{2502}"@ =~= seq!['\u{2502}']);
            assert("\n"@ =~= seq!['\n']);
        }

        // The top rule when bordered.
        let mut total_eff: usize = 0;
        if self.bordered {
            let mut k: usize = 0;
            proof {
                assert(eff_ws.take(0) =~= Seq::<nat>::empty());
            }
            while k < ncols
                invariant
                    0 <= k <= ncols,
                    ws@.len() == ncols,
                    usize_widths(ws@) == eff_ws,
                    eff_ws.len() == ncols,
                    sum_widths(eff_ws) + overhead <= usize::MAX,
                    overhead == ncols + 1,
                    total_eff as nat == sum_widths(eff_ws.take(k as int)),
                decreases ncols - k,
            {
                proof {
                    lemma_sum_take_step(eff_ws, k as int);
                    lemma_sum_take_le(eff_ws, k as int + 1);
                }
                total_eff = total_eff + ws[k];
                k = k + 1;
            }
            proof {
                assert(eff_ws.take(ncols as int) =~= eff_ws);
            }
            total_eff = total_eff + overhead;
            let rule = make_rule(total_eff);
            out.append(rule.as_str());
        }
        let ghost header = out@;

        let mut i: usize = 0;
        while i < n
            invariant
                0 <= i <= n,
                n == self@.rows.len(),
                n == self.rows@.len(),
                ncols as nat == self@.ncols(),
                self@.consistent_arity(),
                self@.rows == self.rows@.map_values(|r: Vec<Cell>| row_model(r@)),
                ws@.len() == ncols,
                usize_widths(ws@) == eff_ws,
                eff_ws.len() == ncols,
                out@ == header + lines_prefix(self@.rows, eff_ws, self@.bordered, i as int),
                self@.bordered == self.bordered,
                "\u{2502}"@ =~= seq!['\u{2502}'],
                "\n"@ =~= seq!['\n'],
            decreases n - i,
        {
            let ghost line_start = out@;
            if self.bordered {
                out.append("\u{2502}");
            }
            proof {
                assert(out@ =~= line_start + cells_prefix(
                    self@.rows[i as int],
                    eff_ws,
                    0,
                    self@.bordered,
                ));
            }
            let mut j2: usize = 0;
            while j2 < ncols
                invariant
                    0 <= j2 <= ncols,
                    0 <= i < n,
                    n == self@.rows.len(),
                    n == self.rows@.len(),
                    ncols as nat == self@.ncols(),
                    self@.consistent_arity(),
                    self@.rows == self.rows@.map_values(|r: Vec<Cell>| row_model(r@)),
                    ws@.len() == ncols,
                    usize_widths(ws@) == eff_ws,
                    eff_ws.len() == ncols,
                    out@ == line_start + cells_prefix(
                        self@.rows[i as int],
                        eff_ws,
                        j2 as int,
                        self@.bordered,
                    ),
                    self@.bordered == self.bordered,
                    "\u{2502}"@ =~= seq!['\u{2502}'],
                decreases ncols - j2,
            {
                proof {
                    assert(self@.rows[i as int].len() == self@.ncols());
                    assert(self@.rows[i as int] == row_model(self.rows@[i as int]@));
                    assert(self@.rows[i as int][j2 as int] == self.rows@[i as int]@[j2 as int]@);
                }
                let cell = &self.rows[i][j2];
                let clipped = truncate_to_width(cell.text.as_str(), ws[j2]);
                let padded = pad_text(clipped.as_str(), cell.alignment, ws[j2]);
                out.append(padded.as_str());
                if self.bordered {
                    out.append("\u{2502}");
                }
                proof {
                    assert(padded@ == rendered_cell(self@.rows[i as int][j2 as int], eff_ws[j2 as int]));
                    assert(out@ =~= line_start + cells_prefix(
                        self@.rows[i as int],
                        eff_ws,
                        j2 as int + 1,
                        self@.bordered,
                    ));
                }
                j2 = j2 + 1;
            }
            out.append("\n");
            proof {
                assert(out@ =~= line_start + line_text(self@.rows[i as int], eff_ws, self@.bordered));
                assert(out@ =~= header + lines_prefix(
                    self@.rows,
                    eff_ws,
                    self@.bordered,
                    i as int + 1,
                ));
            }
            i = i + 1;
        }

        // The bottom rule when bordered.
        if self.bordered {
            let rule = make_rule(total_eff);
            out.append(rule.as_str());
        }
        proof {
            assert(out@ =~= self@.render_spec());
        }
        out
    }
}

/// The widths a vector of machine integers stands for.
pub open spec fn usize_widths(ws: Seq<usize>) -> Seq<nat> {
    ws.map_values(|w: usize| w as nat)
}

/// Summing a longer prefix adds the next width.
pub proof fn lemma_sum_take_step(ws: Seq<nat>, k: int)
    requires
        0 <= k < ws.len(),
    ensures
        sum_widths(ws.take(k + 1)) == sum_widths(ws.take(k)) + ws[k],
{
    assert(ws.take(k + 1).drop_last() =~= ws.take(k));
    assert(ws.take(k + 1).last() == ws[k]);
}

/// A prefix never sums to more than the whole.
pub proof fn lemma_sum_take_le(ws: Seq<nat>, k: int)
    requires
        0 <= k <= ws.len(),
    ensures
        sum_widths(ws.take(k)) <= sum_widths(ws),
    decreases ws.len() - k,
{
    if k == ws.len() {
        assert(ws.take(k) =~= ws);
    } else {
        lemma_sum_take_step(ws, k);
        lemma_sum_take_le(ws, k + 1);
    }
}

/// Replacing the last width replaces its contribution to the sum.
pub proof fn lemma_sum_update_last(ws: Seq<nat>, v: nat)
    requires
        ws.len() > 0,
    ensures
        sum_widths(ws.update(ws.len() - 1, v)) == sum_widths(ws.drop_last()) + v,
{
    let u = ws.update(ws.len() - 1, v);
    assert(u.drop_last() =~= ws.drop_last());
    assert(u.last() == v);
}

/// The renderer never widens a grid: the effective widths sum to at most the
/// natural ones.
pub proof fn lemma_effective_le_natural(ws: Seq<nat>, cap: Option<nat>, overhead: nat)
    ensures
        sum_widths(effective_widths(ws, cap, overhead)) <= sum_widths(ws),
        effective_widths(ws, cap, overhead).len() == ws.len(),
{
    match cap {
        Option::None => {},
        Option::Some(mw) => {
            if ws.len() == 0 {
            } else {
                let others = sum_widths(ws.drop_last());
                if others + ws.last() + overhead <= mw {
                } else {
                    let last_w: nat = if others + overhead <= mw {
                        (mw - others - overhead) as nat
                    } else {
                        0
                    };
                    lemma_sum_update_last(ws, last_w);
                }
            }
        },
    }
}

/// In a one-row grid each column is exactly as wide as its one cell.
pub proof fn lemma_single_row_width(row: Seq<CellModel>, j: int)
    requires
        0 <= j < row.len(),
    ensures
        col_width(seq![row], j) == visible_width(row[j].text),
{
    assert(seq![row].drop_last() =~= Seq::<Seq<CellModel>>::empty());
    assert(col_width(Seq::<Seq<CellModel>>::empty(), j) == 0);
    assert(seq![row].last() == row);
}

/// A horizontal rule of `total` dashes, newline-terminated.
pub fn make_rule(total: usize) -> (r: String)
    ensures
        r@ == rule_line(total as nat),
{
    let mut out = String::new();
    let mut i: usize = 0;
    proof {
        reveal_strlit("\u{2500}");
        reveal_strlit("\n");
    }
    while i < total
        invariant
            0 <= i <= total,
            out@ =~= Seq::new(i as nat, |k: int| '\u{2500}'),
            "\u{2500}"@ =~= seq!['\u{2500}'],
        decreases total - i,
    {
        out.append("\u{2500}");
        proof {
            assert(Seq::new(i as nat, |k: int| '\u{2500}') + seq!['\u{2500}'] =~= Seq::new(
                i as nat + 1,
                |k: int| '\u{2500}',
            ));
        }
        i = i + 1;
    }
    out.append("\n");
    proof {
        assert(out@ =~= rule_line(total as nat));
    }
    out
}

/// A cell rendered into a column of width `w` occupies exactly `w` printable
/// columns, whatever its own width was: shorter text is padded up, longer
/// text is truncated down.  Column boundaries therefore line up across rows.
pub proof fn lemma_rendered_cell_width(c: CellModel, w: nat)
    requires
        esc_closed(c.text),
    ensures
        visible_width(rendered_cell(c, w)) == w,
        esc_closed(rendered_cell(c, w)),
{
    let t = clip(c.text, w);
    lemma_clip_width(c.text, false, w);
    lemma_clip_end_state(c.text, false, w);
    let vis = visible_width(t);
    if vis >= w {
    } else {
        let pad = (w - vis) as nat;
        lemma_spaces_visible(pad);
        lemma_spaces_visible((pad / 2) as nat);
        lemma_spaces_visible((pad - pad / 2) as nat);
        match c.align {
            Alignment::Left => {
                lemma_visible_concat(t, spaces(pad));
            },
            Alignment::Right => {
                lemma_visible_concat(spaces(pad), t);
            },
            Alignment::Center => {
                lemma_visible_concat(spaces((pad / 2) as nat), t);
                lemma_visible_concat(spaces((pad / 2) as nat) + t, spaces((pad - pad / 2) as nat));
            },
        }
    }
}

/// A rendered row occupies exactly the sum of its first `j` column widths
/// plus the framing characters: the rendered columns line up, row for row.
pub proof fn lemma_cells_prefix_width(row: Seq<CellModel>, ws: Seq<nat>, j: int, bordered: bool)
    requires
        0 <= j <= row.len(),
        j <= ws.len(),
        forall|k: int| 0 <= k < j ==> esc_closed(#[trigger] row[k].text),
    ensures
        visible_width(cells_prefix(row, ws, j, bordered)) == sum_widths(ws.take(j))
            + frame_overhead(bordered, j as nat),
        esc_closed(cells_prefix(row, ws, j, bordered)),
    decreases j,
{
    let sep = seq!['\u{2502}'];
    assert(crate::text::esc_free(sep));
    lemma_plain_visible(sep);
    if j <= 0 {
        assert(ws.take(0) =~= Seq::<nat>::empty());
        if bordered {
        } else {
            lemma_plain_visible(Seq::<char>::empty());
        }
    } else {
        lemma_cells_prefix_width(row, ws, j - 1, bordered);
        lemma_rendered_cell_width(row[j - 1], ws[j - 1]);
        lemma_sum_take_step(ws, j - 1);
        let prefix = cells_prefix(row, ws, j - 1, bordered);
        let cell = rendered_cell(row[j - 1], ws[j - 1]);
        lemma_visible_concat(prefix, cell);
        if bordered {
            lemma_visible_concat(prefix + cell, sep);
        }
    }
}

/// With a width cap in force, no rendered line is wider than the cap,
/// provided the columns other than the last fit under it by themselves (the
/// renderer narrows only the last column).  The line here is a row's cells
/// with its framing, before the terminating newline.
pub proof fn lemma_capped_line_width(g: GridModel, i: int, mw: nat)
    requires
        g.consistent_arity(),
        0 <= i < g.rows.len(),
        g.max_width == Some(mw),
        g.ncols() > 0,
        forall|k: int| 0 <= k < g.ncols() ==> esc_closed(#[trigger] g.rows[i][k].text),
        sum_widths(natural_widths(g.rows, g.ncols()).drop_last()) + frame_overhead(
            g.bordered,
            g.ncols(),
        ) <= mw,
    ensures
        visible_width(cells_prefix(g.rows[i], g.widths(), g.ncols() as int, g.bordered)) <= mw,
{
    let nat_ws = natural_widths(g.rows, g.ncols());
    let eff = g.widths();
    let overhead = frame_overhead(g.bordered, g.ncols());
    let others = sum_widths(nat_ws.drop_last());
    assert(g.rows[i].len() == g.ncols());
    lemma_cells_prefix_width(g.rows[i], eff, g.ncols() as int, g.bordered);
    if others + nat_ws.last() + overhead <= mw {
        assert(eff == nat_ws);
        assert(eff.take(g.ncols() as int) =~= eff);
        assert(nat_ws.take(g.ncols() as int - 1) =~= nat_ws.drop_last());
        lemma_sum_take_step(nat_ws, g.ncols() as int - 1);
        lemma_sum_take_le(nat_ws, g.ncols() as int);
    } else {
        let last_w: nat = if others + overhead <= mw {
            (mw - others - overhead) as nat
        } else {
            0
        };
        assert(eff == nat_ws.update(nat_ws.len() - 1, last_w));
        lemma_sum_update_last(nat_ws, last_w);
        assert(eff.take(g.ncols() as int) =~= eff);
    }
}

/// `text` padded to `w` printable columns according to `alignment`.
pub fn pad_text(s: &str, alignment: Alignment, w: usize) -> (r: String)
    ensures
        r@ == pad_spec(s@, alignment, w as nat),
{
    let vis = display_width(s);
    if vis >= w {
        return s.to_owned();
    }
    let pad = w - vis;
    match alignment {
        Alignment::Left => {
            let mut out = s.to_owned();
            let sp = make_spaces(pad);
            out.append(sp.as_str());
            out
        },
        Alignment::Right => {
            let mut out = make_spaces(pad);
            out.append(s);
            out
        },
        Alignment::Center => {
            let mut out = make_spaces(pad / 2);
            out.append(s);
            let sp = make_spaces(pad - pad / 2);
            out.append(sp.as_str());
            out
        },
    }
}

} // verus!
