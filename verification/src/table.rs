//! Terminal table layout.
//!
//! Cell text is buffered per cell while a table is traversed; at the
//! table's end the accumulated rows are rendered together as a
//! left-indented grid. Every column is as wide as its widest cell,
//! measured in Unicode scalar count, never in bytes; `│` separates
//! columns and a `─`/`┼` rule underlines the header row.

use crate::text::repeat_seq;
use vstd::prelude::*;

verus! {

/// The display width of column `c`: the largest character count of any of
/// its cells, `0` where no row reaches the column.
pub open spec fn col_width(rows: Seq<Seq<Seq<char>>>, c: int) -> int
    decreases rows.len(),
{
    if rows.len() == 0 {
        0
    } else {
        let mine: int = if 0 <= c < rows[0].len() {
            rows[0][c].len() as int
        } else {
            0
        };
        let rest = col_width(rows.drop_first(), c);
        if mine >= rest {
            mine
        } else {
            rest
        }
    }
}

/// How many columns the grid has: the length of its longest row.
pub open spec fn num_cols(rows: Seq<Seq<Seq<char>>>) -> int
    decreases rows.len(),
{
    if rows.len() == 0 {
        0
    } else {
        let rest = num_cols(rows.drop_first());
        if rows[0].len() >= rest {
            rows[0].len() as int
        } else {
            rest
        }
    }
}

/// `text` right-padded with spaces to `width` characters; text at least as
/// wide stays as it is.
pub open spec fn pad_sp(text: Seq<char>, width: int) -> Seq<char> {
    if text.len() >= width {
        text
    } else {
        text + repeat_seq(" "@, (width - text.len()) as nat)
    }
}

/// One grid row from cell `i` on: each cell padded to its column's width,
/// ` │ ` before every cell but the first.
pub open spec fn row_cells_text(row: Seq<Seq<char>>, rows: Seq<Seq<Seq<char>>>, i: int) -> Seq<
    char,
>
    decreases row.len() - i,
{
    if i < 0 || i >= row.len() {
        Seq::empty()
    } else {
        (if i > 0 {
            " │ "@
        } else {
            Seq::empty()
        }) + pad_sp(row[i], col_width(rows, i)) + row_cells_text(row, rows, i + 1)
    }
}

/// The rule under the header from column `i` on: a run of `─` as wide as
/// the column, `┼` joints between columns, the joint padding of ` │ `
/// covered by two extra `─`.
pub open spec fn rule_cols_text(rows: Seq<Seq<Seq<char>>>, i: int, ncols: int) -> Seq<char>
    decreases ncols - i,
{
    if i < 0 || i >= ncols {
        Seq::empty()
    } else {
        (if i > 0 {
            "┼"@ + repeat_seq("─"@, (col_width(rows, i) + 2) as nat)
        } else {
            repeat_seq("─"@, col_width(rows, i) as nat)
        }) + rule_cols_text(rows, i + 1, ncols)
    }
}

/// The grid lines of the body rows from row `i` on, each indented one
/// space and ended by a newline.
pub open spec fn body_rows_text(rows: Seq<Seq<Seq<char>>>, i: int) -> Seq<char>
    decreases rows.len() - i,
{
    if i < 0 || i >= rows.len() {
        Seq::empty()
    } else {
        " "@ + row_cells_text(rows[i], rows, 0) + "\n"@ + body_rows_text(rows, i + 1)
    }
}

/// The whole rendered grid: the first row, the rule line, then the rest;
/// nothing at all for an empty grid.
pub open spec fn table_text(rows: Seq<Seq<Seq<char>>>) -> Seq<char> {
    if rows.len() == 0 {
        Seq::empty()
    } else {
        " "@ + row_cells_text(rows[0], rows, 0) + "\n"@ + " "@ + rule_cols_text(
            rows,
            0,
            num_cols(rows),
        ) + "\n"@ + body_rows_text(rows, 1)
    }
}

proof fn lemma_col_width_take(rows: Seq<Seq<Seq<char>>>, k: int, c: int)
    requires
        0 <= k < rows.len(),
    ensures
        col_width(rows.take(k + 1), c) == ({
            let mine: int = if 0 <= c < rows[k].len() {
                rows[k][c].len() as int
            } else {
                0
            };
            if mine >= col_width(rows.take(k), c) {
                mine
            } else {
                col_width(rows.take(k), c)
            }
        }),
    decreases k,
{
    if k == 0 {
        assert(rows.take(1).drop_first() =~= Seq::<Seq<Seq<char>>>::empty());
        assert(rows.take(1)[0] == rows[0]);
        assert(col_width(rows.take(0), c) == 0);
        assert(col_width(rows.take(1).drop_first(), c) == 0);
    } else {
        let t = rows.drop_first();
        lemma_col_width_take(t, k - 1, c);
        assert(rows.take(k + 1).drop_first() =~= t.take(k));
        assert(rows.take(k).drop_first() =~= t.take(k - 1));
        assert(rows.take(k + 1)[0] == rows[0]);
        assert(rows.take(k)[0] == rows[0]);
        assert(t[k - 1] == rows[k]);
        let m0: int = if 0 <= c < rows[0].len() {
            rows[0][c].len() as int
        } else {
            0
        };
        assert(col_width(rows.take(k + 1), c) == if m0 >= col_width(t.take(k), c) {
            m0
        } else {
            col_width(t.take(k), c)
        });
        assert(col_width(rows.take(k), c) == if m0 >= col_width(t.take(k - 1), c) {
            m0
        } else {
            col_width(t.take(k - 1), c)
        });
    }
}

proof fn lemma_col_width_beyond(rows: Seq<Seq<Seq<char>>>, c: int)
    requires
        c >= num_cols(rows),
    ensures
        col_width(rows, c) == 0,
    decreases rows.len(),
{
    if rows.len() > 0 {
        lemma_col_width_beyond(rows.drop_first(), c);
    }
}

proof fn lemma_num_cols_take(rows: Seq<Seq<Seq<char>>>, k: int)
    requires
        0 <= k < rows.len(),
    ensures
        num_cols(rows.take(k + 1)) == if rows[k].len() as int >= num_cols(rows.take(k)) {
            rows[k].len() as int
        } else {
            num_cols(rows.take(k))
        },
    decreases k,
{
    if k == 0 {
        assert(rows.take(1).drop_first() =~= Seq::<Seq<Seq<char>>>::empty());
        assert(rows.take(1)[0] == rows[0]);
        assert(num_cols(rows.take(0)) == 0);
        assert(num_cols(rows.take(1).drop_first()) == 0);
    } else {
        let t = rows.drop_first();
        lemma_num_cols_take(t, k - 1);
        assert(rows.take(k + 1).drop_first() =~= t.take(k));
        assert(rows.take(k).drop_first() =~= t.take(k - 1));
        assert(rows.take(k + 1)[0] == rows[0]);
        assert(rows.take(k)[0] == rows[0]);
        assert(t[k - 1] == rows[k]);
        assert(num_cols(rows.take(k + 1)) == if rows[0].len() as int >= num_cols(t.take(k)) {
            rows[0].len() as int
        } else {
            num_cols(t.take(k))
        });
        assert(num_cols(rows.take(k)) == if rows[0].len() as int >= num_cols(t.take(k - 1)) {
            rows[0].len() as int
        } else {
            num_cols(t.take(k - 1))
        });
    }
}

/// Law (column widths): every column of the rendered grid is exactly as
/// wide as its widest cell, in characters; the grid has as many columns as
/// the longest row.
pub proof fn lemma_col_width_is_max(rows: Seq<Seq<Seq<char>>>, c: int)
    ensures
        forall|r: int, cl: int|
            0 <= r < rows.len() && 0 <= cl < rows[r].len() && cl == c ==> (#[trigger] rows[r][cl]).len()
                <= col_width(rows, c),
        rows.len() > 0 ==> exists|r: int|
            0 <= r < rows.len() && col_width(rows, c) == (if 0 <= c < rows[r].len() {
                (#[trigger] rows[r][c]).len() as int
            } else {
                0
            }),
    decreases rows.len(),
{
    if rows.len() > 0 {
        lemma_col_width_is_max(rows.drop_first(), c);
        let t = rows.drop_first();
        assert forall|r: int, cl: int|
            0 <= r < rows.len() && 0 <= cl < rows[r].len() && cl == c implies (
        #[trigger] rows[r][cl]).len() <= col_width(rows, c) by {
            if r > 0 {
                assert(t[r - 1] == rows[r]);
            }
        }
        if rows.len() > 1 {
            let mine: int = if 0 <= c < rows[0].len() {
                rows[0][c].len() as int
            } else {
                0
            };
            if mine >= col_width(t, c) {
                assert(col_width(rows, c) == if 0 <= c < rows[0].len() {
                    rows[0][c].len() as int
                } else {
                    0
                });
            } else {
                let r0 = choose|r: int|
                    0 <= r < t.len() && col_width(t, c) == (if 0 <= c < t[r].len() {
                        (#[trigger] t[r][c]).len() as int
                    } else {
                        0
                    });
                assert(t[r0] == rows[r0 + 1]);
            }
        }
    }
}

/// No row is longer than the grid is wide.
proof fn lemma_row_len_le_num_cols(rows: Seq<Seq<Seq<char>>>, r: int)
    requires
        0 <= r < rows.len(),
    ensures
        rows[r].len() <= num_cols(rows),
    decreases r,
{
    if r > 0 {
        lemma_row_len_le_num_cols(rows.drop_first(), r - 1);
    }
}

/// Repetition splits over addition.
proof fn lemma_repeat_add(p: Seq<char>, a: nat, b: nat)
    ensures
        repeat_seq(p, a + b) == repeat_seq(p, a) + repeat_seq(p, b),
    decreases b,
{
    if b == 0 {
        assert(repeat_seq(p, a) + repeat_seq(p, 0) =~= repeat_seq(p, a));
    } else {
        lemma_repeat_add(p, a, (b - 1) as nat);
        assert(repeat_seq(p, a) + (repeat_seq(p, (b - 1) as nat) + p) =~= (repeat_seq(p, a)
            + repeat_seq(p, (b - 1) as nat)) + p);
    }
}

/// `text` right-padded with spaces to `width` characters; used for every
/// cell of a terminal table grid.
pub fn pad(text: &str, width: usize) -> (r: String)
    ensures
        r@ == pad_sp(text@, width as int),
{
    let len = text.unicode_len();
    let mut r = String::from_str(text);
    if len >= width {
        proof {
            assert(r@ =~= pad_sp(text@, width as int));
        }
    } else {
        crate::text::push_repeat(&mut r, " ", width - len);
    }
    r
}

/// The column widths of a grid: one entry per column, each the width of
/// the column's widest cell.
pub fn column_widths(rows: &Vec<Vec<String>>) -> (widths: Vec<usize>)
    ensures
        widths@.len() == num_cols(rows.deep_view()),
        forall|c: int|
            0 <= c < widths@.len() ==> widths@[c] as int == col_width(rows.deep_view(), c),
{
    let ghost rv = rows.deep_view();
    let mut widths: Vec<usize> = Vec::new();
    let nrows = rows.len();
    let mut k: usize = 0;
    while k < nrows
        invariant
            k <= nrows,
            nrows == rv.len(),
            rv == rows.deep_view(),
            widths@.len() == num_cols(rv.take(k as int)),
            forall|c: int|
                0 <= c < widths@.len() ==> widths@[c] as int == col_width(rv.take(k as int), c),
        decreases nrows - k,
    {
        let row = &rows[k];
        let ncells = row.len();
        proof {
            assert(rv[k as int] =~= row.deep_view());
            assert(rv[k as int].len() == ncells);
            lemma_num_cols_take(rv, k as int);
        }
        let mut c: usize = 0;
        while c < ncells
            invariant
                c <= ncells,
                ncells == row@.len(),
                rv == rows.deep_view(),
                k < rv.len(),
                rv[k as int] == row.deep_view(),
                ncells == rv[k as int].len(),
                widths@.len() == if c as int >= num_cols(rv.take(k as int)) {
                    c as int
                } else {
                    num_cols(rv.take(k as int))
                },
                forall|j: int|
                    0 <= j < widths@.len() ==> widths@[j] as int == (if j < c {
                        let mine = rv[k as int][j].len() as int;
                        if mine >= col_width(rv.take(k as int), j) {
                            mine
                        } else {
                            col_width(rv.take(k as int), j)
                        }
                    } else {
                        col_width(rv.take(k as int), j)
                    }),
            decreases ncells - c,
        {
            let cell_len = row[c].as_str().unicode_len();
            proof {
                assert(row.deep_view()[c as int] == row@[c as int]@);
                if c as int >= num_cols(rv.take(k as int)) {
                    lemma_col_width_beyond(rv.take(k as int), c as int);
                }
            }
            if c >= widths.len() {
                widths.push(0);
            }
            if cell_len > widths[c] {
                widths.set(c, cell_len);
            }
            c += 1;
        }
        proof {
            lemma_col_width_take(rv, k as int, 0);
            assert forall|j: int| 0 <= j < widths@.len() implies widths@[j] as int == col_width(
                rv.take(k as int + 1),
                j,
            ) by {
                lemma_col_width_take(rv, k as int, j);
            }
            assert(widths@.len() == num_cols(rv.take(k as int + 1)));
        }
        k += 1;
    }
    proof {
        assert(rv.take(nrows as int) =~= rv);
    }
    widths
}

/// Appends one grid row: padded cells with ` │ ` separators.
fn push_row_cells(
    out: &mut String,
    row: &Vec<String>,
    widths: &Vec<usize>,
    Ghost(rv): Ghost<Seq<Seq<Seq<char>>>>,
)
    requires
        widths@.len() == num_cols(rv),
        forall|c: int| 0 <= c < widths@.len() ==> widths@[c] as int == col_width(rv, c),
        row.deep_view().len() <= widths@.len(),
    ensures
        final(out)@ == old(out)@ + row_cells_text(row.deep_view(), rv, 0),
{
    let ghost rdv = row.deep_view();
    let ncells = row.len();
    let mut i: usize = 0;
    while i < ncells
        invariant
            i <= ncells,
            ncells == row@.len(),
            rdv == row.deep_view(),
            rdv.len() == ncells,
            widths@.len() == num_cols(rv),
            forall|c: int| 0 <= c < widths@.len() ==> widths@[c] as int == col_width(rv, c),
            rdv.len() <= widths@.len(),
            out@ + row_cells_text(rdv, rv, i as int) == old(out)@ + row_cells_text(rdv, rv, 0),
        decreases ncells - i,
    {
        let ghost pre = out@;
        if i > 0 {
            out.append(" │ ");
        }
        let padded = pad(row[i].as_str(), widths[i]);
        out.append(padded.as_str());
        proof {
            assert(rdv[i as int] == row@[i as int]@);
            assert(out@ + row_cells_text(rdv, rv, i as int + 1) =~= pre + row_cells_text(
                rdv,
                rv,
                i as int,
            ));
        }
        i += 1;
    }
    proof {
        assert(row_cells_text(rdv, rv, ncells as int) =~= Seq::<char>::empty());
        assert(final(out)@ =~= final(out)@ + row_cells_text(rdv, rv, ncells as int));
    }
}

/// Appends the rule line under the header row.
fn push_rule_line(out: &mut String, widths: &Vec<usize>, Ghost(rv): Ghost<Seq<Seq<Seq<char>>>>)
    requires
        widths@.len() == num_cols(rv),
        forall|c: int| 0 <= c < widths@.len() ==> widths@[c] as int == col_width(rv, c),
    ensures
        final(out)@ == old(out)@ + rule_cols_text(rv, 0, num_cols(rv)),
{
    let ncols = widths.len();
    let mut i: usize = 0;
    while i < ncols
        invariant
            i <= ncols,
            ncols == widths@.len(),
            widths@.len() == num_cols(rv),
            forall|c: int| 0 <= c < widths@.len() ==> widths@[c] as int == col_width(rv, c),
            out@ + rule_cols_text(rv, i as int, ncols as int) == old(out)@ + rule_cols_text(
                rv,
                0,
                ncols as int,
            ),
        decreases ncols - i,
    {
        let ghost pre = out@;
        if i > 0 {
            out.append("┼");
            crate::text::push_repeat(out, "─", 2);
            crate::text::push_repeat(out, "─", widths[i]);
            proof {
                lemma_repeat_add("─"@, 2, widths@[i as int] as nat);
                assert(repeat_seq("─"@, (col_width(rv, i as int) + 2) as nat) == repeat_seq(
                    "─"@,
                    2,
                ) + repeat_seq("─"@, widths@[i as int] as nat));
            }
        } else {
            crate::text::push_repeat(out, "─", widths[i]);
        }
        proof {
            assert(out@ + rule_cols_text(rv, i as int + 1, ncols as int) =~= pre + rule_cols_text(
                rv,
                i as int,
                ncols as int,
            ));
        }
        i += 1;
    }
    proof {
        assert(rule_cols_text(rv, ncols as int, ncols as int) =~= Seq::<char>::empty());
        assert(final(out)@ =~= final(out)@ + rule_cols_text(rv, ncols as int, ncols as int));
    }
}

/// Appends the whole rendered grid for the accumulated rows: the first row
/// as header, the rule line, then the body rows, every column padded to
/// its width. Nothing is appended for an empty grid.
pub fn render_grid(out: &mut String, rows: &Vec<Vec<String>>)
    ensures
        final(out)@ == old(out)@ + table_text(rows.deep_view()),
{
    let ghost rv = rows.deep_view();
    let nrows = rows.len();
    if nrows == 0 {
        proof {
            assert(final(out)@ =~= old(out)@ + table_text(rv));
        }
        return ;
    }
    let widths = column_widths(rows);
    out.append(" ");
    proof {
        assert(rv[0] == rows@[0].deep_view());
        lemma_row_len_le_num_cols(rv, 0);
    }
    push_row_cells(out, &rows[0], &widths, Ghost(rv));
    out.append("\n");
    out.append(" ");
    push_rule_line(out, &widths, Ghost(rv));
    out.append("\n");
    let ghost body_base = out@;
    let mut r: usize = 1;
    while r < nrows
        invariant
            1 <= r <= nrows,
            nrows == rows@.len(),
            rv == rows.deep_view(),
            widths@.len() == num_cols(rv),
            forall|c: int| 0 <= c < widths@.len() ==> widths@[c] as int == col_width(rv, c),
            out@ + body_rows_text(rv, r as int) == body_base + body_rows_text(rv, 1),
        decreases nrows - r,
    {
        let ghost pre = out@;
        out.append(" ");
        proof {
            assert(rv[r as int] == rows@[r as int].deep_view());
            lemma_row_len_le_num_cols(rv, r as int);
        }
        push_row_cells(out, &rows[r], &widths, Ghost(rv));
        out.append("\n");
        proof {
            assert(out@ + body_rows_text(rv, r as int + 1) =~= pre + body_rows_text(
                rv,
                r as int,
            ));
        }
        r += 1;
    }
    proof {
        assert(body_rows_text(rv, nrows as int) =~= Seq::<char>::empty());
        assert(out@ =~= out@ + body_rows_text(rv, nrows as int));
        assert(final(out)@ =~= old(out)@ + table_text(rv));
    }
}

} // verus!
