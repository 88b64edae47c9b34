//! Human-readable rendering.
//!
//! A matrix renders as `{r0c0 r0c1 ..., r1c0 r1c1 ..., ...}`: one space
//! between elements of a row, `", "` between rows, no trailing separator.
//! Numbers render in decimal. Every step is specified down to the character
//! sequence produced.

use vstd::prelude::*;

use crate::matrix::Matrix;
use vstd::string::StringExecFns;

verus! {

/// The decimal digit character for `d` in `[0, 10)`.
pub open spec fn digit_char(d: nat) -> char {
    if d == 0 {
        '0'
    } else if d == 1 {
        '1'
    } else if d == 2 {
        '2'
    } else if d == 3 {
        '3'
    } else if d == 4 {
        '4'
    } else if d == 5 {
        '5'
    } else if d == 6 {
        '6'
    } else if d == 7 {
        '7'
    } else if d == 8 {
        '8'
    } else {
        '9'
    }
}

/// The decimal digits of `n`, most significant first, no leading zeros
/// (a single `'0'` for zero).
pub open spec fn dec_nat(n: nat) -> Seq<char>
    decreases n,
{
    if n < 10 {
        seq![digit_char(n)]
    } else {
        dec_nat(n / 10).push(digit_char(n % 10))
    }
}

/// The decimal rendering of `v`: a leading `'-'` for negative values,
/// then the digits of the magnitude.
pub open spec fn dec_i64(v: i64) -> Seq<char> {
    if v < 0 {
        seq!['-'] + dec_nat((-(v as int)) as nat)
    } else {
        dec_nat(v as nat)
    }
}

/// The elements of one row, space-separated.
pub open spec fn render_cells(row: Seq<i64>) -> Seq<char>
    decreases row.len(),
{
    if row.len() == 0 {
        Seq::empty()
    } else if row.len() == 1 {
        dec_i64(row[0])
    } else {
        render_cells(row.drop_last()) + seq![' '] + dec_i64(row.last())
    }
}

/// The rows, rendered and joined by `", "`.
pub open spec fn render_rows(rows: Seq<Seq<i64>>) -> Seq<char>
    decreases rows.len(),
{
    if rows.len() == 0 {
        Seq::empty()
    } else if rows.len() == 1 {
        render_cells(rows[0])
    } else {
        render_rows(rows.drop_last()) + seq![',', ' '] + render_cells(rows.last())
    }
}

/// A matrix as the sequence of its rows.
pub open spec fn rows_of(m: Matrix) -> Seq<Seq<i64>> {
    Seq::new(m.rows as nat, |i: int| m.row_spec(i))
}

/// The full rendering of a matrix: the joined rows between braces.
pub open spec fn render_spec(m: Matrix) -> Seq<char> {
    seq!['{'] + render_rows(rows_of(m)) + seq!['}']
}

/// The one-character string for the digit `d`.
fn digit_str(d: u64) -> (r: &'static str)
    requires
        d < 10,
    ensures
        r@ == seq![digit_char(d as nat)],
{
    if d == 0 {
        proof {
            reveal_strlit("0");
            assert("0"@ =~= seq![digit_char(0)]);
        }
        "0"
    } else if d == 1 {
        proof {
            reveal_strlit("1");
            assert("1"@ =~= seq![digit_char(1)]);
        }
        "1"
    } else if d == 2 {
        proof {
            reveal_strlit("2");
            assert("2"@ =~= seq![digit_char(2)]);
        }
        "2"
    } else if d == 3 {
        proof {
            reveal_strlit("3");
            assert("3"@ =~= seq![digit_char(3)]);
        }
        "3"
    } else if d == 4 {
        proof {
            reveal_strlit("4");
            assert("4"@ =~= seq![digit_char(4)]);
        }
        "4"
    } else if d == 5 {
        proof {
            reveal_strlit("5");
            assert("5"@ =~= seq![digit_char(5)]);
        }
        "5"
    } else if d == 6 {
        proof {
            reveal_strlit("6");
            assert("6"@ =~= seq![digit_char(6)]);
        }
        "6"
    } else if d == 7 {
        proof {
            reveal_strlit("7");
            assert("7"@ =~= seq![digit_char(7)]);
        }
        "7"
    } else if d == 8 {
        proof {
            reveal_strlit("8");
            assert("8"@ =~= seq![digit_char(8)]);
        }
        "8"
    } else {
        proof {
            reveal_strlit("9");
            assert("9"@ =~= seq![digit_char(9)]);
        }
        "9"
    }
}

/// Appends the decimal digits of `n` to `s`.
pub(crate) fn push_dec_u64(s: &mut String, n: u64)
    ensures
        final(s)@ == old(s)@ + dec_nat(n as nat),
    decreases n,
{
    if n < 10 {
        s.append(digit_str(n));
    } else {
        proof {
            assert(n / 10 < n) by (nonlinear_arith)
                requires
                    n >= 10,
            ;
        }
        push_dec_u64(s, n / 10);
        s.append(digit_str(n % 10));
        proof {
            assert(s@ =~= old(s)@ + dec_nat(n as nat));
        }
    }
}

/// Appends the decimal rendering of `v` to `s`.
pub(crate) fn push_dec_i64(s: &mut String, v: i64)
    ensures
        final(s)@ == old(s)@ + dec_i64(v),
{
    if v < 0 {
        proof {
            reveal_strlit("-");
            assert("-"@ =~= seq!['-']);
        }
        s.append("-");
        let mag: u64 = if v == i64::MIN {
            9223372036854775808u64
        } else {
            (-v) as u64
        };
        push_dec_u64(s, mag);
        proof {
            assert(s@ =~= old(s)@ + dec_i64(v));
        }
    } else {
        push_dec_u64(s, v as u64);
    }
}

impl Matrix {
    /// Renders the matrix in its `{...}` textual form.
    pub fn render(&self) -> (r: String)
        requires
            self.wf(),
        ensures
            r@ == render_spec(*self),
    {
        let mut s = String::new();
        proof {
            reveal_strlit("{");
            reveal_strlit("}");
            reveal_strlit(", ");
            reveal_strlit(" ");
            assert("{"@ =~= seq!['{']);
            assert("}"@ =~= seq!['}']);
            assert(", "@ =~= seq![',', ' ']);
            assert(" "@ =~= seq![' ']);
        }
        s.append("{");
        let buffer_len: usize = self.data.len();
        let mut i: usize = 0;
        while i < self.rows
            invariant
                self.wf(),
                buffer_len == self.data@.len(),
                i <= self.rows,
                s@ == seq!['{'] + render_rows(rows_of(*self).take(i as int)),
                "{"@ == seq!['{'],
                "}"@ == seq!['}'],
                ", "@ == seq![',', ' '],
                " "@ == seq![' '],
            decreases self.rows - i,
        {
            if i != 0 {
                s.append(", ");
            }
            let ghost sep: Seq<char> = if i == 0 {
                Seq::<char>::empty()
            } else {
                seq![',', ' ']
            };
            let ghost row: Seq<i64> = self.row_spec(i as int);
            let ghost before_row: Seq<char> = seq!['{'] + render_rows(
                rows_of(*self).take(i as int),
            ) + sep;
            proof {
                assert(s@ =~= before_row);
            }
            let mut j: usize = 0;
            while j < self.cols
                invariant
                    self.wf(),
                    buffer_len == self.data@.len(),
                    i < self.rows,
                    j <= self.cols,
                    row == self.row_spec(i as int),
                    s@ == before_row + render_cells(row.take(j as int)),
                    " "@ == seq![' '],
                decreases self.cols - j,
            {
                if j != 0 {
                    s.append(" ");
                }
                proof {
                    lemma_cell_index_bound(*self, i as int, j as int);
                }
                push_dec_i64(&mut s, self.data[i * self.cols + j]);
                proof {
                    assert(row.take(j + 1).drop_last() =~= row.take(j as int));
                    assert(row.take(j + 1).last() == row[j as int]);
                    assert(s@ =~= before_row + render_cells(row.take(j + 1)));
                }
                j = j + 1;
            }
            proof {
                assert(row.take(self.cols as int) =~= row);
                assert(rows_of(*self).take(i + 1).drop_last() =~= rows_of(*self).take(i as int));
                assert(rows_of(*self).take(i + 1).last() == row);
                assert(s@ =~= seq!['{'] + render_rows(rows_of(*self).take(i + 1)));
            }
            i = i + 1;
        }
        s.append("}");
        proof {
            assert(rows_of(*self).take(self.rows as int) =~= rows_of(*self));
            assert(s@ =~= render_spec(*self));
        }
        s
    }
}

/// The flat index of a cell in range lies strictly inside the buffer.
proof fn lemma_cell_index_bound(m: Matrix, i: int, j: int)
    requires
        m.wf(),
        0 <= i < m.rows,
        0 <= j < m.cols,
    ensures
        0 <= i * m.cols + j < m.data@.len(),
{
    assert(i * m.cols + j < m.rows * m.cols) by (nonlinear_arith)
        requires
            0 <= i < m.rows,
            0 <= j < m.cols,
    ;
}

} // verus!
