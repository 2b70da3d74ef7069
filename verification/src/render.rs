//! A box-drawn textual rendering of a matrix: every element right-justified
//! to the width of the widest one, rows framed by box-drawing borders.

use vstd::prelude::*;

use crate::element::MatrixElement;
use crate::matrix::{lemma_flat_index, Matrix};

verus! {

/// A run of `n` spaces.
pub open spec fn spaces(n: nat) -> Seq<char> {
    Seq::new(n, |i: int| ' ')
}

/// The width of the widest element rendering among `s`, zero when `s` is
/// empty.
pub open spec fn max_width<T: MatrixElement>(s: Seq<T>) -> nat
    decreases s.len(),
{
    if s.len() == 0 {
        0
    } else {
        let rest = max_width(s.drop_last());
        let last = T::text_spec(s.last()).len();
        if last > rest {
            last
        } else {
            rest
        }
    }
}

/// One cell: the element's text right-justified to width `w`, followed by
/// one trailing space.
pub open spec fn cell_text<T: MatrixElement>(e: T, w: nat) -> Seq<char> {
    spaces((w - T::text_spec(e).len()) as nat) + T::text_spec(e) + seq![' ']
}

/// The first `k` cells of row `r`, concatenated.
pub open spec fn row_cells<T: MatrixElement>(m: Matrix<T>, w: nat, r: int, k: int) -> Seq<char>
    decreases k,
{
    if k <= 0 {
        Seq::empty()
    } else {
        row_cells(m, w, r, k - 1) + cell_text(m.at(r, k - 1), w)
    }
}

/// One data line: a left edge, the row's cells, a right edge.
pub open spec fn row_line<T: MatrixElement>(m: Matrix<T>, w: nat, r: int) -> Seq<char> {
    seq!['│', ' '] + row_cells(m, w, r, m.columns as int) + seq!['│']
}

/// The first `i` data lines, each followed by a newline.
pub open spec fn rows_block<T: MatrixElement>(m: Matrix<T>, w: nat, i: int) -> Seq<char>
    decreases i,
{
    if i <= 0 {
        Seq::empty()
    } else {
        rows_block(m, w, i - 1) + row_line(m, w, i - 1) + seq!['\n']
    }
}

/// A border line: a corner, the interior run of spaces, a corner.
pub open spec fn border_line(left: char, w: nat, columns: nat, right: char) -> Seq<char> {
    seq![left] + spaces((w + 1) * columns) + seq![right]
}

/// The full rendering: a top border, one framed line per row, a bottom
/// border, joined by newlines with no trailing newline.
pub open spec fn render_text<T: MatrixElement>(m: Matrix<T>) -> Seq<char> {
    let w = max_width::<T>(m.contents@);
    border_line('┌', w, m.columns as nat, '┐') + seq!['\n'] + rows_block(m, w, m.rows as int)
        + border_line('└', w, m.columns as nat, '┘')
}

/// Every element's rendering is no wider than the maximum.
proof fn lemma_max_width_bound<T: MatrixElement>(s: Seq<T>, i: int)
    requires
        0 <= i < s.len(),
    ensures
        T::text_spec(s[i]).len() <= max_width::<T>(s),
    decreases s.len(),
{
    if i < s.len() - 1 {
        lemma_max_width_bound(s.drop_last(), i);
        assert(s.drop_last()[i] == s[i]);
    }
}

/// Concatenating runs of spaces yields a run of the summed length.
proof fn lemma_spaces_add(a: nat, b: nat)
    ensures
        spaces(a) + spaces(b) == spaces(a + b),
{
    assert(spaces(a) + spaces(b) =~= spaces(a + b));
}

fn push_spaces(out: &mut String, n: usize)
    ensures
        final(out)@ == old(out)@ + spaces(n as nat),
{
    proof {
        reveal_strlit(" ");
    }
    assert(" "@ =~= seq![' ']);
    let mut i: usize = 0;
    while i < n
        invariant
            i <= n,
            " "@ == seq![' '],
            out@ == old(out)@ + spaces(i as nat),
        decreases n - i,
    {
        out.append(" ");
        proof {
            lemma_spaces_add(i as nat, 1);
            assert(spaces(1) =~= seq![' ']);
        }
        i += 1;
    }
}

fn push_border_interior(out: &mut String, w: usize, columns: usize)
    ensures
        final(out)@ == old(out)@ + spaces(((w as nat) + 1) * (columns as nat)),
{
    proof {
        reveal_strlit(" ");
    }
    assert(" "@ =~= seq![' ']);
    let mut c: usize = 0;
    while c < columns
        invariant
            c <= columns,
            " "@ == seq![' '],
            out@ == old(out)@ + spaces((((w as int) + 1) * (c as int)) as nat),
        decreases columns - c,
    {
        push_spaces(out, w);
        out.append(" ");
        proof {
            let wi = (w as int) + 1;
            let ci = c as int;
            assert(wi * ci >= 0) by (nonlinear_arith)
                requires
                    wi >= 0,
                    ci >= 0,
            ;
            lemma_spaces_add((wi * ci) as nat, w as nat);
            lemma_spaces_add((wi * ci + w) as nat, 1);
            assert(spaces(1) =~= seq![' ']);
            assert(wi * ci + w + 1 == wi * (ci + 1)) by (nonlinear_arith)
                requires
                    wi == (w as int) + 1,
            ;
        }
        c += 1;
    }
    proof {
        assert((((w as int) + 1) * (columns as int)) as nat == ((w as nat) + 1) * (
        columns as nat));
    }
}

impl<T: MatrixElement> Matrix<T> {
    fn content_width(&self) -> (w: usize)
        ensures
            w as nat == max_width::<T>(self.contents@),
    {
        let n = self.contents.len();
        let mut w: usize = 0;
        let mut i: usize = 0;
        while i < n
            invariant
                i <= n,
                n == self.contents@.len(),
                w as nat == max_width::<T>(self.contents@.take(i as int)),
            decreases n - i,
        {
            let t = T::text(self.contents[i]);
            let l = t.as_str().unicode_len();
            proof {
                let s = self.contents@;
                assert(s.take(i + 1).drop_last() =~= s.take(i as int));
                assert(s.take(i + 1).last() == s[i as int]);
            }
            if l > w {
                w = l;
            }
            i += 1;
        }
        proof {
            assert(self.contents@.take(n as int) =~= self.contents@);
        }
        w
    }

    /// Renders the matrix as aligned, box-framed text. A matrix with zero
    /// rows or columns still yields well-formed border lines.
    pub fn render(&self) -> (r: String)
        requires
            self.wf(),
        ensures
            r@ == render_text(*self),
    {
        let w = self.content_width();
        let ghost wn = w as nat;
        let mut out = String::new();
        proof {
            reveal_strlit("┌");
            reveal_strlit("┐");
            reveal_strlit("\n");
            reveal_strlit("│ ");
            reveal_strlit("│");
            reveal_strlit(" ");
            reveal_strlit("└");
            reveal_strlit("┘");
        }
        out.append("┌");
        push_border_interior(&mut out, w, self.columns);
        out.append("┐");
        out.append("\n");
        assert(out@ =~= border_line('┌', wn, self.columns as nat, '┐') + seq!['\n']);
        let ghost top = out@;
        let mut r: usize = 0;
        while r < self.rows
            invariant
                r <= self.rows,
                self.wf(),
                wn == w as nat,
                wn == max_width::<T>(self.contents@),
                top == border_line('┌', wn, self.columns as nat, '┐') + seq!['\n'],
                out@ == top + rows_block(*self, wn, r as int),
            decreases self.rows - r,
        {
            proof {
                reveal_strlit("│ ");
                reveal_strlit("│");
                reveal_strlit(" ");
                reveal_strlit("\n");
            }
            out.append("│ ");
            let ghost row_start = out@;
            assert(row_start =~= top + rows_block(*self, wn, r as int) + seq!['│', ' ']);
            let mut c: usize = 0;
            while c < self.columns
                invariant
                    c <= self.columns,
                    r < self.rows,
                    self.wf(),
                    wn == w as nat,
                    wn == max_width::<T>(self.contents@),
                    row_start == top + rows_block(*self, wn, r as int) + seq!['│', ' '],
                    out@ == row_start + row_cells(*self, wn, r as int, c as int),
                decreases self.columns - c,
            {
                proof {
                    reveal_strlit(" ");
                }
                let e = self.entry(r, c);
                let t = T::text(e);
                let l = t.as_str().unicode_len();
                proof {
                    lemma_flat_index(r as int, c as int, self.rows as int, self.columns as int);
                    lemma_max_width_bound::<T>(
                        self.contents@,
                        (r as int) * (self.columns as int) + (c as int),
                    );
                }
                push_spaces(&mut out, w - l);
                out.append(t.as_str());
                out.append(" ");
                assert(out@ =~= row_start + row_cells(*self, wn, r as int, c as int + 1)) by {
                    assert(" "@ =~= seq![' ']);
                }
                c += 1;
            }
            out.append("│");
            out.append("\n");
            assert(out@ =~= top + rows_block(*self, wn, r as int + 1));
            r += 1;
        }
        proof {
            reveal_strlit("└");
            reveal_strlit("┘");
        }
        out.append("└");
        push_border_interior(&mut out, w, self.columns);
        out.append("┘");
        assert(out@ =~= render_text(*self));
        out
    }
}

} // verus!
