use vstd::prelude::*;

use crate::editor::EdView;
use crate::editor::SawdustApp;

verus! {

/// One cell-level command for the render surface. The host replays these on
/// the terminal; the renderer itself is a pure projection of the session.
#[derive(Clone, Copy, Debug, PartialEq, Eq, Structural)]
pub enum DrawOp {
    /// Print the decimal line number `value` starting at `(col, row)`.
    Number { col: usize, row: usize, value: usize },
    /// Print one character at `(col, row)`.
    Glyph { col: usize, row: usize, ch: char },
}

/// Where a row's line number starts: flush left for the current line, just
/// before the text margin for every other line.
pub open spec fn gutter_col(v: EdView, line_number: int) -> int {
    if v.current_line == line_number {
        0
    } else {
        v.left_margin - 2
    }
}

/// The characters of a document line shown on screen: at most the first 80,
/// and nothing for rows past the end of the document.
pub open spec fn visible_text(v: EdView, line_number: int) -> Seq<char> {
    let content = if 0 <= line_number < v.text.len() {
        v.text[line_number]
    } else {
        Seq::empty()
    };
    if content.len() <= 80 {
        content
    } else {
        content.take(80)
    }
}

/// The glyph commands for the first `count` visible characters of a line,
/// one cell per character starting at the left margin.
pub open spec fn glyph_ops(v: EdView, row: int, line_number: int, count: int) -> Seq<DrawOp>
    decreases count,
{
    if count <= 0 {
        Seq::empty()
    } else {
        glyph_ops(v, row, line_number, count - 1).push(
            DrawOp::Glyph {
                col: (v.left_margin + (count - 1)) as usize,
                row: row as usize,
                ch: visible_text(v, line_number)[count - 1],
            },
        )
    }
}

/// The commands for one screen row: the line number, then the visible text
/// starting at the left margin.
pub open spec fn row_ops(v: EdView, row: int, line_number: int) -> Seq<DrawOp> {
    seq![
        DrawOp::Number {
            col: gutter_col(v, line_number) as usize,
            row: row as usize,
            value: line_number as usize,
        },
    ] + glyph_ops(v, row, line_number, visible_text(v, line_number).len() as int)
}

/// The commands for the first `rows` screen rows, top first.
pub open spec fn screen_ops_upto(v: EdView, rows: int) -> Seq<DrawOp>
    decreases rows,
{
    if rows <= 0 {
        Seq::empty()
    } else {
        screen_ops_upto(v, rows - 1) + row_ops(v, rows - 1, v.top_line + rows - 1)
    }
}

/// The commands for the whole visible window.
pub open spec fn screen_ops(v: EdView) -> Seq<DrawOp> {
    screen_ops_upto(v, v.num_lines)
}

/// The character for one decimal digit.
pub open spec fn digit_char(d: int) -> char {
    if d == 0 {
        '0'
    } else if d == 1 {
        '1'
    } else if d == 2 {
        '2'
    } else if d == 3 {
        '3'
    } else if d == 4 {
        '4'
    } else if d == 5 {
        '5'
    } else if d == 6 {
        '6'
    } else if d == 7 {
        '7'
    } else if d == 8 {
        '8'
    } else {
        '9'
    }
}

/// The decimal digit characters of `n`, most significant first, with no
/// leading zeros except for `n == 0` itself.
pub open spec fn digits_of(n: int) -> Seq<char>
    decreases n,
{
    if n < 10 {
        seq![digit_char(n)]
    } else {
        digits_of(n / 10).push(digit_char(n % 10))
    }
}

proof fn lemma_reverse_push(s: Seq<char>, c: char)
    ensures
        s.push(c).reverse() =~= seq![c] + s.reverse(),
{
    let t = s.push(c);
    assert forall|i: int| 0 <= i < t.len() implies t.reverse()[i] == (seq![c] + s.reverse())[i] by {
        assert(t.reverse()[i] == t[t.len() - 1 - i]);
        if i == 0 {
            assert(t[t.len() - 1 - i] == c);
        } else {
            assert(t[t.len() - 1 - i] == s[s.len() - 1 - (i - 1)]);
            assert((seq![c] + s.reverse())[i] == s.reverse()[i - 1]);
        }
    }
}

fn digit_char_of(d: usize) -> (r: char)
    requires
        d < 10,
    ensures
        r == digit_char(d as int),
{
    if d == 0 {
        '0'
    } else if d == 1 {
        '1'
    } else if d == 2 {
        '2'
    } else if d == 3 {
        '3'
    } else if d == 4 {
        '4'
    } else if d == 5 {
        '5'
    } else if d == 6 {
        '6'
    } else if d == 7 {
        '7'
    } else if d == 8 {
        '8'
    } else {
        '9'
    }
}

/// The decimal rendering of a line number, most significant digit first,
/// for the host to print at a `Number` command's cell.
pub fn decimal_digits(n0: usize) -> (r: Vec<char>)
    ensures
        r@ == digits_of(n0 as int),
{
    let mut n = n0;
    let mut rev: Vec<char> = Vec::new();
    proof {
        assert(digits_of(n0 as int) =~= digits_of(n as int) + rev@.reverse());
    }
    while n >= 10
        invariant
            digits_of(n0 as int) == digits_of(n as int) + rev@.reverse(),
        decreases n,
    {
        let c = digit_char_of(n % 10);
        let ghost rev0 = rev@;
        rev.push(c);
        proof {
            lemma_reverse_push(rev0, c);
            assert(digits_of(n as int) == digits_of(n as int / 10).push(digit_char(n as int % 10)));
            assert(digits_of(n as int / 10) + (seq![c] + rev0.reverse()) =~= digits_of(
                n as int / 10,
            ).push(c) + rev0.reverse());
        }
        n = n / 10;
    }
    let c = digit_char_of(n);
    let ghost rev0 = rev@;
    rev.push(c);
    proof {
        lemma_reverse_push(rev0, c);
        assert(digits_of(n as int) == seq![digit_char(n as int)]);
        assert(digits_of(n as int) + rev0.reverse() =~= rev@.reverse());
    }
    let m = rev.len();
    let mut out: Vec<char> = Vec::new();
    let mut i: usize = 0;
    while i < m
        invariant
            i <= m,
            m == rev@.len(),
            m >= 1,
            digits_of(n0 as int) == rev@.reverse(),
            out@ == rev@.reverse().take(i as int),
        decreases m - i,
    {
        let c = rev[m - 1 - i];
        proof {
            assert(rev@.reverse()[i as int] == rev@[m - 1 - i]);
        }
        out.push(c);
        proof {
            assert(out@ =~= rev@.reverse().take(i + 1));
        }
        i = i + 1;
    }
    proof {
        assert(rev@.reverse().take(m as int) =~= rev@.reverse());
    }
    out
}

impl SawdustApp {
    /// Appends the draw commands for one screen row: the line-number cell,
    /// then up to 80 characters of the line's content. Rows past the end of
    /// the document get a line number and no text.
    pub fn draw_line(&self, row: usize, line_number: usize, out: &mut Vec<DrawOp>)
        requires
            self.wf(),
        ensures
            final(out)@ == old(out)@ + row_ops(self@, row as int, line_number as int),
    {
        let margin = self.left_margin();
        let gcol = if self.current_line() == line_number {
            0
        } else {
            margin - 2
        };
        out.push(DrawOp::Number { col: gcol, row, value: line_number });
        let ghost v = self@;
        let ghost ln = line_number as int;
        proof {
            assert(out@ =~= old(out)@ + seq![
                DrawOp::Number {
                    col: gutter_col(v, ln) as usize,
                    row: row as usize,
                    value: line_number,
                },
            ] + glyph_ops(v, row as int, ln, 0));
        }
        let n = self.text().line_count();
        if line_number < n {
            let full = self.text().line_len(line_number);
            let m = if full > 80 {
                80
            } else {
                full
            };
            proof {
                assert(visible_text(v, ln).len() == m);
            }
            let mut i: usize = 0;
            while i < m
                invariant
                    i <= m,
                    self.wf(),
                    v == self@,
                    ln == line_number as int,
                    margin == self@.left_margin,
                    0 <= ln < v.text.len(),
                    m == visible_text(v, ln).len(),
                    m <= v.text[ln].len(),
                    out@ == old(out)@ + seq![
                        DrawOp::Number {
                            col: gutter_col(v, ln) as usize,
                            row: row as usize,
                            value: line_number,
                        },
                    ] + glyph_ops(v, row as int, ln, i as int),
                decreases m - i,
            {
                let c = self.text().char_at(line_number, i);
                proof {
                    assert(visible_text(v, ln)[i as int] == v.text[ln][i as int]);
                }
                out.push(DrawOp::Glyph { col: margin + i, row, ch: c });
                proof {
                    assert(out@ =~= old(out)@ + seq![
                        DrawOp::Number {
                            col: gutter_col(v, ln) as usize,
                            row: row as usize,
                            value: line_number,
                        },
                    ] + glyph_ops(v, row as int, ln, i + 1));
                }
                i = i + 1;
            }
        } else {
            proof {
                assert(visible_text(v, ln).len() == 0);
            }
        }
        proof {
            assert(out@ =~= old(out)@ + row_ops(v, row as int, ln));
        }
    }

    /// The draw commands for the whole visible window, top row first: for
    /// each of the `num_lines` rows, the row's line number and text.
    pub fn draw_lines(&self) -> (r: Vec<DrawOp>)
        requires
            self.wf(),
        ensures
            r@ == screen_ops(self@),
    {
        let mut out: Vec<DrawOp> = Vec::new();
        let rows = self.num_lines();
        let top = self.top_line();
        let mut idx: usize = 0;
        while idx < rows
            invariant
                idx <= rows,
                self.wf(),
                rows == self@.num_lines,
                top == self@.top_line,
                out@ == screen_ops_upto(self@, idx as int),
            decreases rows - idx,
        {
            self.draw_line(idx, top + idx, &mut out);
            proof {
                assert(out@ == screen_ops_upto(self@, idx + 1));
            }
            idx = idx + 1;
        }
        out
    }
}

} // verus!
