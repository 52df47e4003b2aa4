//! The context shown with a parse error: a window of the source line with a
//! caret under the column, or, without source text, a window of tokens.
use vstd::prelude::*;
use vstd::string::{StrSliceExecFns, StringExecFns};

use crate::lexer::{Token, TokenKind};
use crate::parser::Parser;

verus! {

/// How many characters of the line are shown on each side of the column.
pub const RADIUS: usize = 20;

/// The index of the first line feed at or after `i`, or the length of `s`.
pub open spec fn newline_after(s: Seq<char>, i: int) -> int
    decreases s.len() - i,
{
    if i < 0 || i >= s.len() {
        s.len() as int
    } else if s[i] == '\n' {
        i
    } else {
        newline_after(s, i + 1)
    }
}

/// Where line `n` starts and ends, counting lines from the one that starts at
/// `i`; `None` where there are fewer lines.
pub open spec fn line_bounds(s: Seq<char>, i: int, n: nat) -> Option<(int, int)>
    decreases n,
{
    let e = newline_after(s, i);
    if n == 0 {
        Some((i, e))
    } else if e >= s.len() {
        None
    } else {
        line_bounds(s, e + 1, (n - 1) as nat)
    }
}

/// Line `n` of `s`, without the line feed that ends it or a carriage return
/// before that.
pub open spec fn line_text(s: Seq<char>, n: nat) -> Option<Seq<char>> {
    match line_bounds(s, 0, n) {
        Some((a, b)) => {
            let t = s.subrange(a, b);
            Some(
                if t.len() > 0 && t.last() == '\r' {
                    t.drop_last()
                } else {
                    t
                },
            )
        },
        None => None,
    }
}

/// The window of line `n` around column `col` (which is clamped to the
/// line), with `... ` and ` ...` where the line goes on, and the offset of
/// the caret in it; `None` where the line is missing or empty.
pub open spec fn source_context(s: Seq<char>, n: nat, col: nat) -> Option<(Seq<char>, nat)> {
    match line_text(s, n) {
        Some(t) => if t.len() == 0 {
            None
        } else {
            let c = if col < t.len() {
                col as int
            } else {
                t.len() as int
            };
            let start = if c >= RADIUS {
                c - RADIUS
            } else {
                0
            };
            let end = if c + RADIUS < t.len() {
                c + RADIUS
            } else {
                t.len() as int
            };
            let head = if start > 0 {
                "... "@
            } else {
                Seq::empty()
            };
            let tail = if end < t.len() {
                " ..."@
            } else {
                Seq::empty()
            };
            Some((head + t.subrange(start, end) + tail, (head.len() + (c - start)) as nat))
        },
        None => None,
    }
}

/// How a token is shown: its text, or `EOF`.
pub open spec fn label(t: Token) -> Seq<char> {
    if t.kind == TokenKind::EOF {
        "EOF"@
    } else {
        t.content@
    }
}

/// The labels of tokens `start..k`, separated by spaces, the one at
/// `center` in brackets.
pub open spec fn token_window(ts: Seq<Token>, center: int, start: int, k: int) -> Seq<char>
    decreases k - start,
{
    if k <= start {
        Seq::empty()
    } else {
        let l = if k - 1 == center {
            "["@ + label(ts[k - 1]) + "]"@
        } else {
            label(ts[k - 1])
        };
        if k - 1 == start {
            l
        } else {
            token_window(ts, center, start, k - 1) + " "@ + l
        }
    }
}

proof fn lemma_newline_after_bounds(s: Seq<char>, i: int)
    requires
        0 <= i <= s.len(),
    ensures
        i <= newline_after(s, i) <= s.len(),
    decreases s.len() - i,
{
    if i < s.len() && s[i] != '\n' {
        lemma_newline_after_bounds(s, i + 1);
    }
}

/// The first line feed at or after `i` in `s`, of length `n`.
fn find_newline(s: &str, i: usize, n: usize) -> (r: usize)
    requires
        n == s@.len(),
        i <= n,
    ensures
        r == newline_after(s@, i as int),
        i <= r <= n,
{
    proof {
        lemma_newline_after_bounds(s@, i as int);
    }
    let mut k = i;
    while k < n
        invariant
            n == s@.len(),
            i <= k <= n,
            newline_after(s@, i as int) == newline_after(s@, k as int),
        decreases n - k,
    {
        if s.get_char(k) == '\n' {
            return k;
        }
        k = k + 1;
    }
    n
}

impl Parser {
    /// The window of the source around line `line_idx`, column `col`, and
    /// the offset of the caret in it.
    pub fn context_line(&self, line_idx: usize, col: usize) -> (r: Option<(String, usize)>)
        ensures
            match source_context(self.source@, line_idx as nat, col as nat) {
                Some((w, c)) => r matches Some((rw, rc)) && rw@ == w && rc == c,
                None => r is None,
            },
    {
        let s = self.source.as_str();
        let ghost g = s@;
        let n = s.unicode_len();
        let mut start: usize = 0;
        let mut line: usize = 0;
        while line < line_idx
            invariant
                n == g.len(),
                g == s@,
                g == self.source@,
                line <= line_idx,
                start <= n,
                line_bounds(g, 0, line_idx as nat) == line_bounds(g, start as int, (line_idx - line) as nat),
            decreases line_idx - line,
        {
            let e = find_newline(s, start, n);
            if e >= n {
                proof {
                    assert(line_bounds(g, start as int, (line_idx - line) as nat) is None);
                }
                return None;
            }
            proof {
                assert(line_bounds(g, start as int, (line_idx - line) as nat) == line_bounds(
                    g,
                    e + 1,
                    (line_idx - (line + 1)) as nat,
                ));
            }
            start = e + 1;
            line = line + 1;
        }
        let end = find_newline(s, start, n);
        proof {
            assert(line_bounds(g, start as int, 0) == Some((start as int, end as int)));
        }
        let t = s.substring_char(start, end);
        let mut len = end - start;
        if len > 0 && t.get_char(len - 1) == '\r' {
            len = len - 1;
        }
        if len == 0 {
            proof {
                let tt = g.subrange(start as int, end as int);
                assert(tt =~= t@);
            }
            return None;
        }
        let c = if col < len {
            col
        } else {
            len
        };
        let lo = if c >= RADIUS {
            c - RADIUS
        } else {
            0
        };
        let hi = if len - c > RADIUS {
            c + RADIUS
        } else {
            len
        };
        let mut snippet = String::new();
        let mut caret: usize = 0;
        if lo > 0 {
            snippet.append("... ");
            caret = 4;
        }
        snippet.append(t.substring_char(lo, hi));
        caret = caret + (c - lo);
        if hi < len {
            snippet.append(" ...");
        }
        proof {
            let tt = g.subrange(start as int, end as int);
            let text = if tt.len() > 0 && tt.last() == '\r' {
                tt.drop_last()
            } else {
                tt
            };
            assert(text.subrange(lo as int, hi as int) =~= t@.subrange(lo as int, hi as int));
            reveal_strlit("... ");
            reveal_strlit(" ...");
        }
        Some((snippet, caret))
    }

    /// The tokens within `radius` of the next one, that one in brackets;
    /// `(no tokens)` where there are none.
    pub fn context_around(&self, radius: usize) -> (r: String)
        ensures
            self.tokens@.len() == 0 ==> r@ == "(no tokens)"@,
            self.tokens@.len() > 0 ==> {
                let last = self.tokens@.len() - 1;
                let center = if self.pos < last {
                    self.pos as int
                } else {
                    last
                };
                let start = if center >= radius {
                    center - radius
                } else {
                    0
                };
                let end = if center + radius < last {
                    center + radius
                } else {
                    last
                };
                r@ == token_window(self.tokens@, center, start, end + 1)
            },
    {
        let n = self.tokens.len();
        if n == 0 {
            return "(no tokens)".to_string();
        }
        let last = n - 1;
        let center = if self.pos < last {
            self.pos
        } else {
            last
        };
        let start = if center >= radius {
            center - radius
        } else {
            0
        };
        let end = if radius < last - center {
            center + radius
        } else {
            last
        };
        let mut out = String::new();
        let mut k = start;
        while k <= end
            invariant
                start <= k <= end + 1,
                end <= last,
                last == n - 1,
                n == self.tokens@.len(),
                out@ == token_window(self.tokens@, center as int, start as int, k as int),
            decreases end + 1 - k,
        {
            let t = &self.tokens[k];
            if k > start {
                out.append(" ");
            }
            if k == center {
                out.append("[");
            }
            if t.kind == TokenKind::EOF {
                out.append("EOF");
            } else {
                out.append(t.content.as_str());
            }
            if k == center {
                out.append("]");
            }
            k = k + 1;
        }
        out
    }
}

} // verus!
