//! Compiler diagnostics and the way they are shown on a terminal.
use crate::ast::Span;
use crate::numfmt::{dec, push_decimal};
use crate::text::{chars_of, push_all, push_str, string_of, trim_end_from, trim_start_from};
use crate::text;
use vstd::prelude::*;

verus! {

/// How serious a diagnostic is.
#[derive(Clone, Copy, Debug, PartialEq, Eq, Structural)]
pub enum Severity {
    Error,
    Warning,
}

/// A diagnostic: its code (`E004`, `W003`, ...), severity, message, hint,
/// where it points, and the text of the source line there.
#[derive(Clone, Debug)]
pub struct CompileError {
    pub code: &'static str,
    pub severity: Severity,
    pub message: String,
    pub hint: String,
    pub span: Span,
    pub source_line: String,
}

/// A diagnostic with its texts taken as character sequences.
pub struct DiagnosticV {
    pub code: Seq<char>,
    pub severity: Severity,
    pub message: Seq<char>,
    pub hint: Seq<char>,
    pub span: Span,
    pub source_line: Seq<char>,
}

impl View for CompileError {
    type V = DiagnosticV;

    open spec fn view(&self) -> DiagnosticV {
        DiagnosticV {
            code: self.code@,
            severity: self.severity,
            message: self.message@,
            hint: self.hint@,
            span: self.span,
            source_line: self.source_line@,
        }
    }
}

pub const RED: &'static str = "\x1b[1;31m";

pub const YELLOW: &'static str = "\x1b[1;33m";

pub const CYAN: &'static str = "\x1b[1;36m";

pub const DIM: &'static str = "\x1b[2m";

pub const BOLD: &'static str = "\x1b[1m";

pub const RESET: &'static str = "\x1b[0m";

/// The number of bytes of `c` in UTF-8.
pub open spec fn utf8_len(c: char) -> nat {
    if (c as u32) < 0x80 {
        1
    } else if (c as u32) < 0x800 {
        2
    } else if (c as u32) < 0x10000 {
        3
    } else {
        4
    }
}

/// `c` repeated once for each byte of `s` in UTF-8.
pub open spec fn per_byte(s: Seq<char>, c: char) -> Seq<char>
    decreases s.len(),
{
    if s.len() == 0 {
        Seq::empty()
    } else {
        per_byte(s.drop_last(), c) + Seq::new(utf8_len(s.last()), |_i: int| c)
    }
}

/// `n` spaces.
pub open spec fn spaces(n: nat) -> Seq<char> {
    Seq::new(n, |_i: int| ' ')
}

/// The decimal form of `n`, right-aligned in a field of three.
pub open spec fn right3(n: nat) -> Seq<char> {
    let d = dec(n);
    if d.len() < 3 {
        spaces((3 - d.len()) as nat) + d
    } else {
        d
    }
}

/// The colour of a severity.
pub open spec fn color_of(s: Severity) -> Seq<char> {
    match s {
        Severity::Error => RED@,
        Severity::Warning => YELLOW@,
    }
}

/// The first line of a rendered diagnostic: icon, label, code and message.
pub open spec fn head_line(e: CompileError) -> Seq<char> {
    let (icon, label) = match e.severity {
        Severity::Error => ("\u{2718}"@, "ERROR"@),
        Severity::Warning => ("\u{26A0}"@, "WARN "@),
    };
    "  "@ + color_of(e.severity) + icon + " "@ + label + " ["@ + e.code@ + "]"@ + RESET@ + " "@
        + BOLD@ + e.message@ + RESET@ + "\n"@
}

/// The second line: where the diagnostic points.
pub open spec fn where_line(e: CompileError) -> Seq<char> {
    "     "@ + DIM@ + "\u{2500}\u{2192} line "@ + dec(e.span.line as nat) + ":"@ + dec(
        e.span.col as nat,
    ) + RESET@ + "\n"@
}

/// The row that shows the source text `t` of line `line`.
pub open spec fn source_row(line: nat, t: Seq<char>) -> Seq<char> {
    "      "@ + DIM@ + "\u{2502}"@ + RESET@ + "\n"@ + "  "@ + DIM@ + right3(line) + RESET@ + " "@
        + DIM@ + "\u{2502}"@ + RESET@ + " "@ + t + "\n"@
}

/// The row that underlines `body`, after the indentation `lead`.
pub open spec fn underline_row(lead: Seq<char>, body: Seq<char>, color: Seq<char>) -> Seq<char> {
    "      "@ + DIM@ + "\u{2502}"@ + RESET@ + " "@ + per_byte(lead, ' ') + color + per_byte(
        body,
        '\u{2500}',
    ) + RESET@ + "\n"@
}

/// The quoted source line with an underline beneath its text; nothing when
/// the line is blank.
pub open spec fn quote_lines(e: CompileError) -> Seq<char> {
    let t = text::trim_end(e.source_line@);
    let body = text::trim_start(t);
    let lead = t.subrange(0, (t.len() - body.len()) as int);
    if t.len() == 0 {
        Seq::empty()
    } else {
        source_row(e.span.line as nat, t) + underline_row(lead, body, color_of(e.severity))
    }
}

/// The last line: the hint.
pub open spec fn hint_line(e: CompileError) -> Seq<char> {
    "      "@ + CYAN@ + "\u{21B3} hint:"@ + RESET@ + " "@ + DIM@ + e.hint@ + RESET@ + "\n"@
}

/// A diagnostic as it is shown on a terminal.
pub open spec fn rendered(e: CompileError) -> Seq<char> {
    head_line(e) + where_line(e) + quote_lines(e) + hint_line(e)
}

/// The number of bytes of `c` in UTF-8.
pub(crate) fn utf8_width(c: char) -> (r: usize)
    ensures
        r == utf8_len(c),
{
    let u = c as u32;
    if u < 0x80 {
        1
    } else if u < 0x800 {
        2
    } else if u < 0x10000 {
        3
    } else {
        4
    }
}

/// Appends `c` once for each byte of `s[lo..hi]` in UTF-8.
fn push_per_byte(out: &mut Vec<char>, s: &[char], lo: usize, hi: usize, c: char)
    requires
        lo <= hi <= s@.len(),
    ensures
        final(out)@ == old(out)@ + per_byte(s@.subrange(lo as int, hi as int), c),
{
    let mut i = lo;
    while i < hi
        invariant
            lo <= i <= hi <= s@.len(),
            out@ == old(out)@ + per_byte(s@.subrange(lo as int, i as int), c),
        decreases hi - i,
    {
        let w = utf8_width(s[i]);
        let ghost before = out@;
        let mut k: usize = 0;
        while k < w
            invariant
                k <= w,
                out@ == before + Seq::new(k as nat, |_j: int| c),
            decreases w - k,
        {
            out.push(c);
            k = k + 1;
            proof {
                assert(out@ =~= before + Seq::new(k as nat, |_j: int| c));
            }
        }
        proof {
            let t = s@.subrange(lo as int, i + 1);
            assert(t.drop_last() =~= s@.subrange(lo as int, i as int));
            assert(t.last() == s@[i as int]);
        }
        i = i + 1;
    }
}

/// Appends the decimal form of `n`, right-aligned in a field of three.
fn push_right3(out: &mut Vec<char>, n: usize)
    ensures
        final(out)@ == old(out)@ + right3(n as nat),
{
    let mut d: Vec<char> = Vec::new();
    push_decimal(&mut d, n as u128);
    proof {
        assert(d@ =~= dec(n as nat));
    }
    if d.len() < 3 {
        let pad = 3 - d.len();
        let mut k: usize = 0;
        while k < pad
            invariant
                k <= pad,
                out@ == old(out)@ + spaces(k as nat),
            decreases pad - k,
        {
            out.push(' ');
            k = k + 1;
            proof {
                assert(out@ =~= old(out)@ + spaces(k as nat));
            }
        }
    }
    push_all(out, d.as_slice());
    proof {
        assert(out@ =~= old(out)@ + right3(n as nat));
    }
}

/// Appends the row that shows `s[0..te]` as the text of line `line`.
fn push_source_row(out: &mut Vec<char>, line: usize, s: &[char], te: usize)
    requires
        te <= s@.len(),
    ensures
        final(out)@ == old(out)@ + source_row(line as nat, s@.subrange(0, te as int)),
{
    let ghost o = out@;
    push_str(out, "      ");
    push_str(out, DIM);
    push_str(out, "\u{2502}");
    push_str(out, RESET);
    push_str(out, "\n");
    push_str(out, "  ");
    push_str(out, DIM);
    push_right3(out, line);
    push_str(out, RESET);
    push_str(out, " ");
    push_str(out, DIM);
    push_str(out, "\u{2502}");
    push_str(out, RESET);
    push_str(out, " ");
    push_prefix(out, s, te);
    push_str(out, "\n");
    proof {
        assert(out@ =~= o + source_row(line as nat, s@.subrange(0, te as int)));
    }
}

/// Appends the row that underlines `s[ts..te]` after the indentation
/// `s[0..ts]`.
fn push_underline_row(out: &mut Vec<char>, s: &[char], ts: usize, te: usize, color: &str)
    requires
        ts <= te <= s@.len(),
    ensures
        final(out)@ == old(out)@ + underline_row(
            s@.subrange(0, ts as int),
            s@.subrange(ts as int, te as int),
            color@,
        ),
{
    let ghost o = out@;
    push_str(out, "      ");
    push_str(out, DIM);
    push_str(out, "\u{2502}");
    push_str(out, RESET);
    push_str(out, " ");
    push_per_byte(out, s, 0, ts, ' ');
    push_str(out, color);
    push_per_byte(out, s, ts, te, '\u{2500}');
    push_str(out, RESET);
    push_str(out, "\n");
    proof {
        assert(out@ =~= o + underline_row(
            s@.subrange(0, ts as int),
            s@.subrange(ts as int, te as int),
            color@,
        ));
    }
}

impl CompileError {
    /// The colour of this diagnostic's severity.
    fn color(&self) -> (r: &'static str)
        ensures
            r@ == color_of(self.severity),
    {
        match self.severity {
            Severity::Error => RED,
            Severity::Warning => YELLOW,
        }
    }

    /// Appends the heading line.
    fn push_head(&self, out: &mut Vec<char>)
        ensures
            final(out)@ == old(out)@ + head_line(*self),
    {
        let ghost o = out@;
        push_str(out, "  ");
        push_str(out, self.color());
        match self.severity {
            Severity::Error => {
                push_str(out, "\u{2718}");
                push_str(out, " ");
                push_str(out, "ERROR");
            },
            Severity::Warning => {
                push_str(out, "\u{26A0}");
                push_str(out, " ");
                push_str(out, "WARN ");
            },
        }
        push_str(out, " [");
        push_str(out, self.code);
        push_str(out, "]");
        push_str(out, RESET);
        push_str(out, " ");
        push_str(out, BOLD);
        push_str(out, self.message.as_str());
        push_str(out, RESET);
        push_str(out, "\n");
        proof {
            assert(out@ =~= o + head_line(*self));
        }
    }

    /// Appends the position line.
    fn push_where(&self, out: &mut Vec<char>)
        ensures
            final(out)@ == old(out)@ + where_line(*self),
    {
        let ghost o = out@;
        push_str(out, "     ");
        push_str(out, DIM);
        push_str(out, "\u{2500}\u{2192} line ");
        push_decimal(out, self.span.line as u128);
        push_str(out, ":");
        push_decimal(out, self.span.col as u128);
        push_str(out, RESET);
        push_str(out, "\n");
        proof {
            assert(out@ =~= o + where_line(*self));
        }
    }

    /// Appends the quoted, underlined source line, if it is not blank.
    fn push_quote(&self, out: &mut Vec<char>)
        ensures
            final(out)@ == old(out)@ + quote_lines(*self),
    {
        let ghost o = out@;
        let line = chars_of(self.source_line.as_str());
        let te = trim_end_from(line.as_slice(), 0, line.len());
        proof {
            assert(line@.subrange(0, line@.len() as int) =~= line@);
        }
        if te > 0 {
            let ts = trim_start_from(line.as_slice(), 0, te);
            let ghost t = text::trim_end(self.source_line@);
            proof {
                assert(t =~= line@.subrange(0, te as int));
                assert(text::trim_start(t) =~= line@.subrange(ts as int, te as int));
                assert(t.subrange(0, (t.len() - text::trim_start(t).len()) as int)
                    =~= line@.subrange(0, ts as int));
            }
            push_source_row(out, self.span.line, line.as_slice(), te);
            push_underline_row(out, line.as_slice(), ts, te, self.color());
            proof {
                assert(out@ =~= o + quote_lines(*self));
            }
        } else {
            proof {
                assert(out@ =~= o + quote_lines(*self));
            }
        }
    }

    /// Appends the hint line.
    fn push_hint(&self, out: &mut Vec<char>)
        ensures
            final(out)@ == old(out)@ + hint_line(*self),
    {
        let ghost o = out@;
        push_str(out, "      ");
        push_str(out, CYAN);
        push_str(out, "\u{21B3} hint:");
        push_str(out, RESET);
        push_str(out, " ");
        push_str(out, DIM);
        push_str(out, self.hint.as_str());
        push_str(out, RESET);
        push_str(out, "\n");
        proof {
            assert(out@ =~= o + hint_line(*self));
        }
    }

    /// The diagnostic as it is shown on a terminal: a heading with the code
    /// and message, the position, the source line underlined (when it is not
    /// blank) and the hint.
    pub fn render(&self) -> (r: String)
        ensures
            r@ == rendered(*self),
    {
        let mut out: Vec<char> = Vec::new();
        self.push_head(&mut out);
        self.push_where(&mut out);
        self.push_quote(&mut out);
        self.push_hint(&mut out);
        proof {
            assert(out@ =~= rendered(*self));
        }
        string_of(out.as_slice())
    }
}

/// Appends `s[0..hi]`.
fn push_prefix(out: &mut Vec<char>, s: &[char], hi: usize)
    requires
        hi <= s@.len(),
    ensures
        final(out)@ == old(out)@ + s@.subrange(0, hi as int),
{
    let mut i: usize = 0;
    while i < hi
        invariant
            i <= hi <= s@.len(),
            out@ == old(out)@ + s@.subrange(0, i as int),
        decreases hi - i,
    {
        out.push(s[i]);
        i = i + 1;
        proof {
            assert(out@ =~= old(out)@ + s@.subrange(0, i as int));
        }
    }
}

} // verus!
