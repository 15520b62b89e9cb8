//! The diagnostics that an editor is sent for a document: those that fall
//! on the document's own lines, counted from its first line, and for a
//! failure reported by its message alone, the place that the message names.
use crate::code_actions::Diagnostic;
use crate::diagnostics::{CompileError, DiagnosticV, Severity};
use crate::symbols::{add_u32, byte_count, byte_len, find_first, find_from, line_index, Position, Range};
use crate::text::{chars_of, push_str, string_of, trim, trim_from};
use vstd::prelude::*;

verus! {

// ───────────────────────── numbers in messages ─────────────────────────

/// Whether `c` is one of `0` to `9`.
pub open spec fn is_digit(c: char) -> bool {
    '0' <= c && c <= '9'
}

/// How many digits `s` starts with.
pub open spec fn digits_len(s: Seq<char>) -> nat
    decreases s.len(),
{
    if s.len() > 0 && is_digit(s[0]) {
        1 + digits_len(s.drop_first())
    } else {
        0
    }
}

/// There are no more leading digits than characters.
pub proof fn lemma_digits_len(s: Seq<char>)
    ensures
        digits_len(s) <= s.len(),
    decreases s.len(),
{
    if s.len() > 0 && is_digit(s[0]) {
        lemma_digits_len(s.drop_first());
    }
}

/// The number that the digits `s` write in base ten.
pub open spec fn digits_value(s: Seq<char>) -> nat
    decreases s.len(),
{
    if s.len() == 0 {
        0
    } else {
        digits_value(s.drop_last()) * 10 + (s.last() as int - '0' as int) as nat
    }
}

/// The number that the digits at the start of `s` write, where there are
/// some and it fits in 32 bits.
pub open spec fn leading_number(s: Seq<char>) -> Option<u32> {
    let n = digits_len(s) as int;
    if n > 0 && digits_value(s.take(n)) <= u32::MAX {
        Some(digits_value(s.take(n)) as u32)
    } else {
        None
    }
}

/// The place that a message of the form `... line L:C ...` names: line
/// `L - 1` (at least 0) and column `C`, where both are numbers of 32 bits.
pub open spec fn panic_position(msg: Seq<char>) -> Option<(u32, u32)> {
    match find_from(msg, "line "@, 0) {
        Some(i) => {
            let rest = msg.skip(i + 5);
            let after = rest.skip(digits_len(rest) as int);
            if digits_len(rest) > 0 && after.len() > 0 && after[0] == ':' {
                match (leading_number(rest), leading_number(after.skip(1))) {
                    (Some(l), Some(c)) => Some(
                        (
                            if l >= 1 {
                                (l - 1) as u32
                            } else {
                                0u32
                            },
                            c,
                        ),
                    ),
                    _ => None,
                }
            } else {
                None
            }
        },
        None => None,
    }
}

// ───────────────────────── what is sent ─────────────────────────

/// A diagnostic as the editor has it, as its place, severity, code and
/// message.
pub open spec fn diag_v(d: Diagnostic) -> (Range, Severity, Seq<char>, Seq<char>) {
    (d.range, d.severity, d.code@, d.message@)
}

/// The views of a list of diagnostics.
pub open spec fn diags_v(v: Seq<Diagnostic>) -> Seq<(Range, Severity, Seq<char>, Seq<char>)> {
    v.map_values(|d: Diagnostic| diag_v(d))
}

/// A compiler diagnostic as the editor is sent it: from its column on its
/// line (lines counted from 0), as wide as its trimmed source line (at
/// least one), with its hint under its message.
pub open spec fn diagnostic_of(e: DiagnosticV) -> (Range, Severity, Seq<char>, Seq<char>) {
    let line = line_index(e.span.line);
    let col = e.span.col as u32;
    let w = byte_len(trim(e.source_line));
    let width = (if w >= 1 {
        w
    } else {
        1
    }) as u32;
    (
        Range { start: Position { line, character: col }, end: Position { line, character: add_u32(col, width) } },
        e.severity,
        e.code,
        e.message + "\nhint: "@ + e.hint,
    )
}

/// Whether a document has a main anchor: an `@` and a `(main)` somewhere.
pub open spec fn has_main_anchor(text: Seq<char>) -> bool {
    text.contains('@') && find_from(text, "(main)"@, 0) is Some
}

/// Whether the diagnostic `e` of the text that `off` lines of imports come
/// before is sent: it falls on one of the `own` lines of the document (on
/// its first line where it has none), and it is not one of those that ask
/// for a main anchor where the document has none.
pub open spec fn is_sent(e: DiagnosticV, main: bool, off: usize, own: usize) -> bool {
    &&& e.span.line > off
    &&& e.span.line - off <= (if own >= 1 {
        own as int
    } else {
        1
    })
    &&& (main || !(e.code == "E018"@ || e.code == "E019"@ || e.code == "E022"@))
}

/// `e` with its line counted in the document rather than after the
/// `off` lines of imports.
pub open spec fn shifted(e: DiagnosticV, off: usize) -> DiagnosticV {
    DiagnosticV { span: crate::ast::Span { line: (e.span.line - off) as usize, col: e.span.col }, ..e }
}

/// The diagnostics of `errs` that are sent, in order.
pub open spec fn published(errs: Seq<DiagnosticV>, main: bool, off: usize, own: usize) -> Seq<
    (Range, Severity, Seq<char>, Seq<char>),
>
    decreases errs.len(),
{
    if errs.len() == 0 {
        Seq::empty()
    } else {
        published(errs.drop_last(), main, off, own) + if is_sent(errs.last(), main, off, own) {
            seq![diagnostic_of(shifted(errs.last(), off))]
        } else {
            Seq::empty()
        }
    }
}

// ───────────────────────── computing them ─────────────────────────

/// The digits at `s[from..]`: how many there are, and the number they
/// write where it fits in 32 bits (see `leading_number`).
fn read_number(s: &[char], from: usize) -> (r: (usize, Option<u32>))
    requires
        from <= s@.len(),
    ensures
        r.0 == digits_len(s@.skip(from as int)),
        r.1 == leading_number(s@.skip(from as int)),
{
    let ghost t = s@.skip(from as int);
    let mut j = from;
    let mut val: u64 = 0;
    let mut big = false;
    proof {
        assert(t.take(0) =~= Seq::<char>::empty());
        assert(s@.skip(from as int) =~= t.skip(0));
    }
    while j < s.len() && '0' <= s[j] && s[j] <= '9'
        invariant
            from <= j <= s@.len(),
            t == s@.skip(from as int),
            digits_len(t) == (j - from) + digits_len(s@.skip(j as int)),
            !big ==> val == digits_value(t.take(j - from)) && val <= u32::MAX,
            big ==> digits_value(t.take(j - from)) > u32::MAX,
        decreases s@.len() - j,
    {
        let d = s[j];
        proof {
            assert(s@.skip(j as int)[0] == d);
            assert(s@.skip(j as int).drop_first() =~= s@.skip(j + 1));
            assert(t.take(j + 1 - from).drop_last() =~= t.take(j - from));
            assert(t.take(j + 1 - from).last() == d);
        }
        let dv = (d as u32 - '0' as u32) as u64;
        if !big {
            let nv = val * 10 + dv;
            if nv > 0xffff_ffff {
                big = true;
            } else {
                val = nv;
            }
        }
        j = j + 1;
    }
    proof {
        if j < s@.len() {
            assert(s@.skip(j as int)[0] == s@[j as int]);
        }
        assert(digits_len(s@.skip(j as int)) == 0);
    }
    let n = j - from;
    if n > 0 && !big {
        (n, Some(val as u32))
    } else {
        (n, None)
    }
}

/// The place that a message of the form `... line L:C ...` names (see
/// `panic_position`).
pub fn parse_panic_position(msg: &str) -> (r: Option<(u32, u32)>)
    ensures
        r == panic_position(msg@),
{
    let s = chars_of(msg);
    let marker = chars_of("line ");
    proof {
        reveal_strlit("line ");
    }
    let i = match find_first(s.as_slice(), marker.as_slice()) {
        Some(i) => i,
        None => {
            return None;
        },
    };
    proof {
        crate::symbols::lemma_find_bound(s@, marker@, 0);
        assert(i + marker@.len() <= s@.len());
    }
    let len = s.len();
    proof {
        assert(i + 5 <= len);
    }
    let start = i + 5;
    let (n, line_1) = read_number(s.as_slice(), start);
    proof {
        lemma_digits_len(s@.skip(start as int));
        assert(s@.skip(start as int).skip(n as int) =~= s@.skip(start + n));
    }
    if n == 0 || start + n >= s.len() || s[start + n] != ':' {
        return None;
    }
    let (_, col) = read_number(s.as_slice(), start + n + 1);
    proof {
        assert(s@.skip(start + n).skip(1) =~= s@.skip(start + n + 1));
    }
    match (line_1, col) {
        (Some(l), Some(c)) => Some((l.saturating_sub(1), c)),
        _ => None,
    }
}

/// A compiler diagnostic as the editor is sent it (see `diagnostic_of`).
pub fn to_diagnostic(e: &CompileError) -> (r: Diagnostic)
    ensures
        diag_v(r) == diagnostic_of(e@),
{
    let line = (e.span.line.saturating_sub(1)) as u32;
    let col = e.span.col as u32;
    let src = chars_of(e.source_line.as_str());
    let (a, b) = trim_from(src.as_slice(), 0, src.len());
    let piece = crate::text::copy_range(src.as_slice(), a, b);
    let w = byte_count(piece.as_slice(), piece.len());
    proof {
        assert(src@.subrange(0, src@.len() as int) =~= src@);
        assert(piece@.take(piece@.len() as int) =~= piece@);
    }
    let width = (if w >= 1 {
        w
    } else {
        1
    }) as u32;
    let mut m = chars_of(e.message.as_str());
    push_str(&mut m, "\nhint: ");
    push_str(&mut m, e.hint.as_str());
    proof {
        reveal_strlit("\nhint: ");
    }
    Diagnostic {
        range: Range {
            start: Position { line, character: col },
            end: Position { line, character: col.wrapping_add(width) },
        },
        severity: e.severity,
        code: string_of(chars_of(e.code).as_slice()),
        message: string_of(m.as_slice()),
    }
}

/// Whether the text has a main anchor (see `has_main_anchor`).
fn main_anchor_in(s: &[char]) -> (r: bool)
    ensures
        r == has_main_anchor(s@),
{
    let mut at = false;
    let mut i: usize = 0;
    while i < s.len()
        invariant
            i <= s@.len(),
            at == (exists|j: int| 0 <= j < i && s@[j] == '@'),
        decreases s@.len() - i,
    {
        if s[i] == '@' {
            at = true;
        }
        i = i + 1;
    }
    proof {
        if at {
            let j = choose|j: int| 0 <= j < s@.len() && s@[j] == '@';
            assert(s@.contains('@')) by {
                assert(s@[j] == '@');
            }
        }
    }
    let m = chars_of("(main)");
    at && find_first(s, m.as_slice()).is_some()
}

/// Whether the code is one of those that ask for a main anchor.
fn asks_for_main(code: &str) -> (r: bool)
    ensures
        r == (code@ == "E018"@ || code@ == "E019"@ || code@ == "E022"@),
{
    crate::hover::same_text(code, "E018") || crate::hover::same_text(code, "E019") || crate::hover::same_text(
        code,
        "E022",
    )
}

/// The diagnostics of `errs` that an editor is sent for the document
/// `text`, whose own lines come after `import_line_offset` lines of
/// imports and are `own_line_count` (see `published`).
pub fn publish_diagnostics(
    text: &str,
    errs: &Vec<CompileError>,
    import_line_offset: usize,
    own_line_count: usize,
) -> (r: Vec<Diagnostic>)
    ensures
        diags_v(r@) == published(
            errs@.map_values(|e: CompileError| e@),
            has_main_anchor(text@),
            import_line_offset,
            own_line_count,
        ),
{
    let ghost ev = errs@.map_values(|e: CompileError| e@);
    let main = main_anchor_in(chars_of(text).as_slice());
    let own = if own_line_count >= 1 {
        own_line_count
    } else {
        1
    };
    let mut out: Vec<Diagnostic> = Vec::new();
    let mut k: usize = 0;
    proof {
        assert(ev.take(0) =~= Seq::<DiagnosticV>::empty());
    }
    while k < errs.len()
        invariant
            k <= errs@.len(),
            ev == errs@.map_values(|e: CompileError| e@),
            main == has_main_anchor(text@),
            own == (if own_line_count >= 1 {
                own_line_count
            } else {
                1
            }),
            diags_v(out@) == published(ev.take(k as int), main, import_line_offset, own_line_count),
        decreases errs@.len() - k,
    {
        let e = &errs[k];
        let ghost before = diags_v(out@);
        proof {
            assert(ev.take(k + 1).drop_last() =~= ev.take(k as int));
            assert(ev.take(k + 1).last() == e@);
        }
        if e.span.line > import_line_offset && e.span.line - import_line_offset <= own && (main || !asks_for_main(
            e.code,
        )) {
            let moved = CompileError {
                code: e.code,
                severity: e.severity,
                message: string_of(chars_of(e.message.as_str()).as_slice()),
                hint: string_of(chars_of(e.hint.as_str()).as_slice()),
                span: crate::ast::Span { line: e.span.line - import_line_offset, col: e.span.col },
                source_line: string_of(chars_of(e.source_line.as_str()).as_slice()),
            };
            proof {
                assert(moved@ == shifted(e@, import_line_offset));
            }
            let d = to_diagnostic(&moved);
            out.push(d);
            proof {
                assert(diags_v(out@) =~= before.push(diag_v(d)));
            }
        } else {
            proof {
                assert(diags_v(out@) =~= before + Seq::empty());
            }
        }
        k = k + 1;
    }
    proof {
        assert(ev.take(errs@.len() as int) =~= ev);
    }
    out
}

/// The diagnostic for a document whose reading stopped with the message
/// `msg`: at the place the message names (else at the start), one
/// column wide.
pub fn failure_diagnostic(msg: &str) -> (r: Diagnostic)
    ensures
        ({
            let (line, character) = match panic_position(msg@) {
                Some(p) => p,
                None => (0u32, 0u32),
            };
            diag_v(r) == (
                Range {
                    start: Position { line, character },
                    end: Position { line, character: if character < u32::MAX { (character + 1) as u32 } else { u32::MAX } },
                },
                Severity::Error,
                Seq::<char>::empty(),
                "Parse error: "@ + msg@,
            )
        }),
{
    let (line, character) = match parse_panic_position(msg) {
        Some(p) => p,
        None => (0, 0),
    };
    let mut m = chars_of("Parse error: ");
    push_str(&mut m, msg);
    proof {
        reveal_strlit("Parse error: ");
    }
    Diagnostic {
        range: Range {
            start: Position { line, character },
            end: Position { line, character: character.saturating_add(1) },
        },
        severity: Severity::Error,
        code: String::new(),
        message: string_of(m.as_slice()),
    }
}

} // verus!
