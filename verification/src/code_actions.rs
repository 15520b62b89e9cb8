//! Quick fixes for diagnostics: declaring an undeclared variable, creating
//! a stub for an undeclared function, and renaming an unused variable to
//! start with `_`.
use crate::lsp::{
    extract_undeclared_fn, extract_undeclared_var, extract_unused_var, find_insert_line_for_fn, indentation,
    indentation_at, insert_line, quoted_ident, word_len, word_prefix,
};
use crate::diagnostics::Severity;
use crate::references::{find_references, refs_from, TextEdit};
use crate::symbols::{Position, Range};
use crate::text::{chars_of, lines, push_str, string_of};
use vstd::prelude::*;

verus! {

/// A diagnostic as the editor has it: where it is, how serious it is,
/// its code and its message.
#[derive(Debug, Clone, PartialEq, Eq)]
pub struct Diagnostic {
    pub range: Range,
    pub severity: Severity,
    pub code: String,
    pub message: String,
}

/// A quick fix: its title, the diagnostic it fixes (by its place in the
/// list it came from), its edits, and whether it is the one to prefer.
#[derive(Debug, Clone, PartialEq, Eq)]
pub struct CodeAction {
    pub title: String,
    pub diagnostic: usize,
    pub edits: Vec<TextEdit>,
    pub is_preferred: bool,
}

/// The view of a quick fix.
pub struct ActionV {
    pub title: Seq<char>,
    pub diagnostic: int,
    pub edits: Seq<(Range, Seq<char>)>,
    pub is_preferred: bool,
}

/// The view of a quick fix.
pub open spec fn action_v(a: CodeAction) -> ActionV {
    ActionV {
        title: a.title@,
        diagnostic: a.diagnostic as int,
        edits: a.edits@.map_values(|e: TextEdit| (e.range, e.new_text@)),
        is_preferred: a.is_preferred,
    }
}

/// The view of a diagnostic: its range, code and message.
pub open spec fn diag_v(d: Diagnostic) -> (Range, Seq<char>, Seq<char>) {
    (d.range, d.code@, d.message@)
}

/// Whether the lines of `a` and `b` overlap.
pub open spec fn overlaps(a: Range, b: Range) -> bool {
    a.start.line <= b.end.line && b.start.line <= a.end.line
}

/// An empty range at the start of line `l`.
pub open spec fn line_start(l: u32) -> Range {
    Range { start: Position { line: l, character: 0 }, end: Position { line: l, character: 0 } }
}

/// Each reference to `old` in `text` replaced by `new`.
pub open spec fn rename_edits(text: Seq<char>, old: Seq<char>, new: Seq<char>) -> Seq<(Range, Seq<char>)> {
    refs_from(lines(text), old, 0).map_values(|r: Range| (r, new))
}

/// The quick fix for diagnostic `d` (number `idx`) of `text`, if it lies
/// on the lines of `req` and has one.
pub open spec fn action_of(text: Seq<char>, d: (Range, Seq<char>, Seq<char>), idx: int, req: Range) -> Option<ActionV> {
    if !overlaps(d.0, req) {
        None
    } else if d.1 == "E004"@ {
        match quoted_ident(d.2) {
            Some(v) => Some(
                ActionV {
                    title: "Declare 'int "@ + v + " = 0'"@,
                    diagnostic: idx,
                    edits: seq![
                        (
                            line_start(d.0.start.line),
                            indentation(text, d.0.start.line as int) + "int "@ + v + " = 0;\n"@,
                        ),
                    ],
                    is_preferred: true,
                },
            ),
            None => None,
        }
    } else if d.1 == "E013"@ {
        match quoted_ident(d.2) {
            Some(f) => Some(
                ActionV {
                    title: "Create function '"@ + f + "'"@,
                    diagnostic: idx,
                    edits: seq![
                        (
                            line_start(insert_line(lines(text), d.0.start.line as nat) as u32),
                            "\nfn "@ + f + "() {\n    // TODO\n}\n"@,
                        ),
                    ],
                    is_preferred: false,
                },
            ),
            None => None,
        }
    } else if d.1 == "W001"@ {
        match quoted_ident(d.2) {
            Some(v) => {
                let edits = rename_edits(text, v, "_"@ + v);
                if edits.len() == 0 {
                    None
                } else {
                    Some(
                        ActionV {
                            title: "Rename to '_"@ + v + "' (suppress warning)"@,
                            diagnostic: idx,
                            edits,
                            is_preferred: false,
                        },
                    )
                }
            },
            None => None,
        }
    } else {
        None
    }
}

/// The quick fixes for the first `n` of `ds`, in order.
pub open spec fn actions_of(text: Seq<char>, ds: Seq<(Range, Seq<char>, Seq<char>)>, req: Range, n: int) -> Seq<ActionV>
    decreases n,
{
    if n <= 0 || n > ds.len() {
        Seq::empty()
    } else {
        actions_of(text, ds, req, n - 1) + match action_of(text, ds[n - 1], n - 1, req) {
            Some(a) => seq![a],
            None => Seq::empty(),
        }
    }
}

/// The identifier that starts a text is no longer than it.
proof fn lemma_word_len_le(s: Seq<char>)
    ensures
        word_len(s) <= s.len(),
    decreases s.len(),
{
    if s.len() > 0 && crate::text::is_word_char(s[0]) {
        lemma_word_len_le(s.drop_first());
    }
}

/// Each reference to `old` in `text` replaced by `new` (see
/// `rename_edits`); `None` when there is none.
pub fn rename_in_text(text: &str, old: &str, new: &str) -> (r: Option<Vec<TextEdit>>)
    requires
        old@.len() > 0,
    ensures
        match r {
            Some(v) => v@.map_values(|e: TextEdit| (e.range, e.new_text@)) == rename_edits(text@, old@, new@) && v@.len()
                > 0,
            None => rename_edits(text@, old@, new@).len() == 0,
        },
{
    let refs = find_references(text, old);
    if refs.len() == 0 {
        return None;
    }
    let mut out: Vec<TextEdit> = Vec::new();
    let mut i: usize = 0;
    while i < refs.len()
        invariant
            i <= refs@.len(),
            refs@ == refs_from(lines(text@), old@, 0),
            out@.map_values(|e: TextEdit| (e.range, e.new_text@)) =~= refs@.take(i as int).map_values(
                |r: Range| (r, new@),
            ),
        decreases refs@.len() - i,
    {
        let ghost before = out@.map_values(|e: TextEdit| (e.range, e.new_text@));
        out.push(TextEdit { range: refs[i], new_text: new.to_owned() });
        proof {
            assert(refs@.take(i + 1).map_values(|r: Range| (r, new@)) =~= refs@.take(i as int).map_values(
                |r: Range| (r, new@),
            ).push((refs@[i as int], new@)));
            assert(out@.map_values(|e: TextEdit| (e.range, e.new_text@)) =~= before.push((refs@[i as int], new@)));
        }
        i = i + 1;
    }
    proof {
        assert(refs@.take(refs@.len() as int) =~= refs@);
    }
    Some(out)
}

/// Whether the texts `a` and `b` are the same.
fn is_code(a: &str, b: &str) -> (r: bool)
    ensures
        r == (a@ == b@),
{
    crate::hover::same_text(a, b)
}

/// The quick fix for diagnostic `d` (number `idx`) of `text` (see
/// `action_of`).
fn action_for(text: &str, d: &Diagnostic, idx: usize, req: Range) -> (r: Option<CodeAction>)
    ensures
        match r {
            Some(a) => action_of(text@, diag_v(*d), idx as int, req) == Some(action_v(a)),
            None => action_of(text@, diag_v(*d), idx as int, req) is None,
        },
{
    if !(d.range.start.line <= req.end.line && req.start.line <= d.range.end.line) {
        return None;
    }
    let at = d.range.start.line;
    if is_code(d.code.as_str(), "E004") {
        match extract_undeclared_var(d.message.as_str()) {
            Some(v) => {
                let mut t = chars_of("Declare 'int ");
                push_str(&mut t, v.as_str());
                push_str(&mut t, " = 0'");
                let mut n = chars_of(indentation_at(text, at as usize).as_str());
                push_str(&mut n, "int ");
                push_str(&mut n, v.as_str());
                push_str(&mut n, " = 0;\n");
                let mut edits: Vec<TextEdit> = Vec::new();
                edits.push(TextEdit { range: line_start_range(at), new_text: string_of(n.as_slice()) });
                let a = CodeAction { title: string_of(t.as_slice()), diagnostic: idx, edits, is_preferred: true };
                proof {
                    assert(action_v(a).edits =~= seq![
                        (line_start(at), indentation(text@, at as int) + "int "@ + v@ + " = 0;\n"@),
                    ]);
                }
                Some(a)
            },
            None => None,
        }
    } else if is_code(d.code.as_str(), "E013") {
        match extract_undeclared_fn(d.message.as_str()) {
            Some(f) => {
                let mut t = chars_of("Create function '");
                push_str(&mut t, f.as_str());
                push_str(&mut t, "'");
                let mut n = chars_of("\nfn ");
                push_str(&mut n, f.as_str());
                push_str(&mut n, "() {\n    // TODO\n}\n");
                let line = find_insert_line_for_fn(text, at);
                let mut edits: Vec<TextEdit> = Vec::new();
                edits.push(TextEdit { range: line_start_range(line), new_text: string_of(n.as_slice()) });
                let a = CodeAction { title: string_of(t.as_slice()), diagnostic: idx, edits, is_preferred: false };
                proof {
                    assert(action_v(a).edits =~= seq![
                        (
                            line_start(insert_line(lines(text@), at as nat) as u32),
                            "\nfn "@ + f@ + "() {\n    // TODO\n}\n"@,
                        ),
                    ]);
                }
                Some(a)
            },
            None => None,
        }
    } else if is_code(d.code.as_str(), "W001") {
        match extract_unused_var(d.message.as_str()) {
            Some(v) => {
                proof {
                    let p = crate::lsp::quoted_piece(d.message@)->Some_0;
                    lemma_word_len_le(p);
                }
                let mut nn = chars_of("_");
                push_str(&mut nn, v.as_str());
                let new_name = string_of(nn.as_slice());
                match rename_in_text(text, v.as_str(), new_name.as_str()) {
                    Some(edits) => {
                        let mut t = chars_of("Rename to '");
                        push_str(&mut t, new_name.as_str());
                        push_str(&mut t, "' (suppress warning)");
                        let a = CodeAction {
                            title: string_of(t.as_slice()),
                            diagnostic: idx,
                            edits,
                            is_preferred: false,
                        };
                        proof {
                            reveal_strlit("Rename to '");
                            reveal_strlit("_");
                            reveal_strlit("Rename to '_");
                            assert(action_v(a).title =~= "Rename to '_"@ + v@ + "' (suppress warning)"@);
                        }
                        Some(a)
                    },
                    None => None,
                }
            },
            None => None,
        }
    } else {
        None
    }
}

/// An empty range at the start of line `l` (see `line_start`).
fn line_start_range(l: u32) -> (r: Range)
    ensures
        r == line_start(l),
{
    Range { start: Position { line: l, character: 0 }, end: Position { line: l, character: 0 } }
}

/// The quick fixes for the diagnostics `diags` of `text` that lie on the
/// lines of `range` (see `actions_of`).
pub fn compute_code_actions(text: &str, diags: &Vec<Diagnostic>, range: Range) -> (r: Vec<CodeAction>)
    ensures
        r@.map_values(|a: CodeAction| action_v(a)) == actions_of(
            text@,
            diags@.map_values(|d: Diagnostic| diag_v(d)),
            range,
            diags@.len() as int,
        ),
{
    let ghost dv = diags@.map_values(|d: Diagnostic| diag_v(d));
    let mut out: Vec<CodeAction> = Vec::new();
    let mut i: usize = 0;
    proof {
        assert(out@.map_values(|a: CodeAction| action_v(a)) =~= actions_of(text@, dv, range, 0));
    }
    while i < diags.len()
        invariant
            i <= diags@.len(),
            dv == diags@.map_values(|d: Diagnostic| diag_v(d)),
            out@.map_values(|a: CodeAction| action_v(a)) == actions_of(text@, dv, range, i as int),
        decreases diags@.len() - i,
    {
        let ghost before = out@.map_values(|a: CodeAction| action_v(a));
        proof {
            assert(dv[i as int] == diag_v(diags@[i as int]));
        }
        match action_for(text, &diags[i], i, range) {
            Some(a) => {
                out.push(a);
            },
            None => {},
        }
        proof {
            assert(out@.map_values(|a: CodeAction| action_v(a)) =~= actions_of(text@, dv, range, i + 1));
        }
        i = i + 1;
    }
    out
}

} // verus!
