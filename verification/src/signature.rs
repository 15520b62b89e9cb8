//! Signature help: the declaration of the function whose call the cursor
//! stands in, and which of its arguments the cursor is at.
use crate::ast::{params_view, tops_v, Param, Span, TopLevel, TopLevelV, TyV};
use crate::diagnostics::{utf8_len, utf8_width};
use crate::hover::{push_ret, ret_text};
use crate::imports::{preprocess_source, preprocessed};
use crate::lexer::Lexer;
use crate::lsp::{extract_trailing_ident, trailing_word, ty_str};
use crate::parser::grammar::{fresh, sub_input};
use crate::parser::items::items_s;
use crate::parser::Parser;
use crate::shared::ty_name_of;
use crate::symbols::{byte_len, params_detail, params_text};
use crate::text::{chars_of, copy_range, line_ranges, lines, push_all, push_str, string_of, trim_end, trim_end_from};
use vstd::prelude::*;

verus! {

// ───────────────────────── where the call is ─────────────────────────

/// How many of the first characters of `l` fit in `b` bytes of UTF-8.
pub open spec fn chars_within(l: Seq<char>, b: int) -> int
    decreases l.len(),
{
    if l.len() > 0 && utf8_len(l[0]) <= b {
        1 + chars_within(l.drop_first(), b - utf8_len(l[0]))
    } else {
        0
    }
}

/// Whether the byte column `col`, cut to the length of line `line` of
/// `text`, falls between two characters of that line (a line that does
/// not exist has no such constraint).
pub open spec fn on_char_boundary(text: Seq<char>, line: int, col: int) -> bool {
    let ls = lines(text);
    0 <= line < ls.len() ==> {
        let l = ls[line];
        let b = if col < byte_len(l) {
            col
        } else {
            byte_len(l) as int
        };
        byte_len(l.take(chars_within(l, col))) == b
    }
}

/// Where `c` last occurs in `s`.
pub open spec fn last_char(s: Seq<char>, c: char) -> Option<int>
    decreases s.len(),
{
    if s.len() == 0 {
        None
    } else if s.last() == c {
        Some(s.len() - 1)
    } else {
        last_char(s.drop_last(), c)
    }
}

/// How many times `c` occurs in `s`.
pub open spec fn count_char(s: Seq<char>, c: char) -> nat
    decreases s.len(),
{
    if s.len() == 0 {
        0
    } else {
        count_char(s.drop_last(), c) + if s.last() == c {
            1nat
        } else {
            0nat
        }
    }
}

/// The call that the cursor at byte column `col` of line `line` stands
/// in: the name before the last `(` to the left of the cursor, and how
/// many commas lie between that `(` and the cursor.
pub open spec fn call_at(text: Seq<char>, line: int, col: int) -> Option<(Seq<char>, nat)> {
    let ls = lines(text);
    if 0 <= line < ls.len() {
        let l = ls[line];
        let before = l.take(chars_within(l, col));
        match last_char(before, '(') {
            Some(p) => {
                let name = trailing_word(trim_end(before.take(p)));
                if name.len() > 0 {
                    Some((name, count_char(before.skip(p + 1), ',')))
                } else {
                    None
                }
            },
            None => None,
        }
    } else {
        None
    }
}

// ───────────────────────── what is shown ─────────────────────────

/// The parameters and return type of the first function named `name`
/// among `items[k..]`.
pub open spec fn function_named(items: Seq<(TopLevelV, Span)>, k: int, name: Seq<char>) -> Option<
    (Seq<(TyV, Seq<char>)>, Option<TyV>),
>
    decreases items.len() - k,
{
    if 0 <= k < items.len() {
        match items[k].0 {
            TopLevelV::Function { name: n, params, return_ty, .. } => if n == name {
                Some((params, return_ty))
            } else {
                function_named(items, k + 1, name)
            },
            _ => function_named(items, k + 1, name),
        }
    } else {
        None
    }
}

/// A signature as offered: the function's head, each parameter as
/// `type name`, and the index of the argument at the cursor.
#[derive(Debug, Clone, PartialEq, Eq)]
pub struct SignatureHelp {
    pub label: String,
    pub parameters: Vec<String>,
    pub active_parameter: u32,
}

/// The mathematical view of a signature.
pub struct SignatureV {
    pub label: Seq<char>,
    pub parameters: Seq<Seq<char>>,
    pub active_parameter: u32,
}

impl View for SignatureHelp {
    type V = SignatureV;

    open spec fn view(&self) -> SignatureV {
        SignatureV {
            label: self.label@,
            parameters: self.parameters@.map_values(|p: String| p@),
            active_parameter: self.active_parameter,
        }
    }
}

/// A parameter as signature help lists it.
pub open spec fn param_label(p: (TyV, Seq<char>)) -> Seq<char> {
    ty_name_of(p.0) + " "@ + p.1
}

/// The signature help at byte column `col` of line `line` of `text`: the
/// first function of the file named as the call at the cursor.
pub open spec fn signature_help_at(text: Seq<char>, line: int, col: int) -> Option<SignatureV> {
    match call_at(text, line, col) {
        Some((name, commas)) => match function_named(
            items_s(sub_input(preprocessed(text), 1), fresh(), Seq::empty()).0,
            0,
            name,
        ) {
            Some((ps, ret)) => Some(
                SignatureV {
                    label: "fn "@ + name + "("@ + params_text(ps) + ")"@ + ret_text(ret),
                    parameters: ps.map_values(|p: (TyV, Seq<char>)| param_label(p)),
                    active_parameter: commas as u32,
                },
            ),
            None => None,
        },
        None => None,
    }
}

// ───────────────────────── computing it ─────────────────────────

/// Where the characters of `s[lo..hi]` that fit in `col` bytes end.
pub(crate) fn cut_at_bytes(s: &[char], lo: usize, hi: usize, col: u32) -> (r: usize)
    requires
        lo <= hi <= s@.len(),
    ensures
        lo <= r <= hi,
        r - lo == chars_within(s@.subrange(lo as int, hi as int), col as int),
{
    let ghost l = s@.subrange(lo as int, hi as int);
    let mut i = lo;
    let mut n: u64 = 0;
    proof {
        assert(l.skip(0) =~= l);
    }
    while i < hi && n + (utf8_width(s[i]) as u64) <= col as u64
        invariant
            lo <= i <= hi <= s@.len(),
            l == s@.subrange(lo as int, hi as int),
            n <= col,
            chars_within(l, col as int) == (i - lo) + chars_within(l.skip(i - lo), col - n),
        decreases hi - i,
    {
        proof {
            let t = l.skip(i - lo);
            assert(t[0] == s@[i as int]);
            assert(t.drop_first() =~= l.skip(i - lo + 1));
        }
        n = n + utf8_width(s[i]) as u64;
        i = i + 1;
    }
    proof {
        let t = l.skip(i - lo);
        if i < hi {
            assert(t[0] == s@[i as int]);
        } else {
            assert(t.len() == 0);
        }
    }
    i
}

/// Where `c` last occurs in `s[lo..hi]`, counted from `lo`.
fn last_char_in(s: &[char], lo: usize, hi: usize, c: char) -> (r: Option<usize>)
    requires
        lo <= hi <= s@.len(),
    ensures
        match r {
            Some(k) => last_char(s@.subrange(lo as int, hi as int), c) == Some(k as int) && lo + k < hi,
            None => last_char(s@.subrange(lo as int, hi as int), c) is None,
        },
{
    let mut j = hi;
    while j > lo && s[j - 1] != c
        invariant
            lo <= j <= hi <= s@.len(),
            last_char(s@.subrange(lo as int, j as int), c) == last_char(s@.subrange(lo as int, hi as int), c),
        decreases j - lo,
    {
        proof {
            assert(s@.subrange(lo as int, j as int).drop_last() =~= s@.subrange(lo as int, j - 1));
        }
        j = j - 1;
    }
    if j > lo {
        Some(j - 1 - lo)
    } else {
        None
    }
}

/// How many times `c` occurs in `s[lo..hi]`.
fn count_char_in(s: &[char], lo: usize, hi: usize, c: char) -> (r: u64)
    requires
        lo <= hi <= s@.len(),
    ensures
        r == count_char(s@.subrange(lo as int, hi as int), c),
{
    let mut n: u64 = 0;
    let mut j = lo;
    while j < hi
        invariant
            lo <= j <= hi <= s@.len(),
            n == count_char(s@.subrange(lo as int, j as int), c),
            n <= j - lo,
        decreases hi - j,
    {
        proof {
            assert(s@.subrange(lo as int, j + 1).drop_last() =~= s@.subrange(lo as int, j as int));
        }
        if s[j] == c {
            n = n + 1;
        }
        j = j + 1;
    }
    n
}

/// The head `fn name(params) -> ret` of a function.
fn signature_label(name: &str, params: &Vec<Param>, ret: &Option<crate::ast::Ty>) -> (r: String)
    ensures
        r@ == "fn "@ + name@ + "("@ + params_text(params_view(*params)) + ")"@ + ret_text(crate::ast::opt_ty_v(*ret)),
{
    let mut out: Vec<char> = Vec::new();
    push_str(&mut out, "fn ");
    push_str(&mut out, name);
    push_str(&mut out, "(");
    push_all(&mut out, params_detail(params).as_slice());
    push_str(&mut out, ")");
    push_ret(&mut out, ret);
    proof {
        reveal_strlit("fn ");
        reveal_strlit("(");
        reveal_strlit(")");
    }
    string_of(out.as_slice())
}

/// Each parameter as `type name`.
fn parameter_labels(params: &Vec<Param>) -> (r: Vec<String>)
    ensures
        r@.map_values(|p: String| p@) == params_view(*params).map_values(|p: (TyV, Seq<char>)| param_label(p)),
{
    let ghost ps = params_view(*params);
    let mut out: Vec<String> = Vec::new();
    let mut i: usize = 0;
    while i < params.len()
        invariant
            i <= params@.len(),
            ps == params_view(*params),
            out@.map_values(|p: String| p@) == ps.take(i as int).map_values(|p: (TyV, Seq<char>)| param_label(p)),
        decreases params@.len() - i,
    {
        let mut v: Vec<char> = Vec::new();
        push_str(&mut v, ty_str(&params[i].ty).as_str());
        push_str(&mut v, " ");
        push_str(&mut v, params[i].name.as_str());
        let ghost before = out@.map_values(|p: String| p@);
        out.push(string_of(v.as_slice()));
        proof {
            reveal_strlit(" ");
            assert(ps[i as int] == (params@[i as int].ty@, params@[i as int].name@));
            assert(v@ =~= param_label(ps[i as int]));
            assert(out@.map_values(|p: String| p@) =~= before.push(v@));
            assert(ps.take(i + 1).map_values(|p: (TyV, Seq<char>)| param_label(p)) =~= ps.take(i as int).map_values(
                |p: (TyV, Seq<char>)| param_label(p),
            ).push(param_label(ps[i as int])));
        }
        i = i + 1;
    }
    proof {
        assert(ps.take(params@.len() as int) =~= ps);
    }
    out
}

/// The call at the cursor: the called name and the commas before the
/// cursor (see `call_at`).
fn call_under_cursor(text: &str, line: u32, character: u32) -> (r: Option<(String, u64)>)
    ensures
        match r {
            Some((name, commas)) => call_at(text@, line as int, character as int) == Some((name@, commas as nat)),
            None => call_at(text@, line as int, character as int) is None,
        },
{
    let s = chars_of(text);
    let rs = line_ranges(s.as_slice());
    let li = line as usize;
    if li >= rs.len() {
        return None;
    }
    let (lo, hi) = rs[li];
    let ghost l = s@.subrange(lo as int, hi as int);
    proof {
        assert(lines(text@)[li as int] == l);
    }
    let cut = cut_at_bytes(s.as_slice(), lo, hi, character);
    let ghost before = l.take(cut - lo);
    proof {
        assert(before =~= s@.subrange(lo as int, cut as int));
    }
    match last_char_in(s.as_slice(), lo, cut, '(') {
        Some(p) => {
            let e = trim_end_from(s.as_slice(), lo, lo + p);
            let piece = string_of(copy_range(s.as_slice(), lo, e).as_slice());
            let name = extract_trailing_ident(piece.as_str());
            proof {
                assert(before.take(p as int) =~= s@.subrange(lo as int, lo + p));
                assert(piece@ =~= trim_end(before.take(p as int)));
                assert(before.skip(p + 1) =~= s@.subrange(lo + p + 1, cut as int));
            }
            if chars_of(name.as_str()).len() == 0 {
                return None;
            }
            let commas = count_char_in(s.as_slice(), lo + p + 1, cut, ',');
            Some((name, commas))
        },
        None => None,
    }
}

/// The signature help at `line` and byte column `character` of `text`
/// (see `signature_help_at`).
pub fn compute_signature_help(text: &str, line: u32, character: u32) -> (r: Option<SignatureHelp>)
    requires
        on_char_boundary(text@, line as int, character as int),
        preprocessed(text@).len() < usize::MAX,
    ensures
        match r {
            Some(h) => signature_help_at(text@, line as int, character as int) == Some(h@),
            None => signature_help_at(text@, line as int, character as int) is None,
        },
{
    let (name, commas) = match call_under_cursor(text, line, character) {
        Some(c) => c,
        None => {
            return None;
        },
    };
    let src = preprocess_source(text);
    let mut lx = Lexer::new(src.as_str());
    let toks = lx.tokenize();
    let mut p = Parser::new(toks);
    proof {
        assert(p.input().toks =~= sub_input(src@, 1).toks);
        assert(p.input().lines =~= sub_input(src@, 1).lines);
        assert(p.input().cols =~= sub_input(src@, 1).cols);
        assert(p.input() == sub_input(src@, 1));
        assert(p.state() == fresh());
    }
    let ast = p.parse();
    let ghost iv = tops_v(ast.items);
    let mut k: usize = 0;
    while k < ast.items.len()
        invariant
            k <= ast.items@.len(),
            iv == tops_v(ast.items),
            iv == items_s(sub_input(preprocessed(text@), 1), fresh(), Seq::empty()).0,
            function_named(iv, k as int, name@) == function_named(iv, 0, name@),
            call_at(text@, line as int, character as int) == Some((name@, commas as nat)),
        decreases ast.items@.len() - k,
    {
        proof {
            assert(iv[k as int].0 == crate::ast::top_v(ast.items@[k as int].0));
        }
        match &ast.items[k].0 {
            TopLevel::Function { name: n, params, return_ty, .. } => {
                if crate::hover::same_text(n.as_str(), name.as_str()) {
                    let label = signature_label(name.as_str(), params, return_ty);
                    let parameters = parameter_labels(params);
                    let active: u32 = #[verifier::truncate] (commas as u32);
                    let r = SignatureHelp { label, parameters, active_parameter: active };
                    proof {
                        assert(function_named(iv, k as int, name@) == Some(
                            (params_view(*params), crate::ast::opt_ty_v(*return_ty)),
                        ));
                    }
                    return Some(r);
                }
            },
            _ => {},
        }
        k = k + 1;
    }
    None
}

} // verus!
