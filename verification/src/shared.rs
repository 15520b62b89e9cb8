//! Helpers of the semantic analysis: type names, type classes, type
//! compatibility, edit distance and name suggestions, diagnostics.
use vstd::prelude::*;

use crate::ast::{ty_view, Ty, TyV};
use crate::text::{chars_of, push_str, string_of};

verus! {

// ───────────────────────── type names ─────────────────────────

/// The name of a type as diagnostics write it: `int`, `u8[]`, `Point`,
/// `fn(int, bool) -> int`, `fn() -> void`.
pub open spec fn ty_name_of(t: TyV) -> Seq<char>
    decreases t,
{
    match t {
        TyV::Int => "int"@,
        TyV::Float => "float"@,
        TyV::String => "string"@,
        TyV::Bool => "bool"@,
        TyV::I8 => "i8"@,
        TyV::I16 => "i16"@,
        TyV::I32 => "i32"@,
        TyV::I64 => "i64"@,
        TyV::U8 => "u8"@,
        TyV::U16 => "u16"@,
        TyV::U32 => "u32"@,
        TyV::U64 => "u64"@,
        TyV::Array(inner) => ty_name_of(*inner) + "[]"@,
        TyV::Struct(n) => n,
        TyV::Auto => "auto"@,
        TyV::Enum(n) => n,
        TyV::TypeParam(n) => n,
        TyV::Fn(ps, ret) => "fn("@ + ty_names_joined(ps) + ") -> "@ + match ret {
            Some(r) => ty_name_of(*r),
            None => "void"@,
        },
    }
}

/// The names of `ps`, with `", "` between each two.
pub open spec fn ty_names_joined(ps: Seq<TyV>) -> Seq<char>
    decreases ps,
{
    if ps.len() == 0 {
        Seq::empty()
    } else if ps.len() == 1 {
        ty_name_of(ps[0])
    } else {
        proof {
            assert(decreases_to!(ps => ps.drop_last()));
        }
        ty_names_joined(ps.drop_last()) + ", "@ + ty_name_of(ps.last())
    }
}

pub fn push_ty_name(out: &mut Vec<char>, t: &Ty)
    ensures
        final(out)@ == old(out)@ + ty_name_of(t@),
    decreases t,
{
    match t {
        Ty::Int => push_str(out, "int"),
        Ty::Float => push_str(out, "float"),
        Ty::String => push_str(out, "string"),
        Ty::Bool => push_str(out, "bool"),
        Ty::I8 => push_str(out, "i8"),
        Ty::I16 => push_str(out, "i16"),
        Ty::I32 => push_str(out, "i32"),
        Ty::I64 => push_str(out, "i64"),
        Ty::U8 => push_str(out, "u8"),
        Ty::U16 => push_str(out, "u16"),
        Ty::U32 => push_str(out, "u32"),
        Ty::U64 => push_str(out, "u64"),
        Ty::Array(inner) => {
            push_ty_name(out, inner);
            push_str(out, "[]");
            assert(out@ =~= old(out)@ + ty_name_of(t@));
        },
        Ty::Struct(n) => push_str(out, n.as_str()),
        Ty::Auto => push_str(out, "auto"),
        Ty::Enum(n) => push_str(out, n.as_str()),
        Ty::TypeParam(n) => push_str(out, n.as_str()),
        Ty::Fn(ps, ret) => {
            let ghost o0 = out@;
            push_str(out, "fn(");
            let ghost o1 = out@;
            let ghost vps = ty_view(*t)->Fn_0;
            let mut i: usize = 0;
            while i < ps.len()
                invariant
                    *t == Ty::Fn(*ps, *ret),
                    vps == ty_view(*t)->Fn_0,
                    vps.len() == ps@.len(),
                    forall|j: int| 0 <= j < ps@.len() ==> #[trigger] vps[j] == ty_view(ps@[j]),
                    i <= ps@.len(),
                    out@ == o1 + ty_names_joined(vps.take(i as int)),
                decreases ps@.len() - i,
            {
                if i > 0 {
                    push_str(out, ", ");
                }
                proof {
                    vstd::std_specs::vec::axiom_vec_index_decreases(*ps, i as int);
                    assert(decreases_to!(*t => (*t)->Fn_0));
                }
                push_ty_name(out, &ps[i]);
                proof {
                    let pre = vps.take(i + 1);
                    assert(pre.drop_last() =~= vps.take(i as int));
                    assert(pre.last() == ty_view(ps@[i as int]));
                    if i == 0 {
                        assert(ty_names_joined(pre) == ty_name_of(pre[0]));
                    }
                    assert(out@ =~= o1 + ty_names_joined(pre));
                }
                i = i + 1;
            }
            assert(vps.take(ps@.len() as int) =~= vps);
            push_str(out, ") -> ");
            match ret {
                Some(r) => push_ty_name(out, r),
                None => push_str(out, "void"),
            }
            proof {
                assert(out@ =~= o0 + ty_name_of(t@));
            }
        },
    }
}

/// The name of a type as diagnostics write it.
pub fn ty_name(ty: &Ty) -> (r: String)
    ensures
        r@ == ty_name_of(ty@),
{
    let mut v: Vec<char> = Vec::new();
    push_ty_name(&mut v, ty);
    assert(v@ =~= ty_name_of(ty@));
    string_of(v.as_slice())
}

// ───────────────────────── type classes ─────────────────────────

/// The integer types: `int`, `i8` .. `i64`, `u8` .. `u64`.
pub open spec fn is_integer(t: TyV) -> bool {
    matches!(t, TyV::Int | TyV::I8 | TyV::I16 | TyV::I32 | TyV::I64 | TyV::U8 | TyV::U16 | TyV::U32 | TyV::U64)
}

pub fn is_integer_ty(ty: &Ty) -> (r: bool)
    ensures
        r == is_integer(ty@),
{
    match ty {
        Ty::Int | Ty::I8 | Ty::I16 | Ty::I32 | Ty::I64 | Ty::U8 | Ty::U16 | Ty::U32 | Ty::U64 => true,
        _ => false,
    }
}

/// The integer types and `float`.
pub fn is_numeric_ty(ty: &Ty) -> (r: bool)
    ensures
        r == (is_integer(ty@) || ty@ == TyV::Float),
{
    is_integer_ty(ty) || matches!(ty, Ty::Float)
}

/// Whether two types are the same type.
pub fn ty_eq(a: &Ty, b: &Ty) -> (r: bool)
    ensures
        r == (a@ == b@),
    decreases a,
{
    match a {
        Ty::Int => match b {
            Ty::Int => true,
            _ => false,
        },
        Ty::Float => match b {
            Ty::Float => true,
            _ => false,
        },
        Ty::String => match b {
            Ty::String => true,
            _ => false,
        },
        Ty::Bool => match b {
            Ty::Bool => true,
            _ => false,
        },
        Ty::I8 => match b {
            Ty::I8 => true,
            _ => false,
        },
        Ty::I16 => match b {
            Ty::I16 => true,
            _ => false,
        },
        Ty::I32 => match b {
            Ty::I32 => true,
            _ => false,
        },
        Ty::I64 => match b {
            Ty::I64 => true,
            _ => false,
        },
        Ty::U8 => match b {
            Ty::U8 => true,
            _ => false,
        },
        Ty::U16 => match b {
            Ty::U16 => true,
            _ => false,
        },
        Ty::U32 => match b {
            Ty::U32 => true,
            _ => false,
        },
        Ty::U64 => match b {
            Ty::U64 => true,
            _ => false,
        },
        Ty::Auto => match b {
            Ty::Auto => true,
            _ => false,
        },
        Ty::Array(x) => match b {
            Ty::Array(y) => {
                let r = ty_eq(x, y);
                assert(r == (a@ == b@));
                r
            },
            _ => false,
        },
        Ty::Struct(x) => match b {
            Ty::Struct(y) => {
                let r = *x == *y;
                assert(r == (a@ == b@));
                r
            },
            _ => false,
        },
        Ty::Enum(x) => match b {
            Ty::Enum(y) => *x == *y,
            _ => false,
        },
        Ty::TypeParam(x) => match b {
            Ty::TypeParam(y) => *x == *y,
            _ => false,
        },
        Ty::Fn(xs, xr) => match b {
            Ty::Fn(ys, yr) => fn_ty_eq(a, b, xs, xr, ys, yr),
            _ => false,
        },
    }
}

/// Whether two function types are the same type.
fn fn_ty_eq(
    a: &Ty,
    b: &Ty,
    xs: &Vec<Ty>,
    xr: &Option<Box<Ty>>,
    ys: &Vec<Ty>,
    yr: &Option<Box<Ty>>,
) -> (r: bool)
    requires
        *a == Ty::Fn(*xs, *xr),
        *b == Ty::Fn(*ys, *yr),
    ensures
        r == (a@ == b@),
    decreases a, 0nat,
{
    let ghost av = ty_view(*a);
    let ghost bv = ty_view(*b);
    if xs.len() != ys.len() {
        proof {
            if a@ == b@ {
                assert(av->Fn_0.len() == bv->Fn_0.len());
            }
        }
        return false;
    }
    let mut i: usize = 0;
    while i < xs.len()
        invariant
            *a == Ty::Fn(*xs, *xr),
            *b == Ty::Fn(*ys, *yr),
            av == ty_view(*a),
            bv == ty_view(*b),
            xs@.len() == ys@.len(),
            i <= xs@.len(),
            forall|j: int| 0 <= j < i ==> ty_view(#[trigger] xs@[j]) == ty_view(ys@[j]),
        decreases xs@.len() - i,
    {
        proof {
            vstd::std_specs::vec::axiom_vec_index_decreases(*xs, i as int);
            assert(decreases_to!(*a => (*a)->Fn_0));
        }
        if !ty_eq(&xs[i], &ys[i]) {
            proof {
                if a@ == b@ {
                    assert(av->Fn_0[i as int] == bv->Fn_0[i as int]);
                }
            }
            return false;
        }
        i = i + 1;
    }
    proof {
        assert(av->Fn_0 =~= bv->Fn_0);
    }
    match xr {
        Some(x) => match yr {
            Some(y) => {
                let r = ty_eq(x, y);
                proof {
                    if a@ == b@ {
                        assert(av->Fn_1 == bv->Fn_1);
                    }
                    if r {
                        assert(av->Fn_1 == bv->Fn_1);
                    }
                }
                r
            },
            None => {
                proof {
                    if a@ == b@ {
                        assert(av->Fn_1 == bv->Fn_1);
                    }
                }
                false
            },
        },
        None => match yr {
            Some(y) => {
                proof {
                    if a@ == b@ {
                        assert(av->Fn_1 == bv->Fn_1);
                    }
                }
                false
            },
            None => true,
        },
    }
}

/// Whether a value of type `got` may stand where `expected` is wanted.
pub open spec fn compatible(expected: TyV, got: TyV) -> bool {
    ||| expected == got
    ||| (got == TyV::Int && is_integer(expected))
    ||| (expected == TyV::Int && got == TyV::I64)
    ||| (expected == TyV::I64 && got == TyV::Int)
}

/// Whether a value of type `got` may stand where `expected` is wanted: the
/// same type, an `int` where any integer type is wanted, or `i64` for `int`.
pub fn types_compatible(expected: &Ty, got: &Ty) -> (r: bool)
    ensures
        r == compatible(expected@, got@),
{
    if ty_eq(expected, got) {
        return true;
    }
    if matches!(got, Ty::Int) && is_integer_ty(expected) {
        return true;
    }
    if (matches!(expected, Ty::Int) && matches!(got, Ty::I64)) || (matches!(expected, Ty::I64)
        && matches!(got, Ty::Int)) {
        return true;
    }
    false
}

/// The range of values of an integer type, `None` for the other types.
pub open spec fn range_of(t: TyV) -> Option<(int, int)> {
    match t {
        TyV::I8 => Some((-128, 127)),
        TyV::I16 => Some((-32768, 32767)),
        TyV::I32 => Some((-2147483648, 2147483647)),
        TyV::I64 | TyV::Int => Some((-9223372036854775808, 9223372036854775807)),
        TyV::U8 => Some((0, 255)),
        TyV::U16 => Some((0, 65535)),
        TyV::U32 => Some((0, 4294967295)),
        TyV::U64 => Some((0, 18446744073709551615)),
        _ => None,
    }
}

/// The range of values of an integer type, `None` for the other types.
pub fn int_range(ty: &Ty) -> (r: Option<(i128, i128)>)
    ensures
        match r {
            Some((lo, hi)) => range_of(ty@) == Some((lo as int, hi as int)),
            None => range_of(ty@) is None,
        },
{
    match ty {
        Ty::I8 => Some((-128, 127)),
        Ty::I16 => Some((-32768, 32767)),
        Ty::I32 => Some((-2147483648, 2147483647)),
        Ty::I64 | Ty::Int => Some((-9223372036854775808, 9223372036854775807)),
        Ty::U8 => Some((0, 255)),
        Ty::U16 => Some((0, 65535)),
        Ty::U32 => Some((0, 4294967295)),
        Ty::U64 => Some((0, 18446744073709551615)),
        _ => None,
    }
}

// ───────────────────────── edit distance ─────────────────────────

pub open spec fn min3(a: nat, b: nat, c: nat) -> nat {
    if a <= b && a <= c {
        a
    } else if b <= c {
        b
    } else {
        c
    }
}

/// The Levenshtein distance: the fewest single-character insertions,
/// deletions and substitutions that turn `a` into `b`.
pub open spec fn edit_distance(a: Seq<char>, b: Seq<char>) -> nat
    decreases a.len() + b.len(),
{
    if a.len() == 0 {
        b.len()
    } else if b.len() == 0 {
        a.len()
    } else {
        min3(
            edit_distance(a.drop_last(), b) + 1,
            edit_distance(a, b.drop_last()) + 1,
            edit_distance(a.drop_last(), b.drop_last()) + (if a.last() == b.last() {
                0nat
            } else {
                1nat
            }),
        )
    }
}

pub proof fn lemma_edit_distance_bound(a: Seq<char>, b: Seq<char>)
    ensures
        edit_distance(a, b) <= if a.len() >= b.len() {
            a.len()
        } else {
            b.len()
        },
    decreases a.len() + b.len(),
{
    if a.len() > 0 && b.len() > 0 {
        lemma_edit_distance_bound(a.drop_last(), b.drop_last());
    }
}

/// A text is at distance 0 from itself.
pub proof fn lemma_edit_distance_self(a: Seq<char>)
    ensures
        edit_distance(a, a) == 0,
    decreases a.len(),
{
    if a.len() > 0 {
        lemma_edit_distance_self(a.drop_last());
    }
}

/// The edit distance does not depend on the order of the two texts.
pub proof fn lemma_edit_distance_symmetric(a: Seq<char>, b: Seq<char>)
    ensures
        edit_distance(a, b) == edit_distance(b, a),
    decreases a.len() + b.len(),
{
    if a.len() > 0 && b.len() > 0 {
        lemma_edit_distance_symmetric(a.drop_last(), b);
        lemma_edit_distance_symmetric(a, b.drop_last());
        lemma_edit_distance_symmetric(a.drop_last(), b.drop_last());
    }
}

/// The edit distance of `a` and `b`, by the row-by-row table.
fn levenshtein(a: &[char], b: &[char]) -> (d: usize)
    requires
        a@.len() < usize::MAX,
        b@.len() < usize::MAX,
    ensures
        d == edit_distance(a@, b@),
{
    let n = b.len();
    let mut dp: Vec<usize> = Vec::new();
    let mut j: usize = 0;
    while j <= n
        invariant
            n == b@.len(),
            n < usize::MAX,
            j <= n + 1,
            dp@.len() == j,
            forall|k: int| 0 <= k < j ==> #[trigger] dp@[k] == k,
        decreases n + 1 - j,
    {
        dp.push(j);
        j = j + 1;
    }
    proof {
        assert forall|k: int| 0 <= k <= n implies #[trigger] dp@[k] == edit_distance(
            a@.take(0),
            b@.take(k),
        ) by {
            assert(a@.take(0).len() == 0);
        }
    }
    let mut i: usize = 0;
    while i < a.len()
        invariant
            n == b@.len(),
            n < usize::MAX,
            i <= a@.len(),
            a@.len() < usize::MAX,
            dp@.len() == n + 1,
            forall|k: int| 0 <= k <= n ==> #[trigger] dp@[k] == edit_distance(
                a@.take(i as int),
                b@.take(k),
            ),
        decreases a@.len() - i,
    {
        let ghost ai = a@.take(i as int);
        let ghost ai1 = a@.take(i + 1);
        proof {
            assert(ai1.drop_last() =~= ai);
            assert(ai1.last() == a@[i as int]);
            assert(b@.take(0).len() == 0);
            assert(dp@[0] == edit_distance(ai, b@.take(0)));
        }
        let ca = a[i];
        let mut prev = dp[0];
        dp.set(0, i + 1);
        let mut j: usize = 0;
        while j < n
            invariant
                n == b@.len(),
                n < usize::MAX,
                i < a@.len(),
                a@.len() < usize::MAX,
                ai == a@.take(i as int),
                ai1 == a@.take(i + 1),
                ai1.drop_last() == ai,
                ai1.last() == ca,
                j <= n,
                dp@.len() == n + 1,
                prev == edit_distance(ai, b@.take(j as int)),
                forall|k: int| 0 <= k <= j ==> #[trigger] dp@[k] == edit_distance(ai1, b@.take(k)),
                forall|k: int| j < k <= n ==> #[trigger] dp@[k] == edit_distance(ai, b@.take(k)),
            decreases n - j,
        {
            let ghost bj = b@.take(j as int);
            let ghost bj1 = b@.take(j + 1);
            proof {
                assert(bj1.drop_last() =~= bj);
                assert(bj1.last() == b@[j as int]);
                lemma_edit_distance_bound(ai, bj1);
                lemma_edit_distance_bound(ai1, bj);
                lemma_edit_distance_bound(ai, bj);
                assert(dp@[j + 1] == edit_distance(ai, b@.take(j + 1)));
                assert(dp@[j as int] == edit_distance(ai1, b@.take(j as int)));
                assert(ai.len() == i && ai1.len() == i + 1 && bj.len() == j && bj1.len() == j + 1);
                assert(dp@[j + 1] + 1 <= usize::MAX);
                assert(dp@[j as int] + 1 <= usize::MAX);
                assert(prev + 1 <= usize::MAX);
            }
            let tmp = dp[j + 1];
            let cost: usize = if ca == b[j] {
                0
            } else {
                1
            };
            let del = dp[j + 1] + 1;
            let ins = dp[j] + 1;
            let sub = prev + cost;
            let m = if del <= ins && del <= sub {
                del
            } else if ins <= sub {
                ins
            } else {
                sub
            };
            dp.set(j + 1, m);
            proof {
                assert(edit_distance(ai1, bj1) == min3(
                    edit_distance(ai, bj1) + 1,
                    edit_distance(ai1, bj) + 1,
                    edit_distance(ai, bj) + (if ca == b@[j as int] {
                        0nat
                    } else {
                        1nat
                    }),
                ));
            }
            prev = tmp;
            j = j + 1;
        }
        i = i + 1;
    }
    proof {
        assert(a@.take(a@.len() as int) =~= a@);
        assert(b@.take(n as int) =~= b@);
    }
    dp[n]
}

/// Whether the closest candidate is `candidates[i]`: within distance 2 of
/// `target`, no candidate closer, and no earlier candidate as close.
pub open spec fn is_nearest(target: Seq<char>, candidates: Seq<Seq<char>>, i: int) -> bool {
    &&& 0 <= i < candidates.len()
    &&& edit_distance(target, candidates[i]) <= 2
    &&& forall|j: int|
        0 <= j < candidates.len() ==> edit_distance(target, #[trigger] candidates[j])
            >= edit_distance(target, candidates[i])
    &&& forall|j: int|
        0 <= j < i ==> edit_distance(target, #[trigger] candidates[j]) > edit_distance(
            target,
            candidates[i],
        )
}

/// The candidate closest to `target` (see `is_nearest`), if any.
pub open spec fn nearest(target: Seq<char>, candidates: Seq<Seq<char>>) -> Option<Seq<char>> {
    if exists|i: int| is_nearest(target, candidates, i) {
        Some(candidates[choose|i: int| is_nearest(target, candidates, i)])
    } else {
        None
    }
}

/// At most one candidate is the closest.
pub proof fn lemma_nearest_unique(target: Seq<char>, candidates: Seq<Seq<char>>, i: int, j: int)
    requires
        is_nearest(target, candidates, i),
        is_nearest(target, candidates, j),
    ensures
        i == j,
{
    if i < j {
        assert(edit_distance(target, candidates[i]) > edit_distance(target, candidates[j]));
    } else if j < i {
        assert(edit_distance(target, candidates[j]) > edit_distance(target, candidates[i]));
    }
}

/// The candidate closest to `target` by edit distance, if one is within
/// distance 2; of equally close candidates the first.
pub fn nearest_name(target: &str, candidates: &[String]) -> (r: Option<String>)
    requires
        target@.len() < usize::MAX,
        forall|i: int| 0 <= i < candidates@.len() ==> #[trigger] candidates@[i]@.len() < usize::MAX,
    ensures
        match r {
            Some(s) => exists|i: int|
                is_nearest(target@, candidates@.map_values(|c: String| c@), i) && s@
                    == candidates@[i]@,
            None => forall|i: int|
                0 <= i < candidates@.len() ==> edit_distance(target@, #[trigger] candidates@[i]@)
                    > 2,
        },
        match r {
            Some(s) => nearest(target@, candidates@.map_values(|c: String| c@)) == Some(s@),
            None => nearest(target@, candidates@.map_values(|c: String| c@)) is None,
        },
{
    let t = chars_of(target);
    let ghost cs = candidates@.map_values(|c: String| c@);
    let mut best: Option<(usize, usize)> = None;
    let mut i: usize = 0;
    while i < candidates.len()
        invariant
            i <= candidates@.len(),
            t@ == target@,
            target@.len() < usize::MAX,
            cs == candidates@.map_values(|c: String| c@),
            forall|k: int| 0 <= k < candidates@.len() ==> #[trigger] candidates@[k]@.len() < usize::MAX,
            match best {
                Some((d, bi)) => {
                    &&& bi < i
                    &&& d == edit_distance(target@, cs[bi as int])
                    &&& d <= 2
                    &&& forall|j: int|
                        0 <= j < i ==> edit_distance(target@, #[trigger] cs[j]) >= d
                    &&& forall|j: int|
                        0 <= j < bi ==> edit_distance(target@, #[trigger] cs[j]) > d
                },
                None => forall|j: int| 0 <= j < i ==> edit_distance(target@, #[trigger] cs[j]) > 2,
            },
        decreases candidates@.len() - i,
    {
        let c = chars_of(candidates[i].as_str());
        proof {
            assert(cs[i as int] == candidates@[i as int]@);
        }
        let d = levenshtein(t.as_slice(), c.as_slice());
        if d <= 2 {
            match best {
                Some((bd, _)) => {
                    if d < bd {
                        best = Some((d, i));
                    }
                },
                None => {
                    best = Some((d, i));
                },
            }
        }
        i = i + 1;
    }
    match best {
        Some((_, bi)) => {
            let r = candidates[bi].clone();
            proof {
                assert(is_nearest(target@, cs, bi as int));
                assert(cs[bi as int] == candidates@[bi as int]@);
                let c = choose|i: int| is_nearest(target@, cs, i);
                lemma_nearest_unique(target@, cs, c, bi as int);
            }
            Some(r)
        },
        None => {
            proof {
                assert forall|k: int| 0 <= k < candidates@.len() implies edit_distance(
                    target@,
                    #[trigger] candidates@[k]@,
                ) > 2 by {
                    assert(cs[k] == candidates@[k]@);
                }
                assert(!exists|i: int| is_nearest(target@, cs, i));
            }
            None
        },
    }
}

} // verus!
