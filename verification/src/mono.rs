//! Generic functions: the names of their specializations, substitution of
//! type arguments for type parameters, and inference of type arguments from
//! the types of call arguments.
use vstd::prelude::*;

use crate::ast::{ty_clone, ty_view, Param, Ty, TyV};
use crate::text::{push_str, string_of};

verus! {

/// The name of a type inside a specialization's name: `int`, `str`,
/// `arrint`, `sPoint`, `eColor`, `tpT`; `auto` for `auto` and function types.
pub open spec fn mangled(t: TyV) -> Seq<char>
    decreases t,
{
    match t {
        TyV::Int => "int"@,
        TyV::I8 => "i8"@,
        TyV::I16 => "i16"@,
        TyV::I32 => "i32"@,
        TyV::I64 => "i64"@,
        TyV::U8 => "u8"@,
        TyV::U16 => "u16"@,
        TyV::U32 => "u32"@,
        TyV::U64 => "u64"@,
        TyV::Float => "float"@,
        TyV::Bool => "bool"@,
        TyV::String => "str"@,
        TyV::Array(inner) => "arr"@ + mangled(*inner),
        TyV::Struct(n) => "s"@ + n,
        TyV::Enum(n) => "e"@ + n,
        TyV::TypeParam(n) => "tp"@ + n,
        TyV::Auto => "auto"@,
        TyV::Fn(_, _) => "auto"@,
    }
}

fn push_mangled(out: &mut Vec<char>, t: &Ty)
    ensures
        final(out)@ == old(out)@ + mangled(t@),
    decreases t,
{
    match t {
        Ty::Int => push_str(out, "int"),
        Ty::I8 => push_str(out, "i8"),
        Ty::I16 => push_str(out, "i16"),
        Ty::I32 => push_str(out, "i32"),
        Ty::I64 => push_str(out, "i64"),
        Ty::U8 => push_str(out, "u8"),
        Ty::U16 => push_str(out, "u16"),
        Ty::U32 => push_str(out, "u32"),
        Ty::U64 => push_str(out, "u64"),
        Ty::Float => push_str(out, "float"),
        Ty::Bool => push_str(out, "bool"),
        Ty::String => push_str(out, "str"),
        Ty::Array(inner) => {
            push_str(out, "arr");
            push_mangled(out, inner);
            assert(out@ =~= old(out)@ + mangled(t@));
        },
        Ty::Struct(n) => {
            push_str(out, "s");
            push_str(out, n.as_str());
            assert(out@ =~= old(out)@ + mangled(t@));
        },
        Ty::Enum(n) => {
            push_str(out, "e");
            push_str(out, n.as_str());
            assert(out@ =~= old(out)@ + mangled(t@));
        },
        Ty::TypeParam(n) => {
            push_str(out, "tp");
            push_str(out, n.as_str());
            assert(out@ =~= old(out)@ + mangled(t@));
        },
        Ty::Auto => push_str(out, "auto"),
        Ty::Fn(_, _) => push_str(out, "auto"),
    }
}

/// The mangled names of `ts`, joined by `_`.
pub open spec fn mangled_list(ts: Seq<TyV>) -> Seq<char>
    decreases ts.len(),
{
    if ts.len() == 0 {
        Seq::empty()
    } else if ts.len() == 1 {
        mangled(ts[0])
    } else {
        mangled_list(ts.drop_last()) + "_"@ + mangled(ts.last())
    }
}

/// The views of a list of types.
pub open spec fn tys_view(ts: Seq<Ty>) -> Seq<TyV> {
    ts.map_values(|t: Ty| t@)
}

/// The name of the specialization of `fn_name` for `type_args`:
/// `fn_name` itself without type arguments, else `fn_name__<a>_<b>...`.
pub open spec fn specialization_name(fn_name: Seq<char>, type_args: Seq<TyV>) -> Seq<char> {
    if type_args.len() == 0 {
        fn_name
    } else {
        fn_name + "__"@ + mangled_list(type_args)
    }
}

/// The name under which the specialization of `fn_name` for `type_args`
/// is emitted.
pub fn mangle_name(fn_name: &str, type_args: &[Ty]) -> (r: String)
    ensures
        r@ == specialization_name(fn_name@, tys_view(type_args@)),
{
    let mut out: Vec<char> = Vec::new();
    push_str(&mut out, fn_name);
    if type_args.len() == 0 {
        assert(out@ =~= fn_name@);
        return string_of(out.as_slice());
    }
    push_str(&mut out, "__");
    let ghost head = out@;
    let ghost tv = tys_view(type_args@);
    let mut i: usize = 0;
    while i < type_args.len()
        invariant
            i <= type_args@.len(),
            tv == tys_view(type_args@),
            out@ == head + mangled_list(tv.take(i as int)),
        decreases type_args@.len() - i,
    {
        if i > 0 {
            push_str(&mut out, "_");
        }
        push_mangled(&mut out, &type_args[i]);
        proof {
            let pre = tv.take(i + 1);
            assert(pre.drop_last() =~= tv.take(i as int));
            assert(pre.last() == type_args@[i as int]@);
            assert(out@ =~= head + mangled_list(pre));
        }
        i = i + 1;
    }
    assert(tv.take(type_args@.len() as int) =~= tv);
    assert(out@ =~= specialization_name(fn_name@, tv));
    string_of(out.as_slice())
}

// ───────────────────────── substitution ─────────────────────────

/// The first index of `n` in `names`, if any.
pub open spec fn first_index(names: Seq<Seq<char>>, n: Seq<char>) -> Option<int>
    decreases names.len(),
{
    if names.len() == 0 {
        None
    } else if names[0] == n {
        Some(0)
    } else {
        match first_index(names.drop_first(), n) {
            Some(i) => Some(i + 1),
            None => None,
        }
    }
}

/// The texts of a list of strings.
pub open spec fn names_view(v: Seq<String>) -> Seq<Seq<char>> {
    v.map_values(|s: String| s@)
}

/// `t` with each type parameter named in `params` replaced by the type at
/// the same place in `args` (by `auto` when `args` is too short); inside
/// array and function types too.
pub open spec fn subst(t: TyV, params: Seq<Seq<char>>, args: Seq<TyV>) -> TyV
    decreases t,
{
    match t {
        TyV::TypeParam(n) => match first_index(params, n) {
            Some(i) => if 0 <= i < args.len() {
                args[i]
            } else {
                TyV::Auto
            },
            None => t,
        },
        TyV::Array(inner) => TyV::Array(Box::new(subst(*inner, params, args))),
        TyV::Fn(ps, ret) => TyV::Fn(
            Seq::new(
                ps.len(),
                |i: int|
                    if 0 <= i < ps.len() {
                        subst(ps[i], params, args)
                    } else {
                        TyV::Auto
                    },
            ),
            match ret {
                Some(r) => Some(Box::new(subst(*r, params, args))),
                None => None,
            },
        ),
        _ => t,
    }
}

pub proof fn lemma_first_index(names: Seq<Seq<char>>, n: Seq<char>)
    ensures
        first_index(names, n) matches Some(i) ==> 0 <= i < names.len() && names[i] == n
            && forall|j: int| 0 <= j < i ==> #[trigger] names[j] != n,
        first_index(names, n) is None ==> forall|j: int| 0 <= j < names.len() ==> #[trigger] names[j] != n,
    decreases names.len(),
{
    if names.len() > 0 {
        lemma_first_index(names.drop_first(), n);
        assert forall|j: int| 1 <= j < names.len() implies names[j] == names.drop_first()[j - 1] by {}
    }
}

pub proof fn lemma_first_index_is(names: Seq<Seq<char>>, n: Seq<char>, k: int)
    requires
        0 <= k < names.len(),
        names[k] == n,
        forall|j: int| 0 <= j < k ==> #[trigger] names[j] != n,
    ensures
        first_index(names, n) == Some(k),
    decreases k,
{
    if k > 0 {
        let t = names.drop_first();
        assert forall|j: int| 0 <= j < k - 1 implies #[trigger] t[j] != n by {
            assert(t[j] == names[j + 1]);
        }
        lemma_first_index_is(t, n, k - 1);
    }
}

pub proof fn lemma_first_index_none(names: Seq<Seq<char>>, n: Seq<char>)
    requires
        forall|j: int| 0 <= j < names.len() ==> #[trigger] names[j] != n,
    ensures
        first_index(names, n) is None,
    decreases names.len(),
{
    if names.len() > 0 {
        let t = names.drop_first();
        assert forall|j: int| 0 <= j < t.len() implies #[trigger] t[j] != n by {
            assert(t[j] == names[j + 1]);
        }
        lemma_first_index_none(t, n);
    }
}

/// Position of the first parameter named `n`.
pub fn position(params: &[String], n: &String) -> (r: Option<usize>)
    ensures
        match r {
            Some(i) => first_index(names_view(params@), n@) == Some(i as int),
            None => first_index(names_view(params@), n@) is None,
        },
{
    let ghost nv = names_view(params@);
    let mut i: usize = 0;
    while i < params.len()
        invariant
            i <= params@.len(),
            nv == names_view(params@),
            forall|j: int| 0 <= j < i ==> #[trigger] nv[j] != n@,
        decreases params@.len() - i,
    {
        if params[i] == *n {
            proof {
                lemma_first_index_is(nv, n@, i as int);
            }
            return Some(i);
        }
        i = i + 1;
    }
    proof {
        lemma_first_index_none(nv, n@);
    }
    None
}

/// Replaces the type parameters `type_params` in `ty` by `type_args`.
pub fn subst_ty(ty: &Ty, type_params: &[String], type_args: &[Ty]) -> (r: Ty)
    ensures
        r@ == subst(ty@, names_view(type_params@), tys_view(type_args@)),
    decreases ty,
{
    match ty {
        Ty::TypeParam(name) => {
            match position(type_params, name) {
                Some(idx) => {
                    if idx < type_args.len() {
                        ty_clone(&type_args[idx])
                    } else {
                        Ty::Auto
                    }
                },
                None => ty_clone(ty),
            }
        },
        Ty::Array(inner) => Ty::Array(Box::new(subst_ty(inner, type_params, type_args))),
        Ty::Fn(ps, ret) => {
            let mut v: Vec<Ty> = Vec::new();
            let mut i: usize = 0;
            while i < ps.len()
                invariant
                    *ty == Ty::Fn(*ps, *ret),
                    i <= ps@.len(),
                    v@.len() == i,
                    forall|j: int|
                        0 <= j < i ==> #[trigger] ty_view(v@[j]) == subst(
                            ty_view(ps@[j]),
                            names_view(type_params@),
                            tys_view(type_args@),
                        ),
                decreases ps@.len() - i,
            {
                proof {
                    vstd::std_specs::vec::axiom_vec_index_decreases(*ps, i as int);
                    assert(decreases_to!(*ty => (*ty)->Fn_0));
                }
                v.push(subst_ty(&ps[i], type_params, type_args));
                i = i + 1;
            }
            let r = match ret {
                Some(b) => Some(Box::new(subst_ty(b, type_params, type_args))),
                None => None,
            };
            let out = Ty::Fn(v, r);
            proof {
                let a = ty_view(out);
                let b = subst(ty_view(*ty), names_view(type_params@), tys_view(type_args@));
                assert forall|j: int| 0 <= j < a->Fn_0.len() implies a->Fn_0[j] == b->Fn_0[j] by {
                    assert(ty_view(v@[j]) == subst(
                        ty_view(ps@[j]),
                        names_view(type_params@),
                        tys_view(type_args@),
                    ));
                }
                assert(a->Fn_0 =~= b->Fn_0);
            }
            out
        },
        _ => ty_clone(ty),
    }
}

// ───────────────────────── inference ─────────────────────────

/// The type of the first argument whose parameter has the type parameter
/// `tp` as its type, looking at the first `n` parameter/argument pairs
/// from index `k`; `auto` when there is none.
pub open spec fn inferred_from(tp: Seq<char>, params: Seq<TyV>, args: Seq<TyV>, k: int) -> TyV
    decreases params.len() - k,
{
    if k < 0 || k >= params.len() || k >= args.len() {
        TyV::Auto
    } else if params[k] == TyV::TypeParam(tp) {
        args[k]
    } else {
        inferred_from(tp, params, args, k + 1)
    }
}

/// The types of a list of parameters.
pub open spec fn param_tys_view(ps: Seq<Param>) -> Seq<TyV> {
    ps.map_values(|p: Param| p.ty@)
}

/// The type argument inferred for `tp`: the type of the first call argument
/// whose parameter is declared with type `tp`, `auto` when there is none.
fn infer_one(tp: &String, fn_params: &[Param], arg_tys: &[Ty]) -> (r: Ty)
    ensures
        r@ == inferred_from(tp@, param_tys_view(fn_params@), tys_view(arg_tys@), 0),
{
    let ghost pv = param_tys_view(fn_params@);
    let ghost av = tys_view(arg_tys@);
    let mut k: usize = 0;
    while k < fn_params.len() && k < arg_tys.len()
        invariant
            pv == param_tys_view(fn_params@),
            av == tys_view(arg_tys@),
            k <= fn_params@.len(),
            inferred_from(tp@, pv, av, k as int) == inferred_from(tp@, pv, av, 0),
        decreases fn_params@.len() - k,
    {
        match &fn_params[k].ty {
            Ty::TypeParam(name) => {
                if *name == *tp {
                    return ty_clone(&arg_tys[k]);
                }
            },
            _ => {},
        }
        k = k + 1;
    }
    Ty::Auto
}

/// The type arguments of a call of a generic function, one for each of
/// `type_params`, inferred from the types of the call's arguments.
pub fn infer_type_args(type_params: &[String], fn_params: &[Param], arg_tys: &[Ty]) -> (r: Vec<Ty>)
    ensures
        r@.len() == type_params@.len(),
        forall|i: int|
            0 <= i < type_params@.len() ==> #[trigger] r@[i]@ == inferred_from(
                type_params@[i]@,
                param_tys_view(fn_params@),
                tys_view(arg_tys@),
                0,
            ),
{
    let mut out: Vec<Ty> = Vec::new();
    let mut i: usize = 0;
    while i < type_params.len()
        invariant
            i <= type_params@.len(),
            out@.len() == i,
            forall|j: int|
                0 <= j < i ==> #[trigger] out@[j]@ == inferred_from(
                    type_params@[j]@,
                    param_tys_view(fn_params@),
                    tys_view(arg_tys@),
                    0,
                ),
        decreases type_params@.len() - i,
    {
        out.push(infer_one(&type_params[i], fn_params, arg_tys));
        i = i + 1;
    }
    out
}

} // verus!
