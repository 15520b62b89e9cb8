//! Checks on values and types: integer literals out of range, and structs
//! that contain themselves.
use crate::analyzer::{diagnostic, Analyzer};
use crate::ast::{Expr, Ty, TyV, UnaryOpKind};
use crate::diagnostics::{DiagnosticV, Severity};
use crate::mono::{first_index, lemma_first_index, lemma_first_index_is, lemma_first_index_none};
use crate::numfmt::{dec_int, push_decimal_signed};
use crate::shared::{int_range, push_ty_name, range_of, ty_name_of};
use crate::text::{push_str, string_of};
use vstd::prelude::*;

verus! {

broadcast use vstd::seq_lib::seq_to_set_is_finite;

/// The value of an integer literal, possibly negated (any number of times);
/// `None` for any other expression.
pub open spec fn const_val(e: Expr) -> Option<int>
    decreases e,
{
    match e {
        Expr::IntLit(n) => Some(n as int),
        Expr::UnaryOp { op: UnaryOpKind::Neg, expr } => match const_val(*expr) {
            Some(v) => Some(-v),
            None => None,
        },
        _ => None,
    }
}

/// The value of an integer literal, possibly negated.
pub fn const_int_value(expr: &Expr) -> (r: Option<i128>)
    ensures
        match r {
            Some(v) => const_val(*expr) == Some(v as int),
            None => const_val(*expr) is None,
        },
        r matches Some(v) ==> -0x8000_0000_0000_0000 <= v <= 0x8000_0000_0000_0000,
    decreases expr,
{
    match expr {
        Expr::IntLit(n) => Some(*n as i128),
        Expr::UnaryOp { op: UnaryOpKind::Neg, expr } => match const_int_value(expr) {
            Some(v) => Some(-v),
            None => None,
        },
        _ => None,
    }
}

/// The warning for an integer literal `v` that does not fit type `t`.
pub open spec fn overflow_warning(v: int, t: TyV, lo: int, hi: int, a: Analyzer) -> DiagnosticV {
    diagnostic(
        "W002"@,
        if a.settings().werror {
            Severity::Error
        } else {
            Severity::Warning
        },
        "Integer literal "@ + dec_int(v) + " overflows type "@ + ty_name_of(t) + " (range "@
            + dec_int(lo) + ".."@ + dec_int(hi) + ")"@,
        "Use a larger type or a value within "@ + dec_int(lo) + ".."@ + dec_int(hi),
        a.span(),
        a.lines(),
    )
}

/// What checking `value` against the range of `t` reports.
pub open spec fn range_reports(t: TyV, value: Expr, a: Analyzer) -> Seq<DiagnosticV> {
    match (range_of(t), const_val(value)) {
        (Some((lo, hi)), Some(v)) => if v < lo || v > hi {
            seq![overflow_warning(v, t, lo, hi, a)]
        } else {
            Seq::empty()
        },
        _ => Seq::empty(),
    }
}

/// The type of a struct's field, when it is a struct type: its name.
pub open spec fn struct_ref(t: TyV) -> Option<Seq<char>> {
    match t {
        TyV::Struct(s) => Some(s),
        _ => None,
    }
}

/// Whether, from struct `n`, following fields of struct type through the
/// struct definitions (`names[i]` has field types `fields[i]`), one comes
/// back to a struct on the path so far (`visiting`, then the structs passed).
pub open spec fn cycle_from(
    names: Seq<Seq<char>>,
    fields: Seq<Seq<TyV>>,
    n: Seq<char>,
    visiting: Set<Seq<char>>,
) -> bool
    decreases names.to_set().difference(visiting).len(), 0int, 0int,
{
    if visiting.contains(n) {
        true
    } else {
        match first_index(names, n) {
            Some(i) => if 0 <= i < fields.len() {
                proof {
                    lemma_first_index(names, n);
                    assert(names.to_set().contains(n));
                    assert(names.to_set().difference(visiting.insert(n)) =~= names.to_set().difference(
                        visiting,
                    ).remove(n));
                }
                cycle_from_fields(names, fields, fields[i], 0, visiting.insert(n))
            } else {
                false
            },
            None => false,
        }
    }
}

/// Whether one of the fields `fs[k..]` leads back onto the path (see
/// `cycle_from`).
pub open spec fn cycle_from_fields(
    names: Seq<Seq<char>>,
    fields: Seq<Seq<TyV>>,
    fs: Seq<TyV>,
    k: int,
    visiting: Set<Seq<char>>,
) -> bool
    decreases names.to_set().difference(visiting).len(), 1int, fs.len() - k,
{
    if 0 <= k < fs.len() {
        let here = match struct_ref(fs[k]) {
            Some(s) => cycle_from(names, fields, s, visiting),
            None => false,
        };
        here || cycle_from_fields(names, fields, fs, k + 1, visiting)
    } else {
        false
    }
}

impl Analyzer {
    /// Warns when `value` is an integer literal outside the range of the
    /// integer type `ty`.
    pub fn check_int_range(&mut self, ty: &Ty, value: &Expr)
        ensures
            final(self).reported() == old(self).reported() + range_reports(ty@, *value, *old(self)),
            final(self).same_state(*old(self)),
    {
        match int_range(ty) {
            Some((lo, hi)) => match const_int_value(value) {
                Some(val) => {
                    if val < lo || val > hi {
                        let mut msg: Vec<char> = Vec::new();
                        push_str(&mut msg, "Integer literal ");
                        push_decimal_signed(&mut msg, val);
                        push_str(&mut msg, " overflows type ");
                        push_ty_name(&mut msg, ty);
                        push_str(&mut msg, " (range ");
                        push_decimal_signed(&mut msg, lo);
                        push_str(&mut msg, "..");
                        push_decimal_signed(&mut msg, hi);
                        push_str(&mut msg, ")");
                        let mut hint: Vec<char> = Vec::new();
                        push_str(&mut hint, "Use a larger type or a value within ");
                        push_decimal_signed(&mut hint, lo);
                        push_str(&mut hint, "..");
                        push_decimal_signed(&mut hint, hi);
                        proof {
                            assert(msg@ =~= "Integer literal "@ + dec_int(val as int) + " overflows type "@
                                + ty_name_of(ty@) + " (range "@ + dec_int(lo as int) + ".."@ + dec_int(
                                hi as int,
                            ) + ")"@);
                            assert(hint@ =~= "Use a larger type or a value within "@ + dec_int(lo as int)
                                + ".."@ + dec_int(hi as int));
                        }
                        self.warn("W002", string_of(msg.as_slice()), string_of(hint.as_slice()));
                        proof {
                            assert(self.reported() =~= old(self).reported() + range_reports(
                                ty@,
                                *value,
                                *old(self),
                            ));
                        }
                    } else {
                        proof {
                            assert(self.reported() =~= old(self).reported() + Seq::<DiagnosticV>::empty());
                        }
                    }
                },
                None => {
                    proof {
                        assert(self.reported() =~= old(self).reported() + Seq::<DiagnosticV>::empty());
                    }
                },
            },
            None => {
                proof {
                    assert(self.reported() =~= old(self).reported() + Seq::<DiagnosticV>::empty());
                }
            },
        }
    }
}

/// Whether struct `a` has a field of struct type `b` (by the first
/// definition of `a` in the table).
pub open spec fn edge(names: Seq<Seq<char>>, fields: Seq<Seq<TyV>>, a: Seq<char>, b: Seq<char>) -> bool {
    match first_index(names, a) {
        Some(i) => 0 <= i < fields.len() && exists|k: int|
            0 <= k < fields[i].len() && #[trigger] struct_ref(fields[i][k]) == Some(b),
        None => false,
    }
}

/// Whether each struct of `p` has a field of the type of the next.
pub open spec fn is_walk(names: Seq<Seq<char>>, fields: Seq<Seq<TyV>>, p: Seq<Seq<char>>) -> bool {
    forall|j: int| 0 <= j < p.len() - 1 ==> #[trigger] edge(names, fields, p[j], p[j + 1])
}

/// Whether a walk from `n` through struct-typed fields comes back to a
/// struct it passed: a cycle is reachable from `n`.
pub open spec fn reaches_cycle(names: Seq<Seq<char>>, fields: Seq<Seq<TyV>>, n: Seq<char>) -> bool {
    exists|p: Seq<Seq<char>>|
        #![trigger is_walk(names, fields, p)]
        p.len() >= 2 && p[0] == n && is_walk(names, fields, p) && p.drop_last().contains(p.last())
}

proof fn lemma_fields_exists(names: Seq<Seq<char>>, fields: Seq<Seq<TyV>>, fs: Seq<TyV>, k: int, v: Set<Seq<char>>)
    requires
        0 <= k <= fs.len(),
    ensures
        cycle_from_fields(names, fields, fs, k, v) <==> exists|m: int|
            k <= m < fs.len() && (#[trigger] struct_ref(fs[m])) is Some && cycle_from(
                names,
                fields,
                struct_ref(fs[m])->0,
                v,
            ),
    decreases fs.len() - k,
{
    if k < fs.len() {
        lemma_fields_exists(names, fields, fs, k + 1, v);
    }
}

proof fn lemma_cycle_from_walk(names: Seq<Seq<char>>, fields: Seq<Seq<TyV>>, n: Seq<char>, v: Set<Seq<char>>)
    ensures
        cycle_from(names, fields, n, v) <==> exists|p: Seq<Seq<char>>|
            #![trigger is_walk(names, fields, p)]
            p.len() >= 1 && p[0] == n && is_walk(names, fields, p) && (v.contains(p.last())
                || p.drop_last().contains(p.last())),
    decreases names.to_set().difference(v).len(),
{
    if v.contains(n) {
        let p = seq![n];
        assert(is_walk(names, fields, p));
    } else {
        match first_index(names, n) {
            Some(i) => {
                if 0 <= i < fields.len() {
                    lemma_first_index(names, n);
                    assert(names.to_set().contains(n));
                    let v1 = v.insert(n);
                    assert(names.to_set().difference(v1) =~= names.to_set().difference(v).remove(n));
                    let fs = fields[i];
                    lemma_fields_exists(names, fields, fs, 0, v1);
                    if cycle_from(names, fields, n, v) {
                        let m = choose|m: int|
                            0 <= m < fs.len() && (#[trigger] struct_ref(fs[m])) is Some && cycle_from(
                                names,
                                fields,
                                struct_ref(fs[m])->0,
                                v1,
                            );
                        let s = struct_ref(fs[m])->0;
                        lemma_cycle_from_walk(names, fields, s, v1);
                        let q = choose|q: Seq<Seq<char>>|
                            #![trigger is_walk(names, fields, q)]
                            q.len() >= 1 && q[0] == s && is_walk(names, fields, q) && (v1.contains(q.last())
                                || q.drop_last().contains(q.last()));
                        let p = seq![n] + q;
                        assert(edge(names, fields, n, s));
                        assert(is_walk(names, fields, p)) by {
                            assert forall|j: int| 0 <= j < p.len() - 1 implies #[trigger] edge(
                                names,
                                fields,
                                p[j],
                                p[j + 1],
                            ) by {
                                if j > 0 {
                                    let jj = j - 1;
                                    assert(p[j] == q[jj] && p[j + 1] == q[jj + 1]);
                                    assert(edge(names, fields, q[jj], q[jj + 1]));
                                } else {
                                    assert(p[0] == n && p[1] == s);
                                }
                            }
                        }
                        assert(p.last() == q.last());
                        assert(p.drop_last() =~= seq![n] + q.drop_last());
                        if v1.contains(q.last()) && q.last() == n {
                            assert(p.drop_last()[0] == n);
                        }
                        if q.drop_last().contains(q.last()) {
                            let j = choose|j: int| 0 <= j < q.drop_last().len() && q.drop_last()[j] == q.last();
                            assert(p.drop_last()[j + 1] == q.last());
                        }
                    }
                    if exists|p: Seq<Seq<char>>|
                        #![trigger is_walk(names, fields, p)]
                        p.len() >= 1 && p[0] == n && is_walk(names, fields, p) && (v.contains(p.last())
                            || p.drop_last().contains(p.last())) {
                        let p = choose|p: Seq<Seq<char>>|
                            #![trigger is_walk(names, fields, p)]
                            p.len() >= 1 && p[0] == n && is_walk(names, fields, p) && (v.contains(p.last())
                                || p.drop_last().contains(p.last()));
                        if p.len() == 1 {
                            assert(p.drop_last().len() == 0);
                            assert(p.last() == n);
                            assert(false);
                        }
                        let j0 = 0int;
                        assert(edge(names, fields, p[j0], p[j0 + 1]));
                        let s = p[1];
                        let m = choose|k: int| 0 <= k < fs.len() && #[trigger] struct_ref(fs[k]) == Some(s);
                        let q = p.drop_first();
                        assert(is_walk(names, fields, q)) by {
                            assert forall|j: int| 0 <= j < q.len() - 1 implies #[trigger] edge(
                                names,
                                fields,
                                q[j],
                                q[j + 1],
                            ) by {
                                let jj = j + 1;
                                assert(q[j] == p[jj] && q[j + 1] == p[jj + 1]);
                                assert(edge(names, fields, p[jj], p[jj + 1]));
                            }
                        }
                        assert(q.last() == p.last());
                        assert(v1.contains(q.last()) || q.drop_last().contains(q.last())) by {
                            if p.drop_last().contains(p.last()) && !v.contains(p.last()) {
                                let j = choose|j: int| 0 <= j < p.drop_last().len() && p.drop_last()[j] == p.last();
                                if j > 0 {
                                    assert(q.drop_last()[j - 1] == p.last());
                                }
                            }
                        }
                        lemma_cycle_from_walk(names, fields, s, v1);
                        assert(cycle_from(names, fields, s, v1));
                        assert(struct_ref(fs[m]) == Some(s));
                    }
                } else {
                    lemma_no_walk_from_unknown(names, fields, n, v);
                }
            },
            None => {
                lemma_no_walk_from_unknown(names, fields, n, v);
            },
        }
    }
}

proof fn lemma_no_walk_from_unknown(names: Seq<Seq<char>>, fields: Seq<Seq<TyV>>, n: Seq<char>, v: Set<Seq<char>>)
    requires
        !v.contains(n),
        match first_index(names, n) {
            Some(i) => !(0 <= i < fields.len()),
            None => true,
        },
    ensures
        !exists|p: Seq<Seq<char>>|
            #![trigger is_walk(names, fields, p)]
            p.len() >= 1 && p[0] == n && is_walk(names, fields, p) && (v.contains(p.last())
                || p.drop_last().contains(p.last())),
{
    if exists|p: Seq<Seq<char>>|
        #![trigger is_walk(names, fields, p)]
        p.len() >= 1 && p[0] == n && is_walk(names, fields, p) && (v.contains(p.last())
            || p.drop_last().contains(p.last())) {
        let p = choose|p: Seq<Seq<char>>|
            #![trigger is_walk(names, fields, p)]
            p.len() >= 1 && p[0] == n && is_walk(names, fields, p) && (v.contains(p.last())
                || p.drop_last().contains(p.last()));
        if p.len() == 1 {
            assert(p.drop_last().len() == 0);
        } else {
            let j = 0int;
            assert(edge(names, fields, p[j], p[j + 1]));
        }
    }
}

/// With no path walked yet, a struct leads back onto its path exactly when
/// a cycle of struct-typed fields can be reached from it: so
/// `check_circular_struct` with an empty path reports precisely the structs
/// from which such a cycle is reachable.
pub proof fn lemma_circular_iff_reaches_cycle(names: Seq<Seq<char>>, fields: Seq<Seq<TyV>>, n: Seq<char>)
    ensures
        cycle_from(names, fields, n, Set::empty()) <==> reaches_cycle(names, fields, n),
{
    lemma_cycle_from_walk(names, fields, n, Set::empty());
    if cycle_from(names, fields, n, Set::empty()) {
        let p = choose|p: Seq<Seq<char>>|
            #![trigger is_walk(names, fields, p)]
            p.len() >= 1 && p[0] == n && is_walk(names, fields, p) && (Set::<Seq<char>>::empty().contains(
                p.last(),
            ) || p.drop_last().contains(p.last()));
        assert(p.drop_last().contains(p.last()));
        assert(p.len() >= 2);
    }
    if reaches_cycle(names, fields, n) {
        let p = choose|p: Seq<Seq<char>>|
            #![trigger is_walk(names, fields, p)]
            p.len() >= 2 && p[0] == n && is_walk(names, fields, p) && p.drop_last().contains(p.last());
        assert(p.len() >= 1);
    }
}

/// The texts of a list of strings.
pub open spec fn texts(v: Seq<String>) -> Seq<Seq<char>> {
    v.map_values(|s: String| s@)
}

impl Analyzer {
    /// Where struct `name` is in the struct table, if it is there.
    fn find_struct(&self, name: &String) -> (r: Option<usize>)
        requires
            self.wf(),
        ensures
            match r {
                Some(i) => first_index(self.struct_names_seq(), name@) == Some(i as int) && i
                    < self.struct_field_tys().len(),
                None => first_index(self.struct_names_seq(), name@) is None,
            },
    {
        let ghost nv = self.struct_names_seq();
        let mut i: usize = 0;
        while i < self.struct_names.len()
            invariant
                self.wf(),
                i <= self.struct_names@.len(),
                nv == self.struct_names_seq(),
                forall|j: int| 0 <= j < i ==> #[trigger] nv[j] != name@,
            decreases self.struct_names@.len() - i,
        {
            if self.struct_names[i] == *name {
                proof {
                    lemma_first_index_is(nv, name@, i as int);
                }
                return Some(i);
            }
            i = i + 1;
        }
        proof {
            lemma_first_index_none(nv, name@);
        }
        None
    }

    /// Whether struct `name` leads, through fields of struct type, back to a
    /// struct on the path `visiting` or to itself. On `false`, `visiting` is
    /// as it was.
    pub fn check_circular_struct(&self, name: &str, visiting: &mut Vec<String>) -> (r: bool)
        requires
            self.wf(),
        ensures
            r == cycle_from(
                self.struct_names_seq(),
                self.struct_field_tys(),
                name@,
                texts(old(visiting)@).to_set(),
            ),
            !r ==> final(visiting)@ == old(visiting)@,
        decreases self.struct_names_seq().to_set().difference(texts(old(visiting)@).to_set()).len(), 0int, 0int,
    {
        let ghost names = self.struct_names_seq();
        let ghost fields = self.struct_field_tys();
        let ghost v0 = texts(visiting@).to_set();
        let key = name.to_owned();
        let mut j: usize = 0;
        while j < visiting.len()
            invariant
                j <= visiting@.len(),
                key@ == name@,
                forall|m: int| 0 <= m < j ==> #[trigger] visiting@[m]@ != name@,
            decreases visiting@.len() - j,
        {
            if visiting[j] == key {
                proof {
                    assert(texts(visiting@)[j as int] == name@);
                }
                return true;
            }
            j = j + 1;
        }
        proof {
            assert(!v0.contains(name@)) by {
                if v0.contains(name@) {
                    let m = choose|m: int| 0 <= m < texts(visiting@).len() && texts(visiting@)[m] == name@;
                    assert(visiting@[m]@ == name@);
                }
            }
        }
        let found = self.find_struct(&key);
        let ghost vs0 = visiting@;
        visiting.push(key);
        let ghost pushed = visiting@;
        let ghost v1 = texts(pushed).to_set();
        proof {
            assert(texts(pushed) =~= texts(vs0).push(name@));
            texts(vs0).lemma_push_to_set_commute(name@);
            assert(v1 =~= v0.insert(name@));
        }
        match found {
            Some(i) => {
                let fs = &self.struct_fields[i];
                let ghost ftys = fields[i as int];
                proof {
                    lemma_first_index(names, name@);
                    assert(names[i as int] == name@);
                    assert(names.to_set().contains(name@));
                    assert(names.to_set().difference(v1) =~= names.to_set().difference(v0).remove(name@));
                    assert(ftys =~= fs@.map_values(|f: crate::ast::StructField| f.ty@));
                }
                let mut k: usize = 0;
                while k < fs.len()
                    invariant
                        self.wf(),
                        names == self.struct_names_seq(),
                        fields == self.struct_field_tys(),
                        ftys == fs@.map_values(|f: crate::ast::StructField| f.ty@),
                        k <= fs@.len(),
                        visiting@ == pushed,
                        v1 == texts(pushed).to_set(),
                        v0 == texts(old(visiting)@).to_set(),
                        v1 == v0.insert(name@),
                        !v0.contains(name@),
                        first_index(names, name@) == Some(i as int),
                        i < fields.len(),
                        ftys == fields[i as int],
                        names.to_set().difference(v1).len() < names.to_set().difference(v0).len(),
                        cycle_from_fields(names, fields, ftys, k as int, v1) == cycle_from_fields(
                            names,
                            fields,
                            ftys,
                            0,
                            v1,
                        ),
                    decreases fs@.len() - k,
                {
                    proof {
                        assert(ftys[k as int] == fs@[k as int].ty@);
                    }
                    match &fs[k].ty {
                        Ty::Struct(s) => {
                            if self.check_circular_struct(s.as_str(), visiting) {
                                proof {
                                    assert(struct_ref(ftys[k as int]) == Some(s@));
                                    assert(cycle_from_fields(names, fields, ftys, k as int, v1));
                                }
                                return true;
                            }
                        },
                        _ => {},
                    }
                    k = k + 1;
                }
            },
            None => {},
        }
        visiting.pop();
        false
    }
}

} // verus!
