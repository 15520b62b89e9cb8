//! Lexical scopes: what each visible variable was declared as, and how a
//! block's declarations are undone when the block ends.
use crate::ast::{Stmt, Ty, TyV};
use crate::analyzer::{diagnostic, Analyzer, VarInfo};
use crate::diagnostics::{DiagnosticV, Severity};
use crate::text::{push_str, string_of};
use vstd::prelude::*;

verus! {

/// The variables in scope, each with what it was declared as. Each name
/// occurs once.
pub struct Scope {
    names: Vec<String>,
    infos: Vec<VarInfo>,
}

/// One undo record of a block: a name and what it meant before the block
/// declared it (`None`: it was not in scope).
pub type ScopeLog = Vec<(String, Option<VarInfo>)>;

/// A scope as a map from names to declarations.
pub type ScopeMap = Map<Seq<char>, (TyV, bool)>;

/// The map that undoing the records `log` (last first) makes of `m`.
pub open spec fn undo(m: ScopeMap, log: Seq<(Seq<char>, Option<(TyV, bool)>)>) -> ScopeMap
    decreases log.len(),
{
    if log.len() == 0 {
        m
    } else {
        let (name, prev) = log.last();
        let m1 = match prev {
            Some(info) => m.insert(name, info),
            None => m.remove(name),
        };
        undo(m1, log.drop_last())
    }
}

/// Declaring `name` as `info` in `m`, with the record that undoes it.
pub open spec fn declare(m: ScopeMap, name: Seq<char>, info: (TyV, bool)) -> (
    ScopeMap,
    (Seq<char>, Option<(TyV, bool)>),
) {
    (m.insert(name, info), (name, if m.contains_key(name) {
        Some(m[name])
    } else {
        None
    }))
}

/// The texts of an undo log.
pub open spec fn log_view(log: Seq<(String, Option<VarInfo>)>) -> Seq<(Seq<char>, Option<(TyV, bool)>)> {
    log.map_values(
        |e: (String, Option<VarInfo>)|
            (
                e.0@,
                match e.1 {
                    Some(i) => Some(i@),
                    None => None,
                },
            ),
    )
}

/// Declaring each of `decls` in turn, from `m0`: the scope it makes and
/// the records that undo it.
pub open spec fn declare_all(m0: ScopeMap, decls: Seq<(Seq<char>, (TyV, bool))>) -> (
    ScopeMap,
    Seq<(Seq<char>, Option<(TyV, bool)>)>,
)
    decreases decls.len(),
{
    if decls.len() == 0 {
        (m0, Seq::empty())
    } else {
        let (m, log) = declare_all(m0, decls.drop_last());
        let (m2, rec) = declare(m, decls.last().0, decls.last().1);
        (m2, log.push(rec))
    }
}

/// Undoing, last first, the records of a run of declarations gives back the
/// scope from before the run: a block leaves its enclosing scope as it found
/// it, shadowed names included.
pub proof fn lemma_undo_restores(m0: ScopeMap, decls: Seq<(Seq<char>, (TyV, bool))>)
    ensures
        undo(declare_all(m0, decls).0, declare_all(m0, decls).1) == m0,
    decreases decls.len(),
{
    if decls.len() > 0 {
        let (m, log) = declare_all(m0, decls.drop_last());
        let (name, info) = decls.last();
        let (m2, rec) = declare(m, name, info);
        let log2 = log.push(rec);
        assert(log2.drop_last() =~= log);
        assert(log2.last() == rec);
        let m1 = match rec.1 {
            Some(i) => m2.insert(name, i),
            None => m2.remove(name),
        };
        assert(m1 =~= m);
        lemma_undo_restores(m0, decls.drop_last());
    }
}

/// Whether no name occurs twice.
pub open spec fn distinct(names: Seq<String>) -> bool {
    forall|i: int, j: int| 0 <= i < j < names.len() ==> #[trigger] names[i]@ != #[trigger] names[j]@
}

/// The map of names to declarations that two parallel lists make.
pub open spec fn map_of(names: Seq<String>, infos: Seq<VarInfo>) -> ScopeMap {
    Map::new(
        |k: Seq<char>| exists|i: int| 0 <= i < names.len() && #[trigger] names[i]@ == k,
        |k: Seq<char>| infos[choose|i: int| 0 <= i < names.len() && #[trigger] names[i]@ == k]@,
    )
}

proof fn lemma_map_of_at(names: Seq<String>, infos: Seq<VarInfo>, i: int)
    requires
        distinct(names),
        0 <= i < names.len(),
    ensures
        map_of(names, infos).contains_key(names[i]@),
        map_of(names, infos)[names[i]@] == infos[i]@,
{
    let k = names[i]@;
    let c = choose|j: int| 0 <= j < names.len() && #[trigger] names[j]@ == k;
    assert(c == i) by {
        if c < i {
            assert(names[c]@ != names[i]@);
        } else if c > i {
            assert(names[i]@ != names[c]@);
        }
    }
}

proof fn lemma_map_of_has(names: Seq<String>, infos: Seq<VarInfo>, k: Seq<char>) -> (i: int)
    requires
        map_of(names, infos).contains_key(k),
    ensures
        0 <= i < names.len(),
        names[i]@ == k,
{
    choose|j: int| 0 <= j < names.len() && #[trigger] names[j]@ == k
}

impl Scope {
    /// The names and the declarations go in pairs, and no name occurs twice.
    pub closed spec fn wf(&self) -> bool {
        &&& self.names@.len() == self.infos@.len()
        &&& distinct(self.names@)
    }

    /// The names in scope, in the order they came in.
    pub closed spec fn names_seq(&self) -> Seq<Seq<char>> {
        self.names@.map_values(|s: String| s@)
    }

    /// The scope as a map from names to declarations.
    pub closed spec fn map(&self) -> ScopeMap {
        map_of(self.names@, self.infos@)
    }

    /// An empty scope.
    pub fn new() -> (r: Self)
        ensures
            r.wf(),
            r.map() == Map::<Seq<char>, (TyV, bool)>::empty(),
    {
        let r = Scope { names: Vec::new(), infos: Vec::new() };
        assert(r.map() =~= Map::<Seq<char>, (TyV, bool)>::empty());
        r
    }

    /// Where `name` is, if it is in scope.
    fn find(&self, name: &str) -> (r: Option<usize>)
        requires
            self.wf(),
        ensures
            match r {
                Some(i) => i < self.names@.len() && self.names@[i as int]@ == name@,
                None => !self.map().contains_key(name@),
            },
    {
        let key = name.to_owned();
        let mut i: usize = 0;
        while i < self.names.len()
            invariant
                i <= self.names@.len(),
                key@ == name@,
                forall|j: int| 0 <= j < i ==> #[trigger] self.names@[j]@ != name@,
            decreases self.names@.len() - i,
        {
            if self.names[i] == key {
                return Some(i);
            }
            i = i + 1;
        }
        None
    }

    /// Whether `name` is in scope.
    pub fn contains_key(&self, name: &str) -> (r: bool)
        requires
            self.wf(),
        ensures
            r == self.map().contains_key(name@),
    {
        match self.find(name) {
            Some(i) => {
                proof {
                    lemma_map_of_at(self.names@, self.infos@, i as int);
                }
                true
            },
            None => false,
        }
    }

    /// What `name` was declared as, if it is in scope.
    pub fn get(&self, name: &str) -> (r: Option<&VarInfo>)
        requires
            self.wf(),
        ensures
            match r {
                Some(info) => self.map().contains_key(name@) && info@ == self.map()[name@],
                None => !self.map().contains_key(name@),
            },
    {
        match self.find(name) {
            Some(i) => {
                proof {
                    lemma_map_of_at(self.names@, self.infos@, i as int);
                }
                Some(&self.infos[i])
            },
            None => None,
        }
    }

    /// A copy of the scope.
    pub fn duplicate(&self) -> (r: Scope)
        requires
            self.wf(),
        ensures
            r.wf(),
    {
        let mut r = Scope::new();
        let mut i: usize = 0;
        while i < self.names.len()
            invariant
                r.wf(),
                self.wf(),
            decreases self.names@.len() - i,
        {
            let n = &self.names[i];
            match self.get(n.as_str()) {
                Some(info) => {
                    r.insert(string_of(crate::text::chars_of(n.as_str()).as_slice()), info.clone());
                },
                None => {},
            }
            i = i + 1;
        }
        r
    }

    /// The names in scope.
    pub fn names(&self) -> (r: &[String])
        requires
            self.wf(),
        ensures
            r@.map_values(|s: String| s@) == self.names_seq(),
            r@.map_values(|s: String| s@).to_set() == self.map().dom(),
    {
        proof {
            let ns = self.names_seq();
            assert(self.map().dom() =~= ns.to_set()) by {
                assert forall|k: Seq<char>| self.map().dom().contains(k) implies ns.to_set().contains(k) by {
                    let i = lemma_map_of_has(self.names@, self.infos@, k);
                    assert(ns[i] == k);
                }
                assert forall|k: Seq<char>| ns.to_set().contains(k) implies self.map().dom().contains(k) by {
                    let i = choose|i: int| 0 <= i < ns.len() && ns[i] == k;
                    assert(self.names@[i]@ == k);
                }
            }
        }
        self.names.as_slice()
    }

    /// Declares `name` as `info`, in place of what it meant before.
    pub fn insert(&mut self, name: String, info: VarInfo)
        requires
            old(self).wf(),
        ensures
            final(self).wf(),
            final(self).map() == old(self).map().insert(name@, info@),
    {
        let ghost names0 = self.names@;
        let ghost infos0 = self.infos@;
        let ghost m0 = self.map();
        match self.find(name.as_str()) {
            Some(i) => {
                self.infos.set(i, info);
                proof {
                    let names = self.names;
                    let infos = self.infos;
                    let m1 = map_of(names@, infos@);
                    let want = m0.insert(name@, info@);
                    assert forall|k: Seq<char>| #[trigger] m1.contains_key(k) == want.contains_key(k) by {
                        if m0.contains_key(k) {
                            let j = lemma_map_of_has(names0, infos0, k);
                            assert(names@[j]@ == k);
                        }
                        if m1.contains_key(k) {
                            let j = lemma_map_of_has(names@, infos@, k);
                            assert(names0[j]@ == k);
                        }
                        assert(names0[i as int]@ == name@);
                    }
                    assert forall|k: Seq<char>| #[trigger] m1.contains_key(k) implies m1[k] == want[k] by {
                        let j = lemma_map_of_has(names@, infos@, k);
                        lemma_map_of_at(names@, infos@, j);
                        if j != i {
                            lemma_map_of_at(names0, infos0, j);
                            assert(names0[j]@ != names0[i as int]@);
                        }
                    }
                    assert(m1 =~= want);
                }
            },
            None => {
                self.names.push(name);
                self.infos.push(info);
                proof {
                    let names = self.names;
                    let infos = self.infos;
                    assert forall|a: int, b: int|
                        0 <= a < b < names@.len() implies #[trigger] names@[a]@ != #[trigger] names@[b]@ by {
                        if b == names0.len() {
                            assert(names@[a]@ == names0[a]@);
                            assert(names0[a]@ != name@);
                        } else {
                            assert(names0[a]@ != names0[b]@);
                        }
                    }
                    let m1 = map_of(names@, infos@);
                    let want = m0.insert(name@, info@);
                    assert forall|k: Seq<char>| #[trigger] m1.contains_key(k) == want.contains_key(k) by {
                        if m0.contains_key(k) {
                            let j = lemma_map_of_has(names0, infos0, k);
                            assert(names@[j]@ == k);
                        }
                        if k == name@ {
                            assert(names@[names0.len() as int]@ == k);
                        }
                        if m1.contains_key(k) && k != name@ {
                            let j = lemma_map_of_has(names@, infos@, k);
                            assert(names0[j]@ == k);
                        }
                    }
                    assert forall|k: Seq<char>| #[trigger] m1.contains_key(k) implies m1[k] == want[k] by {
                        let j = lemma_map_of_has(names@, infos@, k);
                        lemma_map_of_at(names@, infos@, j);
                        if j < names0.len() {
                            lemma_map_of_at(names0, infos0, j);
                        }
                    }
                    assert(m1 =~= want);
                }
            },
        }
    }

    /// Takes `name` out of scope.
    pub fn remove(&mut self, name: &str)
        requires
            old(self).wf(),
        ensures
            final(self).wf(),
            final(self).map() == old(self).map().remove(name@),
    {
        let ghost names0 = self.names@;
        let ghost infos0 = self.infos@;
        let ghost m0 = self.map();
        match self.find(name) {
            Some(i) => {
                self.names.remove(i);
                self.infos.remove(i);
                proof {
                    let names = self.names;
                    let infos = self.infos;
                    assert forall|a: int, b: int|
                        0 <= a < b < names@.len() implies #[trigger] names@[a]@ != #[trigger] names@[b]@ by {
                        let a0 = if a < i { a } else { a + 1 };
                        let b0 = if b < i { b } else { b + 1 };
                        assert(names@[a] == names0[a0]);
                        assert(names@[b] == names0[b0]);
                    }
                    let m1 = map_of(names@, infos@);
                    let want = m0.remove(name@);
                    assert forall|k: Seq<char>| #[trigger] m1.contains_key(k) == want.contains_key(k) by {
                        if m0.contains_key(k) && k != name@ {
                            let j = lemma_map_of_has(names0, infos0, k);
                            assert(j != i);
                            let j1 = if j < i { j } else { j - 1 };
                            assert(names@[j1] == names0[j]);
                        }
                        if m1.contains_key(k) {
                            let j = lemma_map_of_has(names@, infos@, k);
                            let j0 = if j < i { j } else { j + 1 };
                            assert(names@[j] == names0[j0]);
                            assert(j0 != i as int);
                            if j0 < i {
                                assert(names0[j0]@ != names0[i as int]@);
                            } else {
                                assert(names0[i as int]@ != names0[j0]@);
                            }
                            lemma_map_of_at(names0, infos0, j0);
                        }
                    }
                    assert forall|k: Seq<char>| #[trigger] m1.contains_key(k) implies m1[k] == want[k] by {
                        let j = lemma_map_of_has(names@, infos@, k);
                        lemma_map_of_at(names@, infos@, j);
                        let j0 = if j < i { j } else { j + 1 };
                        assert(names@[j] == names0[j0]);
                        assert(infos@[j] == infos0[j0]);
                        lemma_map_of_at(names0, infos0, j0);
                    }
                    assert(m1 =~= want);
                }
            },
            None => {
                proof {
                    assert(m0.remove(name@) =~= m0);
                }
            },
        }
    }
}

/// The declaration a statement makes in its block, if any: the name, what
/// it is declared as, and whether shadowing an earlier name is warned of.
pub open spec fn decl_of(s: Stmt) -> Option<(Seq<char>, (TyV, bool), bool)> {
    match s {
        Stmt::VarDecl { ty, name, .. } => Some((name@, (ty@, false), true)),
        Stmt::VaultDecl { ty, name, .. } => Some((name@, (ty@, true), true)),
        Stmt::For { var, .. } => Some((var@, (TyV::Int, false), false)),
        _ => None,
    }
}

/// The warning that declaring `name` over an earlier declaration gives.
pub open spec fn shadow_warning(a: Analyzer, name: Seq<char>) -> DiagnosticV {
    diagnostic(
        "W001"@,
        if a.settings().werror {
            Severity::Error
        } else {
            Severity::Warning
        },
        "Variable '"@ + name + "' shadows a previous declaration"@,
        "Use a different name, or remove the earlier '"@ + name + "'"@,
        a.span(),
        a.lines(),
    )
}

/// The diagnostics that declaring `s` in scope `m` adds.
pub open spec fn decl_reports(a: Analyzer, s: Stmt, m: ScopeMap) -> Seq<DiagnosticV> {
    match decl_of(s) {
        Some((n, _, warns)) => if warns && m.contains_key(n) {
            seq![shadow_warning(a, n)]
        } else {
            Seq::empty()
        },
        None => Seq::empty(),
    }
}

impl Analyzer {
    /// Warns when `name` is already in `scope`.
    fn warn_shadow(&mut self, name: &String, scope: &Scope)
        requires
            scope.wf(),
        ensures
            final(self).reported() == old(self).reported() + if scope.map().contains_key(name@) {
                seq![shadow_warning(*old(self), name@)]
            } else {
                Seq::empty()
            },
            final(self).same_state(*old(self)),
    {
        if scope.contains_key(name.as_str()) {
            let mut msg: Vec<char> = Vec::new();
            push_str(&mut msg, "Variable '");
            push_str(&mut msg, name.as_str());
            push_str(&mut msg, "' shadows a previous declaration");
            let mut hint: Vec<char> = Vec::new();
            push_str(&mut hint, "Use a different name, or remove the earlier '");
            push_str(&mut hint, name.as_str());
            push_str(&mut hint, "'");
            proof {
                assert(msg@ =~= "Variable '"@ + name@ + "' shadows a previous declaration"@);
                assert(hint@ =~= "Use a different name, or remove the earlier '"@ + name@ + "'"@);
            }
            self.warn("W001", string_of(msg.as_slice()), string_of(hint.as_slice()));
            proof {
                assert(self.reported() =~= old(self).reported() + seq![shadow_warning(*old(self), name@)]);
            }
        } else {
            proof {
                assert(self.reported() =~= old(self).reported() + Seq::<DiagnosticV>::empty());
            }
        }
    }

    /// Enters the declaration that `stmt` makes into `scope`, warning when a
    /// variable shadows an earlier one, and records in `scope_log` how to
    /// undo it.
    pub fn collect_decl_with_log(&mut self, stmt: &Stmt, scope: &mut Scope, scope_log: &mut ScopeLog)
        requires
            old(scope).wf(),
        ensures
            final(scope).wf(),
            final(self).same_state(*old(self)),
            final(self).reported() == old(self).reported() + decl_reports(*old(self), *stmt, old(scope).map()),
            match decl_of(*stmt) {
                Some((n, info, _)) => {
                    &&& final(scope).map() == declare(old(scope).map(), n, info).0
                    &&& log_view(final(scope_log)@) == log_view(old(scope_log)@).push(
                        declare(old(scope).map(), n, info).1,
                    )
                },
                None => final(scope).map() == old(scope).map() && final(scope_log)@ == old(scope_log)@,
            },
    {
        let ghost m0 = scope.map();
        match stmt {
            Stmt::VarDecl { ty, name, .. } => {
                self.warn_shadow(name, scope);
                self.log_and_insert(name, VarInfo { ty: ty.clone(), is_vault: false }, scope, scope_log);
            },
            Stmt::VaultDecl { ty, name, .. } => {
                self.warn_shadow(name, scope);
                self.log_and_insert(name, VarInfo { ty: ty.clone(), is_vault: true }, scope, scope_log);
            },
            Stmt::For { var, .. } => {
                self.log_and_insert(var, VarInfo { ty: Ty::Int, is_vault: false }, scope, scope_log);
                proof {
                    assert(self.reported() =~= old(self).reported() + Seq::<DiagnosticV>::empty());
                }
            },
            _ => {
                proof {
                    assert(self.reported() =~= old(self).reported() + Seq::<DiagnosticV>::empty());
                }
            },
        }
    }

    /// Records what `name` meant in `scope`, then declares it as `info`.
    fn log_and_insert(&self, name: &String, info: VarInfo, scope: &mut Scope, scope_log: &mut ScopeLog)
        requires
            old(scope).wf(),
        ensures
            final(scope).wf(),
            final(scope).map() == declare(old(scope).map(), name@, info@).0,
            log_view(final(scope_log)@) == log_view(old(scope_log)@).push(
                declare(old(scope).map(), name@, info@).1,
            ),
    {
        let previous = match scope.get(name.as_str()) {
            Some(p) => Some(p.clone()),
            None => None,
        };
        let ghost l0 = scope_log@;
        scope_log.push((name.clone(), previous));
        proof {
            assert(log_view(scope_log@) =~= log_view(l0).push(declare(old(scope).map(), name@, info@).1));
        }
        scope.insert(name.clone(), info);
    }

    /// Enters the declaration that `stmt` makes into `scope`, warning when a
    /// variable shadows an earlier one.
    pub fn collect_decl(&mut self, stmt: &Stmt, scope: &mut Scope)
        requires
            old(scope).wf(),
        ensures
            final(scope).wf(),
            final(self).same_state(*old(self)),
            final(self).reported() == old(self).reported() + decl_reports(*old(self), *stmt, old(scope).map()),
            match decl_of(*stmt) {
                Some((n, info, _)) => final(scope).map() == old(scope).map().insert(n, info),
                None => final(scope).map() == old(scope).map(),
            },
    {
        let mut log: ScopeLog = Vec::new();
        self.collect_decl_with_log(stmt, scope, &mut log);
    }

    /// Undoes the records of `scope_log`, last first: each name gets back what
    /// it meant before, or leaves the scope.
    pub fn restore_scope(scope: &mut Scope, scope_log: ScopeLog)
        requires
            old(scope).wf(),
        ensures
            final(scope).wf(),
            final(scope).map() == undo(old(scope).map(), log_view(scope_log@)),
    {
        let ghost target = undo(scope.map(), log_view(scope_log@));
        let mut log = scope_log;
        while log.len() > 0
            invariant
                scope.wf(),
                undo(scope.map(), log_view(log@)) == target,
            decreases log@.len(),
        {
            let ghost before = log@;
            let last = log.pop();
            match last {
                Some((name, previous)) => {
                    proof {
                        assert(log_view(before).drop_last() =~= log_view(log@));
                        assert(log_view(before).last() == (name@, match previous {
                            Some(i) => Some(i@),
                            None => None,
                        }));
                    }
                    match previous {
                        Some(info) => {
                            scope.insert(name, info);
                        },
                        None => {
                            scope.remove(name.as_str());
                        },
                    }
                },
                None => {},
            }
        }
    }
}

} // verus!
