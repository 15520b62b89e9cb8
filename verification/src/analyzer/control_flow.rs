//! How control leaves a block (early exits and breaks), and the vaults that
//! a loop would allocate again on each turn.
use crate::analyzer::{diagnostic, Analyzer};
use crate::ast::{Span, Stmt};
use crate::diagnostics::{DiagnosticV, Severity};
use crate::text::{push_str, string_of};
use vstd::prelude::*;

verus! {

/// Whether `s` leaves its block at once: `return`, `Exit`, `break`, `Kill`
/// or `yield`.
pub open spec fn early_exit(s: Stmt) -> bool {
    s is Return || s is Exit || s is Break || s is Kill || s is Yield
}

/// Whether `s` is a `break`, or an `if` with a `break` in one of its
/// branches (not counting nested loops).
pub open spec fn breaks_s(s: Stmt) -> bool
    decreases s, 0nat,
{
    match s {
        Stmt::Break => true,
        Stmt::If { then_body, else_body, .. } => breaks_ss(then_body, 0) || match else_body {
            Some(b) => breaks_ss(b, 0),
            None => false,
        },
        _ => false,
    }
}

/// Whether one of `ss[k..]` breaks (see `breaks_s`).
pub open spec fn breaks_ss(ss: Vec<(Stmt, Span)>, k: int) -> bool
    decreases ss, ss.len() - k,
{
    if 0 <= k < ss.len() {
        proof {
            vstd::std_specs::vec::axiom_vec_index_decreases(ss, k);
        }
        breaks_s(ss[k].0) || breaks_ss(ss, k + 1)
    } else {
        false
    }
}

/// Whether `s` surely leaves its block: an early exit, or an `if` whose two
/// branches both surely do.
pub open spec fn exits_s(s: Stmt) -> bool
    decreases s, 0nat,
{
    early_exit(s) || match s {
        Stmt::If { then_body, else_body: Some(b), .. } => exits_ss(then_body, 0) && exits_ss(b, 0),
        _ => false,
    }
}

/// Whether one of `ss[k..]` surely leaves the block.
pub open spec fn exits_ss(ss: Vec<(Stmt, Span)>, k: int) -> bool
    decreases ss, ss.len() - k,
{
    if 0 <= k < ss.len() {
        proof {
            vstd::std_specs::vec::axiom_vec_index_decreases(ss, k);
        }
        exits_s(ss[k].0) || exits_ss(ss, k + 1)
    } else {
        false
    }
}

/// The error for a vault `name` declared inside a loop of kind `kind`.
pub open spec fn vault_in_loop_error(name: Seq<char>, kind: Seq<char>, span: Span, lines: Seq<Seq<char>>) -> DiagnosticV {
    diagnostic(
        "E050"@,
        Severity::Error,
        "Vault '"@ + name + "' allocated inside '"@ + kind
            + "' loop \u{2014} potential memory accumulation"@,
        "Move 'Vault "@ + name + "' outside the loop, or restructure to avoid repeated heap allocation"@,
        span,
        lines,
    )
}

/// The errors for the vaults that `s` declares in a loop body, looking into
/// the branches of `if`s but not into nested loops or anchors.
pub open spec fn vault_errors_s(s: Stmt, kind: Seq<char>, span: Span, lines: Seq<Seq<char>>) -> Seq<DiagnosticV>
    decreases s, 0nat,
{
    match s {
        Stmt::VaultDecl { name, .. } => seq![vault_in_loop_error(name@, kind, span, lines)],
        Stmt::If { then_body, else_body, .. } => vault_errors_ss(then_body, 0, kind, span, lines)
            + match else_body {
            Some(b) => vault_errors_ss(b, 0, kind, span, lines),
            None => Seq::empty(),
        },
        _ => Seq::empty(),
    }
}

/// The errors for the vaults that `ss[k..]` declare in a loop body.
pub open spec fn vault_errors_ss(ss: Vec<(Stmt, Span)>, k: int, kind: Seq<char>, span: Span, lines: Seq<Seq<char>>) -> Seq<DiagnosticV>
    decreases ss, ss.len() - k,
{
    if 0 <= k < ss.len() {
        proof {
            vstd::std_specs::vec::axiom_vec_index_decreases(ss, k);
        }
        vault_errors_s(ss[k].0, kind, span, lines) + vault_errors_ss(ss, k + 1, kind, span, lines)
    } else {
        Seq::empty()
    }
}

impl Analyzer {
    /// Whether `stmt` leaves its block at once.
    pub fn stmt_is_early_exit(stmt: &Stmt) -> (r: bool)
        ensures
            r == early_exit(*stmt),
    {
        match stmt {
            Stmt::Return(_) | Stmt::Exit | Stmt::Break | Stmt::Kill(_) | Stmt::Yield(_) => true,
            _ => false,
        }
    }

    /// Whether the block breaks out of its loop: a `break`, directly or in a
    /// branch of an `if`.
    pub fn block_has_break(stmts: &Vec<(Stmt, Span)>) -> (r: bool)
        ensures
            r == breaks_ss(*stmts, 0),
        decreases stmts, 1nat,
    {
        let mut k: usize = 0;
        while k < stmts.len()
            invariant
                k <= stmts@.len(),
                breaks_ss(*stmts, k as int) == breaks_ss(*stmts, 0),
            decreases stmts@.len() - k,
        {
            proof {
                vstd::std_specs::vec::axiom_vec_index_decreases(*stmts, k as int);
            }
            if Self::stmt_breaks(&stmts[k].0) {
                return true;
            }
            k = k + 1;
        }
        false
    }

    fn stmt_breaks(stmt: &Stmt) -> (r: bool)
        ensures
            r == breaks_s(*stmt),
        decreases stmt, 0nat,
    {
        match stmt {
            Stmt::Break => true,
            Stmt::If { then_body, else_body, .. } => {
                if Self::block_has_break(then_body) {
                    return true;
                }
                match else_body {
                    Some(eb) => Self::block_has_break(eb),
                    None => false,
                }
            },
            _ => false,
        }
    }

    /// Whether the block surely leaves: some statement exits early, or is an
    /// `if` whose two branches both surely leave.
    pub fn block_definitely_exits(stmts: &Vec<(Stmt, Span)>) -> (r: bool)
        ensures
            r == exits_ss(*stmts, 0),
        decreases stmts, 1nat,
    {
        let mut k: usize = 0;
        while k < stmts.len()
            invariant
                k <= stmts@.len(),
                exits_ss(*stmts, k as int) == exits_ss(*stmts, 0),
            decreases stmts@.len() - k,
        {
            proof {
                vstd::std_specs::vec::axiom_vec_index_decreases(*stmts, k as int);
            }
            if Self::stmt_exits(&stmts[k].0) {
                return true;
            }
            k = k + 1;
        }
        false
    }

    fn stmt_exits(stmt: &Stmt) -> (r: bool)
        ensures
            r == exits_s(*stmt),
        decreases stmt, 0nat,
    {
        if Self::stmt_is_early_exit(stmt) {
            return true;
        }
        match stmt {
            Stmt::If { then_body, else_body: Some(eb), .. } => Self::block_definitely_exits(then_body)
                && Self::block_definitely_exits(eb),
            _ => false,
        }
    }

    /// Reports each vault that the loop body `body` declares (in the branches
    /// of its `if`s too, but not in nested loops or anchors): a loop of kind
    /// `loop_kind` would allocate it again on each turn.
    pub fn check_vault_in_loop(&mut self, body: &Vec<(Stmt, Span)>, loop_kind: &str)
        ensures
            final(self).reported() == old(self).reported() + vault_errors_ss(
                *body,
                0,
                loop_kind@,
                old(self).span(),
                old(self).lines(),
            ),
            final(self).same_state(*old(self)),
        decreases body, 1nat,
    {
        let ghost span = self.span();
        let ghost lines = self.lines();
        let mut k: usize = 0;
        while k < body.len()
            invariant
                k <= body@.len(),
                self.same_state(*old(self)),
                span == old(self).span(),
                lines == old(self).lines(),
                old(self).reported() + vault_errors_ss(*body, 0, loop_kind@, span, lines)
                    == self.reported() + vault_errors_ss(*body, k as int, loop_kind@, span, lines),
            decreases body@.len() - k,
        {
            proof {
                vstd::std_specs::vec::axiom_vec_index_decreases(*body, k as int);
            }
            let ghost before = self.reported();
            self.check_vault_stmt(&body[k].0, loop_kind);
            proof {
                assert(before + vault_errors_ss(*body, k as int, loop_kind@, span, lines) =~= self.reported()
                    + vault_errors_ss(*body, k + 1, loop_kind@, span, lines));
            }
            k = k + 1;
        }
        proof {
            assert(self.reported() + vault_errors_ss(*body, k as int, loop_kind@, span, lines) =~= self.reported());
        }
    }

    fn check_vault_stmt(&mut self, stmt: &Stmt, loop_kind: &str)
        ensures
            final(self).reported() == old(self).reported() + vault_errors_s(
                *stmt,
                loop_kind@,
                old(self).span(),
                old(self).lines(),
            ),
            final(self).same_state(*old(self)),
        decreases stmt, 0nat,
    {
        match stmt {
            Stmt::VaultDecl { name, .. } => {
                let mut msg: Vec<char> = Vec::new();
                push_str(&mut msg, "Vault '");
                push_str(&mut msg, name.as_str());
                push_str(&mut msg, "' allocated inside '");
                push_str(&mut msg, loop_kind);
                push_str(&mut msg, "' loop \u{2014} potential memory accumulation");
                let mut hint: Vec<char> = Vec::new();
                push_str(&mut hint, "Move 'Vault ");
                push_str(&mut hint, name.as_str());
                push_str(
                    &mut hint,
                    "' outside the loop, or restructure to avoid repeated heap allocation",
                );
                proof {
                    assert(msg@ =~= "Vault '"@ + name@ + "' allocated inside '"@ + loop_kind@
                        + "' loop \u{2014} potential memory accumulation"@);
                    assert(hint@ =~= "Move 'Vault "@ + name@
                        + "' outside the loop, or restructure to avoid repeated heap allocation"@);
                }
                self.err("E050", string_of(msg.as_slice()), string_of(hint.as_slice()));
            },
            Stmt::If { then_body, else_body, .. } => {
                self.check_vault_in_loop(then_body, loop_kind);
                match else_body {
                    Some(eb) => {
                        self.check_vault_in_loop(eb, loop_kind);
                    },
                    None => {
                        proof {
                            assert(self.reported() =~= self.reported() + Seq::<DiagnosticV>::empty());
                        }
                    },
                }
                proof {
                    assert(self.reported() =~= old(self).reported() + vault_errors_s(
                        *stmt,
                        loop_kind@,
                        old(self).span(),
                        old(self).lines(),
                    ));
                }
            },
            _ => {
                proof {
                    assert(self.reported() =~= old(self).reported() + Seq::<DiagnosticV>::empty());
                }
            },
        }
    }
}

} // verus!
