//! Deciding, before a run, whether inference can type a program: whether
//! its handles are valid, its expressions are acyclic, and its variable
//! references resolve.

use vstd::prelude::*;

use crate::arena::{
    expr_at, expr_count, fnc_def_at, fnc_def_count, local_def_at, local_def_count, param_count,
};
use crate::hir::{Expr, ExprIdx, FncDefIdx, LocalDefIdx, Program, Stmt};
use crate::infer::{infer, infer_in_scope, InScope, InferResult};
use crate::resolve::stmts_resolve;
use crate::typing::Scope;

verus! {

impl Program {
    /// What `can_infer` decides, which is what `infer_in_scope` requires:
    /// the program is well formed, and in a run seeded with `seed` every
    /// variable reference resolves.
    pub open spec fn typable_from(&self, seed: Scope) -> bool {
        self.well_formed() && self.hir().resolves(self.stmts@, seed)
    }

    /// Decides whether the statement refers to a node of its arena.
    fn has_stmt(&self, stmt: Stmt) -> (ok: bool)
        ensures
            ok == self.hir().stmt_valid(stmt),
    {
        match stmt {
            Stmt::LocalDef(def) => (def.0 as usize) < local_def_count(&self.local_defs),
            Stmt::FncDef(def) => (def.0 as usize) < fnc_def_count(&self.fnc_defs),
            Stmt::Expr(expr) => (expr.0 as usize) < expr_count(&self.exprs),
        }
    }

    /// Decides whether every statement of the list refers to a node of its
    /// arena.
    fn has_stmts(&self, stmts: &Vec<Stmt>) -> (ok: bool)
        ensures
            ok == self.hir().stmts_valid(stmts@),
    {
        let mut i: usize = 0;
        while i < stmts.len()
            invariant
                i <= stmts.len(),
                forall|j: int| 0 <= j < i ==> self.hir().stmt_valid(#[trigger] stmts@[j]),
            decreases stmts.len() - i,
        {
            if !self.has_stmt(stmts[i]) {
                return false;
            }
            i = i + 1;
        }
        true
    }

    /// The expression that typing the statement begins with.
    pub(crate) fn stmt_root(&self, stmt: Stmt) -> (root: ExprIdx)
        requires
            self.hir().stmt_valid(stmt),
        ensures
            root == self.hir().stmt_root(stmt),
    {
        match stmt {
            Stmt::LocalDef(def) => local_def_at(&self.local_defs, def.0).value,
            Stmt::FncDef(def) => fnc_def_at(&self.fnc_defs, def.0).body,
            Stmt::Expr(expr) => expr,
        }
    }

    /// Decides whether every expression that has a handle refers to nodes
    /// of the arenas.
    fn exprs_valid(&self) -> (ok: bool)
        ensures
            ok == (forall|expr: ExprIdx|
                expr.pos() < self.hir().exprs.len() ==> self.hir().expr_valid(
                    #[trigger] self.hir().exprs[expr.pos()],
                )),
    {
        let count = expr_count(&self.exprs);
        let mut next: u32 = 0;
        loop
            invariant
                count == self.hir().exprs.len(),
                forall|expr: ExprIdx|
                    expr.0 < next && expr.pos() < self.hir().exprs.len()
                        ==> self.hir().expr_valid(#[trigger] self.hir().exprs[expr.pos()]),
            decreases u32::MAX - next,
        {
            if (next as usize) >= count {
                return true;
            }
            let valid = match expr_at(&self.exprs, next) {
                Expr::Bin { lhs, rhs, .. } => (lhs.0 as usize) < count && (rhs.0 as usize) < count,
                Expr::Block(stmts) => self.has_stmts(stmts),
                Expr::Missing | Expr::VarRef(_) | Expr::IntLiteral(_) | Expr::StringLiteral(_) => true,
            };
            if !valid {
                assert(!self.hir().expr_valid(self.hir().exprs[ExprIdx(next).pos()]));
                return false;
            }
            if next == u32::MAX {
                return true;
            }
            next = next + 1;
        }
    }

    /// Decides whether the value of every local definition that has a
    /// handle is an expression of the arena.
    fn local_defs_valid(&self) -> (ok: bool)
        ensures
            ok == (forall|def: LocalDefIdx|
                def.pos() < self.hir().local_defs.len() ==> self.hir().local_def_valid(
                    #[trigger] self.hir().local_defs[def.pos()],
                )),
    {
        let count = local_def_count(&self.local_defs);
        let exprs = expr_count(&self.exprs);
        let mut next: u32 = 0;
        loop
            invariant
                count == self.hir().local_defs.len(),
                exprs == self.hir().exprs.len(),
                forall|def: LocalDefIdx|
                    def.0 < next && def.pos() < self.hir().local_defs.len()
                        ==> self.hir().local_def_valid(
                        #[trigger] self.hir().local_defs[def.pos()],
                    ),
            decreases u32::MAX - next,
        {
            if (next as usize) >= count {
                return true;
            }
            let local_def = local_def_at(&self.local_defs, next);
            if (local_def.value.0 as usize) >= exprs {
                assert(!self.hir().local_def_valid(self.hir().local_defs[LocalDefIdx(next).pos()]));
                return false;
            }
            if next == u32::MAX {
                return true;
            }
            next = next + 1;
        }
    }

    /// Decides whether the body and the parameters of every function
    /// definition that has a handle are nodes of the arenas.
    fn fnc_defs_valid(&self) -> (ok: bool)
        ensures
            ok == (forall|def: FncDefIdx|
                def.pos() < self.hir().fnc_defs.len() ==> self.hir().fnc_def_valid(
                    #[trigger] self.hir().fnc_defs[def.pos()],
                )),
    {
        let count = fnc_def_count(&self.fnc_defs);
        let exprs = expr_count(&self.exprs);
        let params = param_count(&self.params);
        let mut next: u32 = 0;
        loop
            invariant
                count == self.hir().fnc_defs.len(),
                exprs == self.hir().exprs.len(),
                params == self.hir().params.len(),
                forall|def: FncDefIdx|
                    def.0 < next && def.pos() < self.hir().fnc_defs.len()
                        ==> self.hir().fnc_def_valid(#[trigger] self.hir().fnc_defs[def.pos()]),
            decreases u32::MAX - next,
        {
            if (next as usize) >= count {
                return true;
            }
            let fnc_def = fnc_def_at(&self.fnc_defs, next);
            let body_valid = (fnc_def.body.0 as usize) < exprs;
            let params_valid = fnc_def.params.start.0 >= fnc_def.params.end.0 || (
            fnc_def.params.end.0 as usize) <= params;
            if !(body_valid && params_valid) {
                assert(!self.hir().fnc_def_valid(self.hir().fnc_defs[FncDefIdx(next).pos()]));
                return false;
            }
            if next == u32::MAX {
                return true;
            }
            next = next + 1;
        }
    }
}

/// Decides whether `infer_in_scope` can type the program from `in_scope`:
/// whether the program is well formed and its variable references resolve.
pub fn can_infer(program: &Program, in_scope: &InScope) -> (ok: bool)
    ensures
        ok == program.typable_from(in_scope@),
{
    if !program.exprs_valid() || !program.local_defs_valid() || !program.fnc_defs_valid() {
        return false;
    }
    if !program.exprs_acyclic() {
        return false;
    }
    if !program.has_stmts(&program.stmts) {
        return false;
    }
    stmts_resolve(program, in_scope)
}

/// Types the program from `in_scope` if `can_infer` accepts the two, and
/// hands `in_scope` back if it does not.
pub fn try_infer_in_scope(
    program: &Program,
    in_scope: InScope,
) -> (result: Result<InferResult, InScope>)
    ensures
        match result {
            Ok(typed) => {
                &&& program.typable_from(in_scope@)
                &&& typed@ == program.hir().infer(program.stmts@, in_scope@)
            },
            Err(unused) => !program.typable_from(in_scope@) && unused == in_scope,
        },
{
    if can_infer(program, &in_scope) {
        Ok(infer_in_scope(program, in_scope))
    } else {
        Err(in_scope)
    }
}

/// Types the program from nothing if `can_infer` accepts it with an empty
/// scope.
pub fn try_infer(program: &Program) -> (result: Option<InferResult>)
    ensures
        match result {
            Some(typed) => {
                &&& program.typable_from(Scope::empty())
                &&& typed@ == program.hir().infer(program.stmts@, Scope::empty())
            },
            None => !program.typable_from(Scope::empty()),
        },
{
    if can_infer(program, &InScope::default()) {
        Some(infer(program))
    } else {
        None
    }
}

} // verus!
