//! Deciding whether the variable references of a program resolve.

use vstd::prelude::*;

use crate::arena::{
    clone_local_tys, clone_param_tys, expr_at, fnc_def_at, get_local_ty, get_param_ty,
    insert_local_ty, insert_param_ty, local_def_at, local_def_count, local_ty_entries,
    param_count, param_ty_entries, LocalTys, ParamTys,
};
use crate::hir::{Expr, ExprIdx, Hir, LocalDefIdx, ParamIdx, ParamRange, Program, Stmt, VarDefIdx};
use crate::infer::InScope;
use crate::ty::Ty;
use crate::typing::Typing;

verus! {

/// A walk over a program in the order of inference that only keeps which
/// local definitions and parameters have a type: a handle is bound when
/// the map holds something at its position.
struct Resolver<'a> {
    program: &'a Program,
    locals: LocalTys,
    params: ParamTys,
}

impl<'a> Resolver<'a> {
    /// What the arenas of the program hold.
    spec fn hir(&self) -> Hir {
        self.program.hir()
    }

    /// The arenas are well formed, and small enough that a slot can be
    /// added to a map behind each of their positions.
    spec fn inv(&self) -> bool {
        &&& self.hir().well_formed()
        &&& self.hir().local_defs.len() <= usize::MAX
        &&& self.hir().params.len() <= usize::MAX
    }

    /// The walk has bound this local definition.
    spec fn local_bound(&self, def: LocalDefIdx) -> bool {
        local_ty_entries(self.locals).contains_key(def.0)
    }

    /// The walk has bound this parameter.
    spec fn param_bound(&self, param: ParamIdx) -> bool {
        param_ty_entries(self.params).contains_key(param.0)
    }

    /// The walk has bound what has a type in `typing`, and nothing else.
    spec fn tracks(&self, typing: Typing) -> bool {
        &&& forall|def: LocalDefIdx|
            #![trigger typing.local_tys.contains_key(def)]
            #![trigger self.local_bound(def)]
            typing.local_tys.contains_key(def) == self.local_bound(def)
        &&& forall|param: ParamIdx|
            #![trigger typing.param_tys.contains_key(param)]
            #![trigger self.param_bound(param)]
            typing.param_tys.contains_key(param) == self.param_bound(param)
    }

    /// Decides whether the variable references of a statement resolve, and
    /// binds what the statement defines.
    fn resolve_stmt(&mut self, stmt: Stmt, Ghost(typing): Ghost<Typing>) -> (ok: bool)
        requires
            old(self).inv(),
            old(self).hir().stmt_valid(stmt),
            old(self).tracks(typing),
        ensures
            final(self).program == old(self).program,
            ok == old(self).hir().stmt_resolves(typing, stmt),
            ok ==> final(self).tracks(old(self).hir().infer_stmt(typing, stmt).0),
        decreases old(self).hir().depth(old(self).hir().stmt_root(stmt)), 4nat,
    {
        let ghost hir = self.hir();
        proof {
            hir.lemma_stmt_root_valid(stmt);
        }
        match stmt {
            Stmt::LocalDef(def) => {
                let value = local_def_at(&self.program.local_defs, def.0).value;
                if !self.resolve_expr(value, Ghost(typing)) {
                    return false;
                }
                let _ = insert_local_ty(&mut self.locals, def.0, Ty::Unknown);
                proof {
                    assert forall|other: LocalDefIdx| other != def implies other.0 != def.0 by {}
                }
                true
            },
            Stmt::FncDef(def) => {
                let fnc_def = *fnc_def_at(&self.program.fnc_defs, def.0);
                assert(hir.fnc_def_valid(fnc_def));
                let start = fnc_def.params.start;
                let end = fnc_def.params.end;
                let mut param_idx = start;
                while param_idx.0 < end.0
                    invariant
                        self.program == old(self).program,
                        self.hir() == hir,
                        self.inv(),
                        hir.fnc_def_valid(fnc_def),
                        start == fnc_def.params.start,
                        end == fnc_def.params.end,
                        start.0 <= param_idx.0,
                        start.0 < end.0 ==> param_idx.0 <= end.0,
                        start.0 >= end.0 ==> param_idx == start,
                        self.tracks(hir.bind_params(typing, ParamRange { start, end: param_idx })),
                    decreases end.0 - param_idx.0,
                {
                    let ghost prior = *self;
                    let _ = insert_param_ty(&mut self.params, param_idx.0, Ty::Unknown);
                    let next = ParamIdx(param_idx.0 + 1);
                    proof {
                        let done = hir.bind_params(typing, ParamRange { start, end: param_idx });
                        let more = hir.bind_params(typing, ParamRange { start, end: next });
                        assert forall|param: ParamIdx|
                            more.param_tys.contains_key(param) == self.param_bound(
                                param,
                            ) by {
                            if param != param_idx {
                                assert(param.0 != param_idx.0);
                                assert(done.param_tys.contains_key(param) == prior.param_bound(
                                    param,
                                ));
                            }
                        }
                        assert forall|def: LocalDefIdx|
                            more.local_tys.contains_key(def) == self.local_bound(def) by {
                            assert(done.local_tys.contains_key(def) == prior.local_bound(def));
                        }
                    }
                    param_idx = next;
                }
                assert(ParamRange { start, end: param_idx }.count() == fnc_def.params.count());
                assert(self.tracks(hir.bind_params(typing, fnc_def.params)));
                self.resolve_expr(fnc_def.body, Ghost(hir.bind_params(typing, fnc_def.params)))
            },
            Stmt::Expr(expr) => self.resolve_expr(expr, Ghost(typing)),
        }
    }

    /// Decides whether the variable references of an expression resolve,
    /// and binds what the statements inside it define.
    fn resolve_expr(&mut self, expr: ExprIdx, Ghost(typing): Ghost<Typing>) -> (ok: bool)
        requires
            old(self).inv(),
            expr.pos() < old(self).hir().exprs.len(),
            old(self).tracks(typing),
        ensures
            final(self).program == old(self).program,
            ok == old(self).hir().expr_resolves(typing, expr),
            ok ==> final(self).tracks(old(self).hir().infer_expr(typing, expr).0),
        decreases old(self).hir().depth(expr), 2nat,
    {
        let ghost hir = self.hir();
        proof {
            assert(hir.expr_valid(hir.exprs[expr.pos()]));
        }
        match expr_at(&self.program.exprs, expr.0) {
            Expr::Bin { lhs, rhs, .. } => {
                proof {
                    hir.lemma_child_is_deeper(expr, *lhs);
                    hir.lemma_child_is_deeper(expr, *rhs);
                }
                if !self.resolve_expr(*lhs, Ghost(typing)) {
                    return false;
                }
                self.resolve_expr(*rhs, Ghost(hir.infer_expr(typing, *lhs).0))
            },
            Expr::Block(stmts) => {
                let ghost mut now = typing;
                let mut i: usize = 0;
                while i < stmts.len()
                    invariant
                        i <= stmts.len(),
                        self.program == old(self).program,
                        self.hir() == hir,
                        old(self).hir() == hir,
                        self.inv(),
                        expr.pos() < hir.exprs.len(),
                        hir.exprs[expr.pos()] == Expr::Block(*stmts),
                        hir.stmts_valid(stmts@),
                        hir.stmts_resolve(typing, stmts@.take(i as int)),
                        now == hir.infer_stmts(typing, stmts@.take(i as int)).0,
                        self.tracks(now),
                    decreases stmts.len() - i,
                {
                    let stmt = stmts[i];
                    proof {
                        let done = stmts@.take(i as int);
                        let more = stmts@.take(i + 1);
                        assert(more.drop_last() =~= done);
                        assert(more.last() == stmt);
                        assert(hir.child_of(expr, hir.stmt_root(stmts@[i as int])));
                        hir.lemma_child_is_deeper(expr, hir.stmt_root(stmt));
                    }
                    if !self.resolve_stmt(stmt, Ghost(now)) {
                        proof {
                            hir.lemma_prefix_fails(typing, stmts@, i + 1);
                        }
                        return false;
                    }
                    proof {
                        now = hir.infer_stmt(now, stmt).0;
                    }
                    i = i + 1;
                }
                assert(stmts@.take(i as int) =~= stmts@);
                true
            },
            Expr::VarRef(VarDefIdx::Local(def)) => get_local_ty(&self.locals, def.0).is_some(),
            Expr::VarRef(VarDefIdx::Param(param)) => get_param_ty(&self.params, param.0).is_some(),
            Expr::Missing | Expr::IntLiteral(_) | Expr::StringLiteral(_) => true,
        }
    }
}

/// Decides whether, in a run over the program that is seeded with
/// `in_scope`, every variable reference resolves.
pub(crate) fn stmts_resolve(program: &Program, in_scope: &InScope) -> (ok: bool)
    requires
        program.well_formed(),
    ensures
        ok == program.hir().resolves(program.stmts@, in_scope@),
{
    let ghost hir = program.hir();
    let ghost start = Typing::start(in_scope@);
    let _ = local_def_count(&program.local_defs);
    let _ = param_count(&program.params);
    let mut resolver = Resolver {
        program,
        locals: clone_local_tys(in_scope.local_tys()),
        params: clone_param_tys(in_scope.param_tys()),
    };
    let ghost mut now = start;
    let mut i: usize = 0;
    while i < program.stmts.len()
        invariant
            i <= program.stmts.len(),
            resolver.program == program,
            hir == program.hir(),
            start == Typing::start(in_scope@),
            resolver.inv(),
            hir.stmts_valid(program.stmts@),
            hir.stmts_resolve(start, program.stmts@.take(i as int)),
            now == hir.infer_stmts(start, program.stmts@.take(i as int)).0,
            resolver.tracks(now),
        decreases program.stmts.len() - i,
    {
        let stmt = program.stmts[i];
        proof {
            let done = program.stmts@.take(i as int);
            let more = program.stmts@.take(i + 1);
            assert(more.drop_last() =~= done);
            assert(more.last() == stmt);
        }
        if !resolver.resolve_stmt(stmt, Ghost(now)) {
            proof {
                hir.lemma_prefix_fails(start, program.stmts@, i + 1);
            }
            return false;
        }
        proof {
            now = hir.infer_stmt(now, stmt).0;
        }
        i = i + 1;
    }
    assert(program.stmts@.take(i as int) =~= program.stmts@);
    true
}

} // verus!
