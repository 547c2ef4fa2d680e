//! The inference engine: one pass over the statements of a program, which
//! types every expression it comes to and records what it finds.

use la_arena::Arena;
use vstd::prelude::*;

use crate::arena::{
    clone_fnc_sigs, clone_local_tys, clone_param_tys, expr_arena_items, expr_at, expr_count,
    expr_ty_entries, fnc_def_arena_items, fnc_def_at, fnc_def_count, fnc_sig_entries,
    get_expr_ty, get_fnc_sig, get_local_ty, get_param_ty, insert_expr_ty, insert_fnc_sig,
    insert_local_ty, insert_param_ty, local_def_arena_items, local_def_at, local_def_count,
    local_ty_entries, new_expr_tys, new_fnc_sigs, new_local_tys, new_param_tys,
    param_arena_items, param_at, param_count, param_ty_entries, ExprTys, FncSigs, LocalTys,
    ParamTys,
};
use crate::hir::{
    Expr, ExprIdx, FncDef, FncDefIdx, Hir, LocalDef, LocalDefIdx, Param, ParamIdx, ParamRange,
    Program, Stmt, VarDefIdx,
};
use crate::keyed::{
    expr_tys_view, fnc_sigs_view, lemma_expr_ty_stored, lemma_fnc_sig_stored,
    lemma_local_ty_stored, lemma_param_ty_stored, local_tys_view, param_tys_view,
};
use crate::ty::{clash, Sig, Ty, TyError, TyErrorKind};
use crate::typing::{Node, Scope, Typing};

verus! {

/// Types a program from nothing: the run is seeded with an empty scope.
/// The program must be well formed and its variable references must
/// resolve, which `can_infer` decides. The result is that of the traversal
/// that `Hir::infer` defines. It holds a type for every node that the
/// traversal comes to, and no diagnostic but for two types that clash.
pub fn infer(program: &Program) -> (result: InferResult)
    requires
        program.well_formed(),
        program.hir().resolves(program.stmts@, Scope::empty()),
    ensures
        result@ == program.hir().infer(program.stmts@, Scope::empty()),
        forall|node: Node| #[trigger]
            program.hir().stmts_reach(program.stmts@, node) ==> result@.has_ty(node),
        result@.errors_clash(),
{
    infer_in_scope(program, InScope::default())
}

/// Types the top-level statements of a program in order, beginning with
/// the types of `in_scope`. The program must be well formed, or the
/// traversal could leave the arenas or never end. Every variable reference
/// must resolve: the lookup of a variable that has no type yet has no
/// answer. `can_infer` decides both.
///
/// The result is that of the traversal that `Hir::infer` defines. It holds
/// a type for every node that the traversal comes to and for every node
/// that had one in `in_scope`, and no diagnostic but for two types that
/// clash.
pub fn infer_in_scope(program: &Program, in_scope: InScope) -> (result: InferResult)
    requires
        program.well_formed(),
        program.hir().resolves(program.stmts@, in_scope@),
    ensures
        result@ == program.hir().infer(program.stmts@, in_scope@),
        forall|node: Node| #[trigger]
            program.hir().stmts_reach(program.stmts@, node) ==> result@.has_ty(node),
        forall|node: Node| #[trigger]
            Typing::start(in_scope@).has_ty(node) ==> result@.has_ty(node),
        result@.errors_clash(),
{
    let mut infer_ctx = InferCtx {
        result: InferResult {
            local_tys: in_scope.local_tys,
            fnc_sigs: in_scope.fnc_sigs,
            param_tys: in_scope.param_tys,
            expr_tys: new_expr_tys(),
            errors: Vec::new(),
        },
        local_defs: &program.local_defs,
        fnc_defs: &program.fnc_defs,
        params: &program.params,
        exprs: &program.exprs,
    };
    let ghost hir = program.hir();
    let ghost start = Typing::start(in_scope@);
    assert(infer_ctx.result@.expr_tys =~= start.expr_tys);
    assert(infer_ctx.result@ == start);

    // An arena holds at most `usize::MAX` values: reading the lengths
    // shows that a map can take a slot behind each of their positions.
    let _ = local_def_count(&program.local_defs);
    let _ = fnc_def_count(&program.fnc_defs);
    let _ = param_count(&program.params);
    let _ = expr_count(&program.exprs);

    let mut i: usize = 0;
    while i < program.stmts.len()
        invariant
            i <= program.stmts.len(),
            infer_ctx.hir() == hir,
            infer_ctx.inv(),
            hir.stmts_valid(program.stmts@),
            hir.stmts_resolve(start, program.stmts@),
            infer_ctx.result@ == hir.infer_stmts(start, program.stmts@.take(i as int)).0,
        decreases program.stmts.len() - i,
    {
        let stmt = program.stmts[i];
        proof {
            let done = program.stmts@.take(i as int);
            let more = program.stmts@.take(i + 1);
            assert(more.drop_last() =~= done);
            assert(more.last() == stmt);
            hir.lemma_prefix_resolves(start, program.stmts@, i + 1);
        }
        let _ = infer_ctx.infer_stmt(stmt);
        i = i + 1;
    }
    proof {
        assert(program.stmts@.take(i as int) =~= program.stmts@);
        hir.lemma_infer_stmts_grows(start, program.stmts@);
    }

    infer_ctx.result
}

/// What one run of inference found: the types it assigned and the
/// diagnostics it reported, in the order in which it came to them.
#[derive(Debug)]
pub struct InferResult {
    local_tys: LocalTys,
    fnc_sigs: FncSigs,
    param_tys: ParamTys,
    expr_tys: ExprTys,
    errors: Vec<TyError>,
}

/// The types that a run hands to the next one: those of the local
/// definitions, of the parameters and of the functions that it typed.
#[derive(Debug)]
pub struct InScope {
    local_tys: LocalTys,
    fnc_sigs: FncSigs,
    param_tys: ParamTys,
}

impl View for InferResult {
    type V = Typing;

    closed spec fn view(&self) -> Typing {
        Typing {
            local_tys: local_tys_view(self.local_tys),
            param_tys: param_tys_view(self.param_tys),
            fnc_sigs: fnc_sigs_view(self.fnc_sigs),
            expr_tys: expr_tys_view(self.expr_tys),
            errors: self.errors@,
        }
    }
}

impl View for InScope {
    type V = Scope;

    closed spec fn view(&self) -> Scope {
        Scope {
            local_tys: local_tys_view(self.local_tys),
            param_tys: param_tys_view(self.param_tys),
            fnc_sigs: fnc_sigs_view(self.fnc_sigs),
        }
    }
}

impl InScope {
    /// The map of the types of local definitions.
    pub(crate) fn local_tys(&self) -> (map: &LocalTys)
        ensures
            local_tys_view(*map) == self@.local_tys,
    {
        &self.local_tys
    }

    /// The map of the types of parameters.
    pub(crate) fn param_tys(&self) -> (map: &ParamTys)
        ensures
            param_tys_view(*map) == self@.param_tys,
    {
        &self.param_tys
    }
}

impl Clone for InScope {
    /// A scope that holds the same types.
    fn clone(&self) -> (copy: InScope)
        ensures
            copy@ == self@,
    {
        let copy = InScope {
            local_tys: clone_local_tys(&self.local_tys),
            fnc_sigs: clone_fnc_sigs(&self.fnc_sigs),
            param_tys: clone_param_tys(&self.param_tys),
        };
        assert(copy@.local_tys =~= self@.local_tys);
        assert(copy@.param_tys =~= self@.param_tys);
        assert(copy@.fnc_sigs =~= self@.fnc_sigs);
        copy
    }
}

impl Default for InScope {
    /// The scope of a first run, in which nothing has a type yet.
    fn default() -> (scope: InScope)
        ensures
            scope@ == Scope::empty(),
    {
        let scope = InScope {
            local_tys: new_local_tys(),
            fnc_sigs: new_fnc_sigs(),
            param_tys: new_param_tys(),
        };
        assert(scope@.local_tys =~= Map::empty());
        assert(scope@.param_tys =~= Map::empty());
        assert(scope@.fnc_sigs =~= Map::empty());
        scope
    }
}

impl InferResult {
    /// Splits the result into the types that the next run can be seeded
    /// with and the diagnostics. The types of expressions are dropped.
    pub fn in_scope(self) -> (parts: (InScope, Vec<TyError>))
        ensures
            parts.0@ == self@.scope(),
            parts.1@ == self@.errors,
    {
        let in_scope = InScope {
            local_tys: self.local_tys,
            fnc_sigs: self.fnc_sigs,
            param_tys: self.param_tys,
        };

        (in_scope, self.errors)
    }

    /// The type of an expression, if the run came to it.
    pub fn expr_ty(&self, expr: ExprIdx) -> (ty: Option<Ty>)
        ensures
            ty == (if self@.expr_tys.contains_key(expr) {
                Some(self@.expr_tys[expr])
            } else {
                None
            }),
    {
        match get_expr_ty(&self.expr_tys, expr.0) {
            Some(ty) => Some(*ty),
            None => None,
        }
    }

    /// The type of a local definition, if this run or one before it typed it.
    pub fn local_ty(&self, def: LocalDefIdx) -> (ty: Option<Ty>)
        ensures
            ty == (if self@.local_tys.contains_key(def) {
                Some(self@.local_tys[def])
            } else {
                None
            }),
    {
        match get_local_ty(&self.local_tys, def.0) {
            Some(ty) => Some(*ty),
            None => None,
        }
    }

    /// The type of a parameter, if this run or one before it typed its function.
    pub fn param_ty(&self, param: ParamIdx) -> (ty: Option<Ty>)
        ensures
            ty == (if self@.param_tys.contains_key(param) {
                Some(self@.param_tys[param])
            } else {
                None
            }),
    {
        match get_param_ty(&self.param_tys, param.0) {
            Some(ty) => Some(*ty),
            None => None,
        }
    }

    /// The signature of a function, if this run or one before it typed it.
    pub fn fnc_sig(&self, def: FncDefIdx) -> (sig: Option<&Sig>)
        ensures
            match sig {
                Some(sig) => self@.fnc_sigs.contains_key(def) && sig@ == self@.fnc_sigs[def],
                None => !self@.fnc_sigs.contains_key(def),
            },
    {
        get_fnc_sig(&self.fnc_sigs, def.0)
    }

    /// The diagnostics, in the order in which the run came to them.
    pub fn errors(&self) -> (errors: &Vec<TyError>)
        ensures
            errors@ == self@.errors,
    {
        &self.errors
    }
}

/// The state of a run: the result so far, and the arenas of the program.
struct InferCtx<'a> {
    result: InferResult,
    local_defs: &'a Arena<LocalDef>,
    fnc_defs: &'a Arena<FncDef>,
    params: &'a Arena<Param>,
    exprs: &'a Arena<Expr>,
}

impl<'a> InferCtx<'a> {
    /// What the arenas of the run hold.
    spec fn hir(&self) -> Hir {
        Hir {
            local_defs: local_def_arena_items(*self.local_defs),
            fnc_defs: fnc_def_arena_items(*self.fnc_defs),
            params: param_arena_items(*self.params),
            exprs: expr_arena_items(*self.exprs),
        }
    }

    /// The arenas are well formed, and small enough that a slot can be
    /// added to a map behind each of their positions.
    spec fn inv(&self) -> bool {
        &&& self.hir().well_formed()
        &&& self.hir().local_defs.len() <= usize::MAX
        &&& self.hir().fnc_defs.len() <= usize::MAX
        &&& self.hir().params.len() <= usize::MAX
        &&& self.hir().exprs.len() <= usize::MAX
    }

    /// Types one statement and gives its value: the type of an expression
    /// statement, `Unit` for a definition.
    fn infer_stmt(&mut self, stmt: Stmt) -> (ty: Ty)
        requires
            old(self).inv(),
            old(self).hir().stmt_valid(stmt),
            old(self).hir().stmt_resolves(old(self).result@, stmt),
        ensures
            final(self).hir() == old(self).hir(),
            (final(self).result@, ty) == old(self).hir().infer_stmt(old(self).result@, stmt),
        decreases old(self).hir().depth(old(self).hir().stmt_root(stmt)), 4nat, 0nat,
    {
        match stmt {
            Stmt::LocalDef(local_def) => {
                let value = local_def_at(self.local_defs, local_def.0).value;
                let value_ty = self.infer_expr(value);
                let ghost typed = self.result.local_tys;
                let _ = insert_local_ty(&mut self.result.local_tys, local_def.0, value_ty);
                proof {
                    lemma_local_ty_stored(typed, self.result.local_tys, local_def, value_ty);
                }
            },
            Stmt::FncDef(idx) => self.infer_fnc_def(idx),
            Stmt::Expr(expr) => return self.infer_expr(expr),
        }

        Ty::Unit
    }

    /// Types one function definition: records the declared types of its
    /// parameters, types its body, holds the type of the body against the
    /// declared return type, and records the signature as declared.
    fn infer_fnc_def(&mut self, idx: FncDefIdx)
        requires
            old(self).inv(),
            idx.pos() < old(self).hir().fnc_defs.len(),
            old(self).hir().stmt_resolves(old(self).result@, Stmt::FncDef(idx)),
        ensures
            final(self).hir() == old(self).hir(),
            final(self).result@ == old(self).hir().infer_fnc_def(old(self).result@, idx),
        decreases old(self).hir().depth(old(self).hir().fnc_defs[idx.pos()].body), 3nat, 0nat,
    {
        let fnc_def = *fnc_def_at(self.fnc_defs, idx.0);
        let ghost hir = self.hir();
        let ghost before = self.result@;
        assert(hir.fnc_def_valid(fnc_def));

        let mut params: Vec<Ty> = Vec::with_capacity(fnc_def.params.len());

        let start = fnc_def.params.start;
        let end = fnc_def.params.end;
        let mut param_idx = start;
        proof {
            let none = ParamRange { start, end: param_idx };
            assert(before.param_tys =~= hir.bind_params(before, none).param_tys);
        }
        while param_idx.0 < end.0
            invariant
                self.hir() == hir,
                self.inv(),
                hir.fnc_def_valid(fnc_def),
                start == fnc_def.params.start,
                end == fnc_def.params.end,
                start.0 <= param_idx.0,
                start.0 < end.0 ==> param_idx.0 <= end.0,
                start.0 >= end.0 ==> param_idx == start,
                params@ == hir.declared_tys(ParamRange { start, end: param_idx }),
                self.result@ == hir.bind_params(before, ParamRange { start, end: param_idx }),
            decreases end.0 - param_idx.0,
        {
            let param = *param_at(self.params, param_idx.0);
            params.push(param.ty);
            let ghost bound = self.result.param_tys;
            let _ = insert_param_ty(&mut self.result.param_tys, param_idx.0, param.ty);
            let next = ParamIdx(param_idx.0 + 1);
            proof {
                let more = ParamRange { start, end: next };
                lemma_param_ty_stored(bound, self.result.param_tys, param_idx, param.ty);
                assert forall|other: ParamIdx| other != param_idx implies other.0
                    != param_idx.0 by {}
                assert(params@ =~= hir.declared_tys(more));
                assert(self.result@.param_tys =~= hir.bind_params(before, more).param_tys);
            }
            param_idx = next;
        }
        proof {
            assert(params@ =~= hir.declared_tys(fnc_def.params));
            assert(self.result@.param_tys =~= hir.bind_params(before, fnc_def.params).param_tys);
        }

        let actual_ret_ty = self.infer_expr(fnc_def.body);
        self.expect_tys_match(fnc_def.body, fnc_def.ret_ty, actual_ret_ty);

        let sig = Sig { params, ret_ty: fnc_def.ret_ty };
        let ghost recorded = self.result.fnc_sigs;
        let _ = insert_fnc_sig(&mut self.result.fnc_sigs, idx.0, sig);
        proof {
            lemma_fnc_sig_stored(recorded, self.result.fnc_sigs, idx, sig);
        }
    }

    /// Types one expression, records its type and gives it.
    fn infer_expr(&mut self, expr: ExprIdx) -> (ty: Ty)
        requires
            old(self).inv(),
            expr.pos() < old(self).hir().exprs.len(),
            old(self).hir().expr_resolves(old(self).result@, expr),
        ensures
            final(self).hir() == old(self).hir(),
            (final(self).result@, ty) == old(self).hir().infer_expr(old(self).result@, expr),
        decreases old(self).hir().depth(expr), 2nat, 0nat,
    {
        let ghost hir = self.hir();
        let ghost before = self.result@;
        let exprs = self.exprs;
        let ty = match expr_at(exprs, expr.0) {
            Expr::Missing => Ty::Unknown,
            Expr::Bin { lhs, rhs, .. } => {
                let lhs: ExprIdx = *lhs;
                let rhs: ExprIdx = *rhs;
                proof {
                    hir.lemma_child_is_deeper(expr, lhs);
                    hir.lemma_child_is_deeper(expr, rhs);
                }
                let lhs_ty = self.infer_expr(lhs);
                let rhs_ty = self.infer_expr(rhs);

                self.expect_tys_match(lhs, Ty::Int, lhs_ty);
                self.expect_tys_match(rhs, Ty::Int, rhs_ty);

                Ty::Int
            },
            Expr::Block(stmts) => {
                proof {
                    hir.lemma_block_below(expr);
                }
                let mut last = Ty::Unit;
                let mut i: usize = 0;
                while i < stmts.len()
                    invariant
                        i <= stmts.len(),
                        self.hir() == hir,
                        old(self).hir() == hir,
                        self.inv(),
                        expr.pos() < hir.exprs.len(),
                        hir.exprs[expr.pos()] == Expr::Block(*stmts),
                        hir.stmts_valid(stmts@),
                        hir.stmts_resolve(before, stmts@),
                        (self.result@, last) == hir.infer_stmts(before, stmts@.take(i as int)),
                    decreases stmts.len() - i,
                {
                    let stmt = stmts[i];
                    proof {
                        let done = stmts@.take(i as int);
                        let more = stmts@.take(i + 1);
                        assert(more.drop_last() =~= done);
                        assert(more.last() == stmt);
                        hir.lemma_prefix_resolves(before, stmts@, i + 1);
                        assert(hir.child_of(expr, hir.stmt_root(stmts@[i as int])));
                        hir.lemma_child_is_deeper(expr, hir.stmt_root(stmt));
                    }
                    last = self.infer_stmt(stmt);
                    i = i + 1;
                }
                assert(stmts@.take(i as int) =~= stmts@);
                last
            },
            Expr::VarRef(VarDefIdx::Local(local_def)) => {
                *get_local_ty(&self.result.local_tys, local_def.0).unwrap()
            },
            Expr::VarRef(VarDefIdx::Param(param)) => {
                *get_param_ty(&self.result.param_tys, param.0).unwrap()
            },
            Expr::IntLiteral(_) => Ty::Int,
            Expr::StringLiteral(_) => Ty::String,
        };

        let ghost typed = self.result.expr_tys;
        let _ = insert_expr_ty(&mut self.result.expr_tys, expr.0, ty);
        proof {
            lemma_expr_ty_stored(typed, self.result.expr_tys, expr, ty);
        }

        ty
    }

    /// Holds `found` against `expected`: where the two clash, reports it at
    /// `expr`, or at the expression that ends `expr` where that is a block
    /// ending in an expression statement.
    fn expect_tys_match(&mut self, expr: ExprIdx, expected: Ty, found: Ty)
        requires
            expr.pos() < old(self).hir().exprs.len(),
        ensures
            final(self).hir() == old(self).hir(),
            final(self).result@ == old(self).hir().expect_tys_match(
                old(self).result@,
                expr,
                expected,
                found,
            ),
    {
        if !clash(expected, found) {
            return;
        }
        let expr = match expr_at(self.exprs, expr.0) {
            Expr::Block(stmts) => {
                if stmts.len() > 0 {
                    match stmts[stmts.len() - 1] {
                        Stmt::Expr(e) => e,
                        _ => expr,
                    }
                } else {
                    expr
                }
            },
            _ => expr,
        };

        self.result.errors.push(TyError { expr, kind: TyErrorKind::Mismatch { expected, found } });
    }
}

} // verus!
