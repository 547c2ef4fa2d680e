//! What holds of every run of inference, proved of the traversal that
//! `typing` defines.

use vstd::prelude::*;

use crate::hir::{Expr, ExprIdx, FncDefIdx, Hir, Stmt};
use crate::ty::{tys_clash, Ty, TyError, TyErrorKind};
use crate::typing::{Node, Scope, Typing};

verus! {

impl Hir {
    /// Holding two types against each other takes nothing away, and adds a
    /// diagnostic only for types that clash.
    pub proof fn lemma_expect_tys_match_grows(
        self,
        typing: Typing,
        expr: ExprIdx,
        expected: Ty,
        found: Ty,
    )
        ensures
            self.expect_tys_match(typing, expr, expected, found).grown_from(typing),
            typing.errors_clash() ==> self.expect_tys_match(
                typing,
                expr,
                expected,
                found,
            ).errors_clash(),
    {
    }

    /// Typing an expression takes nothing away, gives a type to every node
    /// it comes to, and reports only types that clash.
    pub proof fn lemma_infer_expr_grows(self, typing: Typing, expr: ExprIdx)
        requires
            self.well_formed(),
            expr.pos() < self.exprs.len(),
        ensures
            self.infer_expr(typing, expr).0.grown_from(typing),
            typing.errors_clash() ==> self.infer_expr(typing, expr).0.errors_clash(),
            forall|node: Node| #[trigger]
                self.expr_reaches(expr, node) ==> self.infer_expr(typing, expr).0.has_ty(node),
        decreases self.depth(expr), 2nat, 0nat,
    {
        let end = self.infer_expr(typing, expr).0;
        match self.exprs[expr.pos()] {
            Expr::Bin { lhs, rhs, .. } => {
                self.lemma_child_is_deeper(expr, lhs);
                self.lemma_child_is_deeper(expr, rhs);
                let (after_lhs, lhs_ty) = self.infer_expr(typing, lhs);
                let (after_rhs, rhs_ty) = self.infer_expr(after_lhs, rhs);
                let lhs_compared = self.expect_tys_match(after_rhs, lhs, Ty::Int, lhs_ty);
                let rhs_compared = self.expect_tys_match(lhs_compared, rhs, Ty::Int, rhs_ty);
                self.lemma_infer_expr_grows(typing, lhs);
                self.lemma_infer_expr_grows(after_lhs, rhs);
                self.lemma_expect_tys_match_grows(after_rhs, lhs, Ty::Int, lhs_ty);
                self.lemma_expect_tys_match_grows(lhs_compared, rhs, Ty::Int, rhs_ty);
                assert(end.grown_from(rhs_compared));
                assert forall|node: Node| #[trigger] self.expr_reaches(expr, node) implies end.has_ty(
                    node,
                ) by {
                    if self.expr_reaches(lhs, node) {
                        assert(after_lhs.has_ty(node));
                    } else if self.expr_reaches(rhs, node) {
                        assert(after_rhs.has_ty(node));
                    }
                }
            },
            Expr::Block(stmts) => {
                self.lemma_block_below(expr);
                self.lemma_infer_stmts_grows(typing, stmts@);
                let after = self.infer_stmts(typing, stmts@).0;
                assert(end.grown_from(after));
                assert forall|node: Node| #[trigger] self.expr_reaches(expr, node) implies end.has_ty(
                    node,
                ) by {
                    if self.stmts_reach(stmts@, node) {
                        assert(after.has_ty(node));
                    }
                }
            },
            _ => {
                assert(end.grown_from(typing));
            },
        }
    }

    /// Typing a list of statements takes nothing away, gives a type to
    /// every node it comes to, and reports only types that clash.
    pub proof fn lemma_infer_stmts_grows(self, typing: Typing, stmts: Seq<Stmt>)
        requires
            self.well_formed(),
            self.stmts_valid(stmts),
        ensures
            self.infer_stmts(typing, stmts).0.grown_from(typing),
            typing.errors_clash() ==> self.infer_stmts(typing, stmts).0.errors_clash(),
            forall|node: Node| #[trigger]
                self.stmts_reach(stmts, node) ==> self.infer_stmts(typing, stmts).0.has_ty(node),
        decreases self.stmts_height(stmts), 1nat, stmts.len(),
    {
        if stmts.len() > 0 {
            let before_last = self.infer_stmts(typing, stmts.drop_last()).0;
            let end = self.infer_stmts(typing, stmts).0;
            self.lemma_infer_stmts_grows(typing, stmts.drop_last());
            self.lemma_infer_stmt_grows(before_last, stmts.last());
            assert(end == self.infer_stmt(before_last, stmts.last()).0);
            assert forall|node: Node| #[trigger] self.stmts_reach(stmts, node) implies end.has_ty(
                node,
            ) by {
                if self.stmts_reach(stmts.drop_last(), node) {
                    assert(before_last.has_ty(node));
                } else {
                    assert(self.stmt_reaches(stmts.last(), node));
                }
            }
        }
    }

    /// Typing a statement takes nothing away, gives a type to every node
    /// it comes to, and reports only types that clash.
    pub proof fn lemma_infer_stmt_grows(self, typing: Typing, stmt: Stmt)
        requires
            self.well_formed(),
            self.stmt_valid(stmt),
        ensures
            self.infer_stmt(typing, stmt).0.grown_from(typing),
            typing.errors_clash() ==> self.infer_stmt(typing, stmt).0.errors_clash(),
            forall|node: Node| #[trigger]
                self.stmt_reaches(stmt, node) ==> self.infer_stmt(typing, stmt).0.has_ty(node),
        decreases self.depth(self.stmt_root(stmt)), 4nat, 0nat,
    {
        self.lemma_stmt_root_valid(stmt);
        let end = self.infer_stmt(typing, stmt).0;
        match stmt {
            Stmt::LocalDef(def) => {
                let value = self.local_defs[def.pos()].value;
                self.lemma_infer_expr_grows(typing, value);
                let after = self.infer_expr(typing, value).0;
                assert(end.grown_from(after));
                assert forall|node: Node| #[trigger] self.stmt_reaches(stmt, node) implies end.has_ty(
                    node,
                ) by {
                    if self.expr_reaches(value, node) {
                        assert(after.has_ty(node));
                    }
                }
            },
            Stmt::FncDef(def) => {
                self.lemma_infer_fnc_def_grows(typing, def);
                assert(end == self.infer_fnc_def(typing, def));
            },
            Stmt::Expr(expr) => {
                self.lemma_infer_expr_grows(typing, expr);
                assert forall|node: Node| #[trigger] self.stmt_reaches(stmt, node) implies end.has_ty(
                    node,
                ) by {
                    assert(self.expr_reaches(expr, node));
                }
            },
        }
    }

    /// Typing a function definition takes nothing away, gives a type to
    /// the function, to its parameters and to every node that typing its
    /// body comes to, and reports only types that clash.
    pub proof fn lemma_infer_fnc_def_grows(self, typing: Typing, def: FncDefIdx)
        requires
            self.well_formed(),
            def.pos() < self.fnc_defs.len(),
        ensures
            self.infer_fnc_def(typing, def).grown_from(typing),
            typing.errors_clash() ==> self.infer_fnc_def(typing, def).errors_clash(),
            forall|node: Node| #[trigger]
                self.stmt_reaches(Stmt::FncDef(def), node) ==> self.infer_fnc_def(
                    typing,
                    def,
                ).has_ty(node),
        decreases self.depth(self.fnc_defs[def.pos()].body), 3nat, 0nat,
    {
        let fnc_def = self.fnc_defs[def.pos()];
        assert(self.fnc_def_valid(fnc_def));
        let bound = self.bind_params(typing, fnc_def.params);
        let (after_body, body_ty) = self.infer_expr(bound, fnc_def.body);
        let compared = self.expect_tys_match(after_body, fnc_def.body, fnc_def.ret_ty, body_ty);
        let end = self.infer_fnc_def(typing, def);
        assert(bound.grown_from(typing));
        self.lemma_infer_expr_grows(bound, fnc_def.body);
        self.lemma_expect_tys_match_grows(after_body, fnc_def.body, fnc_def.ret_ty, body_ty);
        assert(end.grown_from(compared));
        assert forall|node: Node| #[trigger]
            self.stmt_reaches(Stmt::FncDef(def), node) implies end.has_ty(node) by {
            if self.expr_reaches(fnc_def.body, node) {
                assert(after_body.has_ty(node));
            } else if node != Node::FncDef(def) {
                assert(bound.has_ty(node));
            }
        }
    }

    /// Totality: a run gives a type to every expression, local definition,
    /// parameter and function that it comes to.
    pub proof fn lemma_every_node_gets_a_type(self, stmts: Seq<Stmt>, seed: Scope, node: Node)
        requires
            self.well_formed(),
            self.stmts_valid(stmts),
            self.stmts_reach(stmts, node),
        ensures
            self.infer(stmts, seed).has_ty(node),
    {
        self.lemma_infer_stmts_grows(Typing::start(seed), stmts);
    }

    /// What a run is seeded with, it keeps: a node that has a type in the
    /// seed has one in the result.
    pub proof fn lemma_seed_is_kept(self, stmts: Seq<Stmt>, seed: Scope, node: Node)
        requires
            self.well_formed(),
            self.stmts_valid(stmts),
            Typing::start(seed).has_ty(node),
        ensures
            self.infer(stmts, seed).has_ty(node),
    {
        self.lemma_infer_stmts_grows(Typing::start(seed), stmts);
    }

    /// Absorption, of a whole run: every diagnostic that a run reports is
    /// about two types that differ and of which neither is `Unknown`.
    pub proof fn lemma_diagnostics_clash(self, stmts: Seq<Stmt>, seed: Scope)
        requires
            self.well_formed(),
            self.stmts_valid(stmts),
        ensures
            self.infer(stmts, seed).errors_clash(),
    {
        self.lemma_infer_stmts_grows(Typing::start(seed), stmts);
    }

    /// Absorption: a comparison in which the expected or the found type is
    /// `Unknown` changes nothing, so it yields no diagnostic.
    pub proof fn lemma_unknown_is_absorbed(self, typing: Typing, expr: ExprIdx, other: Ty)
        ensures
            !tys_clash(Ty::Unknown, other),
            !tys_clash(other, Ty::Unknown),
            self.expect_tys_match(typing, expr, Ty::Unknown, other) == typing,
            self.expect_tys_match(typing, expr, other, Ty::Unknown) == typing,
    {
    }

    /// Block typing: an empty block has type `Unit`; a block that ends in
    /// an expression statement has the type that the run gives to that
    /// expression; a block that ends in a definition has type `Unit`.
    pub proof fn lemma_block_ty(self, typing: Typing, block: ExprIdx)
        requires
            self.well_formed(),
            block.pos() < self.exprs.len(),
            self.exprs[block.pos()] is Block,
        ensures
            ({
                let stmts = self.exprs[block.pos()]->Block_0@;
                let (after, ty) = self.infer_expr(typing, block);
                &&& after.expr_tys.contains_key(block) && after.expr_tys[block] == ty
                &&& stmts.len() == 0 ==> ty == Ty::Unit
                &&& stmts.len() > 0 ==> match stmts.last() {
                    Stmt::Expr(inner) => {
                        &&& after.expr_tys.contains_key(inner)
                        &&& ty == after.expr_tys[inner]
                    },
                    _ => ty == Ty::Unit,
                }
            }),
    {
        let stmts = self.exprs[block.pos()]->Block_0@;
        self.lemma_block_below(block);
        if stmts.len() > 0 {
            let before_last = self.infer_stmts(typing, stmts.drop_last()).0;
            assert(self.infer_stmts(typing, stmts) == self.infer_stmt(before_last, stmts.last()));
            match stmts.last() {
                Stmt::Expr(inner) => {
                    // The block is typed after `inner`, and is another
                    // expression: recording its type leaves that of `inner`.
                    self.lemma_child_is_deeper(block, inner);
                    assert(inner != block);
                    assert(self.infer_stmt(before_last, stmts.last()) == self.infer_expr(
                        before_last,
                        inner,
                    ));
                },
                _ => {},
            }
        }
    }

    /// Error locality: where the types clash at a block that ends in an
    /// expression statement, the diagnostic points to the expression of
    /// that statement, which is not the block.
    pub proof fn lemma_block_error_is_located_inside(
        self,
        typing: Typing,
        block: ExprIdx,
        expected: Ty,
        found: Ty,
    )
        requires
            self.well_formed(),
            block.pos() < self.exprs.len(),
            self.exprs[block.pos()] is Block,
            self.exprs[block.pos()]->Block_0@.len() > 0,
            self.exprs[block.pos()]->Block_0@.last() is Expr,
            tys_clash(expected, found),
        ensures
            ({
                let inner = self.exprs[block.pos()]->Block_0@.last()->Expr_0;
                &&& inner != block
                &&& self.expect_tys_match(typing, block, expected, found).errors
                    == typing.errors.push(
                    TyError { expr: inner, kind: TyErrorKind::Mismatch { expected, found } },
                )
            }),
    {
        let stmts = self.exprs[block.pos()]->Block_0@;
        self.lemma_child_is_deeper(block, stmts.last()->Expr_0);
    }

    /// Error locality, the other cases: at an expression that is no block,
    /// at an empty block and at a block that ends in a definition, the
    /// diagnostic points to the expression itself.
    pub proof fn lemma_other_error_is_located_at_expr(
        self,
        typing: Typing,
        expr: ExprIdx,
        expected: Ty,
        found: Ty,
    )
        requires
            self.exprs[expr.pos()] matches Expr::Block(stmts) ==> stmts@.len() == 0
                || !(stmts@.last() is Expr),
            tys_clash(expected, found),
        ensures
            self.expect_tys_match(typing, expr, expected, found).errors == typing.errors.push(
                TyError { expr, kind: TyErrorKind::Mismatch { expected, found } },
            ),
    {
    }

    /// Snapshot idempotence: a run over no statements, seeded with the
    /// scope of a result, is allowed, ends with that scope and reports
    /// nothing.
    pub proof fn lemma_snapshot_is_idempotent(self, result: Typing)
        requires
            self.well_formed(),
        ensures
            self.resolves(Seq::empty(), result.scope()),
            self.infer(Seq::empty(), result.scope()).scope() == result.scope(),
            self.infer(Seq::empty(), result.scope()).errors == Seq::<TyError>::empty(),
    {
        assert(self.stmts_valid(Seq::<Stmt>::empty()));
    }
}

} // verus!
