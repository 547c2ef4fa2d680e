//! What inference computes, as mathematics: the traversal of a program as
//! a function from the types assigned so far to the types assigned after.

use vstd::prelude::*;

use crate::hir::{
    Expr, ExprIdx, FncDefIdx, Hir, LocalDefIdx, ParamIdx, ParamRange, Stmt, VarDefIdx,
};
use crate::ty::{tys_clash, SigView, Ty, TyError, TyErrorKind};

verus! {

/// The types that one run of inference hands to the next: those of local
/// definitions and of parameters, and the signatures of functions.
pub struct Scope {
    pub local_tys: Map<LocalDefIdx, Ty>,
    pub param_tys: Map<ParamIdx, Ty>,
    pub fnc_sigs: Map<FncDefIdx, SigView>,
}

/// Everything that a run of inference has assigned and reported so far.
pub struct Typing {
    pub local_tys: Map<LocalDefIdx, Ty>,
    pub param_tys: Map<ParamIdx, Ty>,
    pub fnc_sigs: Map<FncDefIdx, SigView>,
    pub expr_tys: Map<ExprIdx, Ty>,
    pub errors: Seq<TyError>,
}

/// Something that inference gives a type to: an expression, a local
/// definition or a parameter, or a function, whose type is its signature.
pub enum Node {
    Expr(ExprIdx),
    LocalDef(LocalDefIdx),
    Param(ParamIdx),
    FncDef(FncDefIdx),
}

impl Scope {
    /// The scope of a first run: nothing has a type yet.
    pub open spec fn empty() -> Scope {
        Scope { local_tys: Map::empty(), param_tys: Map::empty(), fnc_sigs: Map::empty() }
    }
}

impl Typing {
    /// The state in which a run seeded with `seed` begins: the types of the
    /// seed, no expression types and no diagnostics.
    pub open spec fn start(seed: Scope) -> Typing {
        Typing {
            local_tys: seed.local_tys,
            param_tys: seed.param_tys,
            fnc_sigs: seed.fnc_sigs,
            expr_tys: Map::empty(),
            errors: Seq::empty(),
        }
    }

    /// The node has a type.
    pub open spec fn has_ty(self, node: Node) -> bool {
        match node {
            Node::Expr(expr) => self.expr_tys.contains_key(expr),
            Node::LocalDef(def) => self.local_tys.contains_key(def),
            Node::Param(param) => self.param_tys.contains_key(param),
            Node::FncDef(def) => self.fnc_sigs.contains_key(def),
        }
    }

    /// Nothing was taken away on the way from `earlier` to this state:
    /// what had a type has one, and the diagnostics of `earlier` are the
    /// first diagnostics of this state.
    pub open spec fn grown_from(self, earlier: Typing) -> bool {
        &&& forall|node: Node| #[trigger] earlier.has_ty(node) ==> self.has_ty(node)
        &&& earlier.errors.is_prefix_of(self.errors)
    }

    /// Every diagnostic reports two types that clash: they differ, and
    /// neither of them is `Unknown`.
    pub open spec fn errors_clash(self) -> bool {
        forall|i: int|
            0 <= i < self.errors.len() ==> match (#[trigger] self.errors[i]).kind {
                TyErrorKind::Mismatch { expected, found } => tys_clash(expected, found),
            }
    }

    /// The part of the state that a later run can be seeded with.
    pub open spec fn scope(self) -> Scope {
        Scope { local_tys: self.local_tys, param_tys: self.param_tys, fnc_sigs: self.fnc_sigs }
    }
}

impl Hir {
    /// The expression that a diagnostic about `expr` points to: the
    /// expression of the last statement of a block that ends in an
    /// expression statement, and `expr` itself in every other case.
    pub open spec fn located(self, expr: ExprIdx) -> ExprIdx {
        match self.exprs[expr.pos()] {
            Expr::Block(stmts) => if stmts@.len() > 0 {
                match stmts@.last() {
                    Stmt::Expr(inner) => inner,
                    _ => expr,
                }
            } else {
                expr
            },
            _ => expr,
        }
    }

    /// The state after `found` was held against `expected` at `expr`: one
    /// more diagnostic if the two clash, and no change if they do not.
    pub open spec fn expect_tys_match(
        self,
        typing: Typing,
        expr: ExprIdx,
        expected: Ty,
        found: Ty,
    ) -> Typing {
        if tys_clash(expected, found) {
            Typing {
                errors: typing.errors.push(
                    TyError {
                        expr: self.located(expr),
                        kind: TyErrorKind::Mismatch { expected, found },
                    },
                ),
                ..typing
            }
        } else {
            typing
        }
    }

    /// The declared types of the parameters of a range, in order.
    pub open spec fn declared_tys(self, params: ParamRange) -> Seq<Ty> {
        Seq::new(params.count(), |k: int| self.params[params.start.pos() + k].ty)
    }

    /// The state after every parameter of the range has been given its
    /// declared type.
    pub open spec fn bind_params(self, typing: Typing, params: ParamRange) -> Typing {
        Typing {
            param_tys: Map::new(
                |param: ParamIdx| params.contains(param) || typing.param_tys.contains_key(param),
                |param: ParamIdx|
                    if params.contains(param) {
                        self.params[param.pos()].ty
                    } else {
                        typing.param_tys[param]
                    },
            ),
            ..typing
        }
    }

    /// Typing one expression: the state after, and the type of the
    /// expression, which is also recorded in the state.
    pub open spec fn infer_expr(self, typing: Typing, expr: ExprIdx) -> (Typing, Ty)
        decreases self.depth(expr), 2nat, 0nat,
        when self.well_formed() && expr.pos() < self.exprs.len()
    {
        let (after, ty) = match self.exprs[expr.pos()] {
            Expr::Missing => (typing, Ty::Unknown),
            Expr::Bin { lhs, rhs, .. } => {
                proof {
                    self.lemma_child_is_deeper(expr, lhs);
                    self.lemma_child_is_deeper(expr, rhs);
                }
                let (after_lhs, lhs_ty) = self.infer_expr(typing, lhs);
                let (after_rhs, rhs_ty) = self.infer_expr(after_lhs, rhs);
                let lhs_compared = self.expect_tys_match(after_rhs, lhs, Ty::Int, lhs_ty);
                (self.expect_tys_match(lhs_compared, rhs, Ty::Int, rhs_ty), Ty::Int)
            },
            Expr::Block(stmts) => {
                proof {
                    self.lemma_block_below(expr);
                }
                self.infer_stmts(typing, stmts@)
            },
            Expr::VarRef(VarDefIdx::Local(def)) => (typing, typing.local_tys[def]),
            Expr::VarRef(VarDefIdx::Param(param)) => (typing, typing.param_tys[param]),
            Expr::IntLiteral(_) => (typing, Ty::Int),
            Expr::StringLiteral(_) => (typing, Ty::String),
        };
        (Typing { expr_tys: after.expr_tys.insert(expr, ty), ..after }, ty)
    }

    /// Typing a list of statements in order: the state after the last, and
    /// the value of the last, `Unit` for an empty list.
    pub open spec fn infer_stmts(self, typing: Typing, stmts: Seq<Stmt>) -> (Typing, Ty)
        decreases self.stmts_height(stmts), 1nat, stmts.len(),
        when self.well_formed() && self.stmts_valid(stmts)
    {
        if stmts.len() == 0 {
            (typing, Ty::Unit)
        } else {
            let (before_last, _) = self.infer_stmts(typing, stmts.drop_last());
            self.infer_stmt(before_last, stmts.last())
        }
    }

    /// Typing one statement: the state after, and the value of the
    /// statement, which is the type of an expression statement and `Unit`
    /// for a definition.
    pub open spec fn infer_stmt(self, typing: Typing, stmt: Stmt) -> (Typing, Ty)
        decreases self.depth(self.stmt_root(stmt)), 4nat, 0nat,
        when self.well_formed() && self.stmt_valid(stmt)
    {
        match stmt {
            Stmt::LocalDef(def) => {
                let (after, value_ty) = self.infer_expr(typing, self.local_defs[def.pos()].value);
                (Typing { local_tys: after.local_tys.insert(def, value_ty), ..after }, Ty::Unit)
            },
            Stmt::FncDef(def) => (self.infer_fnc_def(typing, def), Ty::Unit),
            Stmt::Expr(expr) => self.infer_expr(typing, expr),
        }
    }

    /// Typing one function definition: its parameters get their declared
    /// types, its body is typed and held against the declared return type,
    /// and its signature is recorded as declared.
    pub open spec fn infer_fnc_def(self, typing: Typing, def: FncDefIdx) -> Typing
        decreases self.depth(self.fnc_defs[def.pos()].body), 3nat, 0nat,
        when self.well_formed() && def.pos() < self.fnc_defs.len()
    {
        let fnc_def = self.fnc_defs[def.pos()];
        let bound = self.bind_params(typing, fnc_def.params);
        let (after_body, body_ty) = self.infer_expr(bound, fnc_def.body);
        let compared = self.expect_tys_match(after_body, fnc_def.body, fnc_def.ret_ty, body_ty);
        Typing {
            fnc_sigs: compared.fnc_sigs.insert(
                def,
                SigView { params: self.declared_tys(fnc_def.params), ret_ty: fnc_def.ret_ty },
            ),
            ..compared
        }
    }

    /// Every variable reference that typing `expr` comes to has a type by
    /// then: its definition, or the function of its parameter, was typed
    /// before it, in this run or in one that the state was seeded from.
    pub open spec fn expr_resolves(self, typing: Typing, expr: ExprIdx) -> bool
        decreases self.depth(expr), 2nat, 0nat,
        when self.well_formed() && expr.pos() < self.exprs.len()
    {
        match self.exprs[expr.pos()] {
            Expr::Bin { lhs, rhs, .. } => {
                proof {
                    self.lemma_child_is_deeper(expr, lhs);
                    self.lemma_child_is_deeper(expr, rhs);
                }
                &&& self.expr_resolves(typing, lhs)
                &&& self.expr_resolves(self.infer_expr(typing, lhs).0, rhs)
            },
            Expr::Block(stmts) => {
                proof {
                    self.lemma_block_below(expr);
                }
                self.stmts_resolve(typing, stmts@)
            },
            Expr::VarRef(VarDefIdx::Local(def)) => typing.local_tys.contains_key(def),
            Expr::VarRef(VarDefIdx::Param(param)) => typing.param_tys.contains_key(param),
            Expr::Missing | Expr::IntLiteral(_) | Expr::StringLiteral(_) => true,
        }
    }

    /// Every variable reference that typing the statements in order comes
    /// to has a type by then.
    pub open spec fn stmts_resolve(self, typing: Typing, stmts: Seq<Stmt>) -> bool
        decreases self.stmts_height(stmts), 1nat, stmts.len(),
        when self.well_formed() && self.stmts_valid(stmts)
    {
        stmts.len() > 0 ==> {
            &&& self.stmts_resolve(typing, stmts.drop_last())
            &&& self.stmt_resolves(self.infer_stmts(typing, stmts.drop_last()).0, stmts.last())
        }
    }

    /// Every variable reference that typing the statement comes to has a
    /// type by then. The body of a function sees the function's parameters.
    pub open spec fn stmt_resolves(self, typing: Typing, stmt: Stmt) -> bool
        decreases self.depth(self.stmt_root(stmt)), 4nat, 0nat,
        when self.well_formed() && self.stmt_valid(stmt)
    {
        match stmt {
            Stmt::LocalDef(def) => self.expr_resolves(typing, self.local_defs[def.pos()].value),
            Stmt::FncDef(def) => {
                let fnc_def = self.fnc_defs[def.pos()];
                self.expr_resolves(self.bind_params(typing, fnc_def.params), fnc_def.body)
            },
            Stmt::Expr(expr) => self.expr_resolves(typing, expr),
        }
    }

    /// In a run over `stmts` that is seeded with `seed`, every variable
    /// reference has a type by the time the run comes to it.
    pub open spec fn resolves(self, stmts: Seq<Stmt>, seed: Scope) -> bool {
        self.stmts_resolve(Typing::start(seed), stmts)
    }

    /// Where the variable references of a list of statements resolve, so
    /// do those of each list that it begins with.
    pub proof fn lemma_prefix_resolves(self, typing: Typing, stmts: Seq<Stmt>, n: int)
        requires
            self.well_formed(),
            self.stmts_valid(stmts),
            self.stmts_resolve(typing, stmts),
            0 <= n <= stmts.len(),
        ensures
            self.stmts_resolve(typing, stmts.take(n)),
        decreases stmts.len(),
    {
        if n == stmts.len() {
            assert(stmts.take(n) =~= stmts);
        } else {
            assert(stmts.drop_last().take(n) =~= stmts.take(n));
            self.lemma_prefix_resolves(typing, stmts.drop_last(), n);
        }
    }

    /// Typing `expr` comes to `node`: it is the expression itself, or
    /// typing one of its operands or of its statements comes to it.
    pub open spec fn expr_reaches(self, expr: ExprIdx, node: Node) -> bool
        decreases self.depth(expr), 2nat, 0nat,
        when self.well_formed() && expr.pos() < self.exprs.len()
    {
        ||| node == Node::Expr(expr)
        ||| match self.exprs[expr.pos()] {
            Expr::Bin { lhs, rhs, .. } => {
                proof {
                    self.lemma_child_is_deeper(expr, lhs);
                    self.lemma_child_is_deeper(expr, rhs);
                }
                self.expr_reaches(lhs, node) || self.expr_reaches(rhs, node)
            },
            Expr::Block(stmts) => {
                proof {
                    self.lemma_block_below(expr);
                }
                self.stmts_reach(stmts@, node)
            },
            Expr::Missing | Expr::VarRef(_) | Expr::IntLiteral(_) | Expr::StringLiteral(_) => false,
        }
    }

    /// Typing one of the statements comes to `node`.
    pub open spec fn stmts_reach(self, stmts: Seq<Stmt>, node: Node) -> bool
        decreases self.stmts_height(stmts), 1nat, stmts.len(),
        when self.well_formed() && self.stmts_valid(stmts)
    {
        stmts.len() > 0 && (self.stmts_reach(stmts.drop_last(), node) || self.stmt_reaches(
            stmts.last(),
            node,
        ))
    }

    /// Typing the statement comes to `node`: it is the definition that the
    /// statement holds or a parameter of that function, or typing the
    /// expression of the statement comes to it.
    pub open spec fn stmt_reaches(self, stmt: Stmt, node: Node) -> bool
        decreases self.depth(self.stmt_root(stmt)), 4nat, 0nat,
        when self.well_formed() && self.stmt_valid(stmt)
    {
        match stmt {
            Stmt::LocalDef(def) => {
                ||| node == Node::LocalDef(def)
                ||| self.expr_reaches(self.local_defs[def.pos()].value, node)
            },
            Stmt::FncDef(def) => {
                let fnc_def = self.fnc_defs[def.pos()];
                ||| node == Node::FncDef(def)
                ||| (node matches Node::Param(param) && fnc_def.params.contains(param))
                ||| self.expr_reaches(fnc_def.body, node)
            },
            Stmt::Expr(expr) => self.expr_reaches(expr, node),
        }
    }

    /// Where the variable references of a list that `stmts` begins with do
    /// not resolve, those of `stmts` do not.
    pub proof fn lemma_prefix_fails(self, typing: Typing, stmts: Seq<Stmt>, n: int)
        requires
            self.well_formed(),
            self.stmts_valid(stmts),
            0 <= n <= stmts.len(),
            !self.stmts_resolve(typing, stmts.take(n)),
        ensures
            !self.stmts_resolve(typing, stmts),
    {
        if self.stmts_resolve(typing, stmts) {
            self.lemma_prefix_resolves(typing, stmts, n);
        }
    }

    /// The result of a run over `stmts` that is seeded with `seed`.
    pub open spec fn infer(self, stmts: Seq<Stmt>, seed: Scope) -> Typing {
        self.infer_stmts(Typing::start(seed), stmts).0
    }
}

} // verus!
