//! The program that inference reads: statements and expressions that refer
//! to one another by handle, each kind of node in an arena of its own.

use la_arena::Arena;
use vstd::prelude::*;

use crate::arena::{
    expr_arena_items, fnc_def_arena_items, local_def_arena_items, param_arena_items,
};
use crate::ty::Ty;

verus! {

/// Handle of an expression: its position in a program's expression arena.
#[derive(Clone, Copy, Debug, PartialEq, Eq, Hash, Structural)]
pub struct ExprIdx(pub u32);

/// Handle of a local definition: its position in a program's arena of
/// local definitions.
#[derive(Clone, Copy, Debug, PartialEq, Eq, Hash, Structural)]
pub struct LocalDefIdx(pub u32);

/// Handle of a parameter: its position in a program's parameter arena.
#[derive(Clone, Copy, Debug, PartialEq, Eq, Hash, Structural)]
pub struct ParamIdx(pub u32);

/// Handle of a function definition: its position in a program's arena of
/// function definitions.
#[derive(Clone, Copy, Debug, PartialEq, Eq, Hash, Structural)]
pub struct FncDefIdx(pub u32);

impl ExprIdx {
    /// The position as a mathematical integer.
    pub open spec fn pos(self) -> int {
        self.0 as int
    }
}

impl LocalDefIdx {
    /// The position as a mathematical integer.
    pub open spec fn pos(self) -> int {
        self.0 as int
    }
}

impl ParamIdx {
    /// The position as a mathematical integer.
    pub open spec fn pos(self) -> int {
        self.0 as int
    }
}

impl FncDefIdx {
    /// The position as a mathematical integer.
    pub open spec fn pos(self) -> int {
        self.0 as int
    }
}

/// The operator of a binary expression.
#[derive(Clone, Copy, Debug, PartialEq, Eq, Structural)]
pub enum BinOp {
    Add,
    Sub,
    Mul,
    Div,
}

/// What a variable reference refers to.
#[derive(Clone, Copy, Debug, PartialEq, Eq, Structural)]
pub enum VarDefIdx {
    Local(LocalDefIdx),
    Param(ParamIdx),
}

/// A statement, at the top level of a program or inside a block.
#[derive(Clone, Copy, Debug, PartialEq, Eq, Structural)]
pub enum Stmt {
    LocalDef(LocalDefIdx),
    FncDef(FncDefIdx),
    Expr(ExprIdx),
}

/// An expression. `Missing` stands where the source had no usable
/// expression; the operator of `Bin` is absent where the source had none.
#[derive(Clone, Debug, PartialEq, Eq)]
pub enum Expr {
    Missing,
    Bin { lhs: ExprIdx, rhs: ExprIdx, op: Option<BinOp> },
    Block(Vec<Stmt>),
    VarRef(VarDefIdx),
    IntLiteral(u32),
    StringLiteral(String),
}

/// A local definition: the expression that initialises it.
#[derive(Clone, Copy, Debug, PartialEq, Eq, Structural)]
pub struct LocalDef {
    pub value: ExprIdx,
}

/// A parameter with its declared type.
#[derive(Clone, Copy, Debug, PartialEq, Eq, Structural)]
pub struct Param {
    pub ty: Ty,
}

/// The parameters of one function: the handles from `start` up to, but not
/// including, `end`. A range whose `end` is not above its `start` is empty.
#[derive(Clone, Copy, Debug, PartialEq, Eq, Structural)]
pub struct ParamRange {
    pub start: ParamIdx,
    pub end: ParamIdx,
}

impl ParamRange {
    /// The handle lies in the range.
    pub open spec fn contains(self, param: ParamIdx) -> bool {
        self.start.0 <= param.0 < self.end.0
    }

    /// The number of handles in the range.
    pub open spec fn count(self) -> nat {
        if self.start.0 < self.end.0 {
            (self.end.0 - self.start.0) as nat
        } else {
            0
        }
    }

    /// The range from `start` up to, but not including, `end`.
    pub fn new(start: ParamIdx, end: ParamIdx) -> (range: ParamRange)
        ensures
            range == (ParamRange { start, end }),
    {
        ParamRange { start, end }
    }

    /// The range from `first` up to and including `last`, which must not
    /// be the greatest handle there is.
    pub fn new_inclusive(first: ParamIdx, last: ParamIdx) -> (range: ParamRange)
        requires
            last.0 < u32::MAX,
        ensures
            range == (ParamRange { start: first, end: ParamIdx((last.0 + 1) as u32) }),
            forall|param: ParamIdx| range.contains(param) <==> first.0 <= param.0 <= last.0,
    {
        ParamRange { start: first, end: ParamIdx(last.0 + 1) }
    }

    /// The number of handles in the range.
    pub fn len(&self) -> (n: usize)
        ensures
            n == self.count(),
    {
        if self.start.0 < self.end.0 {
            (self.end.0 - self.start.0) as usize
        } else {
            0
        }
    }
}

impl Default for ParamRange {
    /// The range of a function without parameters.
    fn default() -> (range: ParamRange)
        ensures
            range == (ParamRange { start: ParamIdx(0), end: ParamIdx(0) }),
            range.count() == 0,
    {
        ParamRange { start: ParamIdx(0), end: ParamIdx(0) }
    }
}

/// A function definition: its parameters, its declared return type and the
/// expression that is its body.
#[derive(Clone, Copy, Debug, PartialEq, Eq, Structural)]
pub struct FncDef {
    pub params: ParamRange,
    pub ret_ty: Ty,
    pub body: ExprIdx,
}

/// A lowered program: the four arenas and the top-level statements in order.
#[derive(Debug)]
pub struct Program {
    pub local_defs: Arena<LocalDef>,
    pub fnc_defs: Arena<FncDef>,
    pub params: Arena<Param>,
    pub exprs: Arena<Expr>,
    pub stmts: Vec<Stmt>,
}

/// The four arenas of a program as sequences: the node behind a handle is
/// the element at that position.
pub struct Hir {
    pub local_defs: Seq<LocalDef>,
    pub fnc_defs: Seq<FncDef>,
    pub params: Seq<Param>,
    pub exprs: Seq<Expr>,
}

impl Program {
    /// What the arenas of the program hold.
    pub open spec fn hir(&self) -> Hir {
        Hir {
            local_defs: local_def_arena_items(self.local_defs),
            fnc_defs: fnc_def_arena_items(self.fnc_defs),
            params: param_arena_items(self.params),
            exprs: expr_arena_items(self.exprs),
        }
    }

    /// The arenas are well formed and the top-level statements refer to
    /// nodes of them.
    pub open spec fn well_formed(&self) -> bool {
        self.hir().well_formed() && self.hir().stmts_valid(self.stmts@)
    }
}

impl Hir {
    /// The handle refers to a node of the arena it is meant for.
    pub open spec fn stmt_valid(self, stmt: Stmt) -> bool {
        match stmt {
            Stmt::LocalDef(def) => def.pos() < self.local_defs.len(),
            Stmt::FncDef(def) => def.pos() < self.fnc_defs.len(),
            Stmt::Expr(expr) => expr.pos() < self.exprs.len(),
        }
    }

    /// Every statement of the list refers to a node of its arena.
    pub open spec fn stmts_valid(self, stmts: Seq<Stmt>) -> bool {
        forall|i: int| 0 <= i < stmts.len() ==> self.stmt_valid(#[trigger] stmts[i])
    }

    /// The operands of a binary expression and the statements of a block
    /// refer to nodes of their arenas. A variable reference is not held to
    /// that: inference looks it up among the types it has assigned, not in
    /// an arena.
    pub open spec fn expr_valid(self, expr: Expr) -> bool {
        match expr {
            Expr::Bin { lhs, rhs, .. } => {
                lhs.pos() < self.exprs.len() && rhs.pos() < self.exprs.len()
            },
            Expr::Block(stmts) => self.stmts_valid(stmts@),
            Expr::Missing | Expr::VarRef(_) | Expr::IntLiteral(_) | Expr::StringLiteral(_) => true,
        }
    }

    /// The body of the function is an expression of the arena, and each
    /// parameter in its range is a parameter of the arena.
    pub open spec fn fnc_def_valid(self, def: FncDef) -> bool {
        &&& def.body.pos() < self.exprs.len()
        &&& def.params.start.0 < def.params.end.0 ==> def.params.end.pos() <= self.params.len()
    }

    /// The value of the local definition is an expression of the arena.
    pub open spec fn local_def_valid(self, def: LocalDef) -> bool {
        def.value.pos() < self.exprs.len()
    }

    /// Every handle that inference follows from a node that has a handle
    /// itself refers to a node of its arena.
    pub open spec fn valid(self) -> bool {
        &&& forall|expr: ExprIdx|
            expr.pos() < self.exprs.len() ==> self.expr_valid(#[trigger] self.exprs[expr.pos()])
        &&& forall|def: LocalDefIdx|
            def.pos() < self.local_defs.len() ==> self.local_def_valid(
                #[trigger] self.local_defs[def.pos()],
            )
        &&& forall|def: FncDefIdx|
            def.pos() < self.fnc_defs.len() ==> self.fnc_def_valid(
                #[trigger] self.fnc_defs[def.pos()],
            )
    }

    /// The expression that typing a statement begins with: the value of a
    /// local definition, the body of a function, or the expression itself.
    pub open spec fn stmt_root(self, stmt: Stmt) -> ExprIdx {
        match stmt {
            Stmt::LocalDef(def) => self.local_defs[def.pos()].value,
            Stmt::FncDef(def) => self.fnc_defs[def.pos()].body,
            Stmt::Expr(expr) => expr,
        }
    }

    /// `child` is an expression that typing `parent` descends into: an
    /// operand of a binary expression, or the root of a statement of a block.
    pub open spec fn child_of(self, parent: ExprIdx, child: ExprIdx) -> bool {
        match self.exprs[parent.pos()] {
            Expr::Bin { lhs, rhs, .. } => child == lhs || child == rhs,
            Expr::Block(stmts) => exists|i: int|
                0 <= i < stmts@.len() && child == self.stmt_root(#[trigger] stmts@[i]),
            Expr::Missing | Expr::VarRef(_) | Expr::IntLiteral(_) | Expr::StringLiteral(_) => false,
        }
    }

    /// `rank` gives every expression a number above those of its children.
    pub open spec fn ranked_by(self, rank: Seq<nat>) -> bool {
        &&& rank.len() == self.exprs.len()
        &&& forall|parent: ExprIdx, child: ExprIdx|
            parent.pos() < self.exprs.len() && child.pos() < self.exprs.len()
                && #[trigger] self.child_of(parent, child) ==> rank[child.pos()]
                < rank[parent.pos()]
    }

    /// No expression is reached from itself by descending into children,
    /// so every descent from an expression comes to an end.
    pub open spec fn acyclic(self) -> bool {
        exists|rank: Seq<nat>| self.ranked_by(rank)
    }

    /// The handles are valid and the expressions are acyclic.
    pub open spec fn well_formed(self) -> bool {
        self.valid() && self.acyclic()
    }

    /// One ranking of the expressions, if there is any.
    pub closed spec fn ranking(self) -> Seq<nat> {
        choose|rank: Seq<nat>| self.ranked_by(rank)
    }

    /// The rank of an expression in `ranking`: the measure by which a
    /// traversal of the expressions terminates.
    pub open spec fn depth(self, expr: ExprIdx) -> nat {
        self.ranking()[expr.pos()]
    }

    /// A number above the depth of the root of every statement of the list.
    pub open spec fn stmts_height(self, stmts: Seq<Stmt>) -> nat
        decreases stmts.len(),
    {
        if stmts.len() == 0 {
            0
        } else {
            let rest = self.stmts_height(stmts.drop_last());
            let last = self.depth(self.stmt_root(stmts.last())) + 1;
            if rest < last {
                last
            } else {
                rest
            }
        }
    }

    /// Where the handles are valid, a child is an expression of the arena.
    pub proof fn lemma_child_is_valid(self, parent: ExprIdx, child: ExprIdx)
        requires
            self.valid(),
            parent.pos() < self.exprs.len(),
            self.child_of(parent, child),
        ensures
            child.pos() < self.exprs.len(),
    {
        assert(self.expr_valid(self.exprs[parent.pos()]));
        match self.exprs[parent.pos()] {
            Expr::Block(stmts) => {
                let i = choose|i: int|
                    0 <= i < stmts@.len() && child == self.stmt_root(#[trigger] stmts@[i]);
                self.lemma_stmt_root_valid(stmts@[i]);
            },
            _ => {},
        }
    }

    /// In a well-formed program a child is an expression of the arena, and
    /// lies deeper than its parent.
    pub proof fn lemma_child_is_deeper(self, parent: ExprIdx, child: ExprIdx)
        requires
            self.well_formed(),
            parent.pos() < self.exprs.len(),
            self.child_of(parent, child),
        ensures
            child.pos() < self.exprs.len(),
            self.depth(child) < self.depth(parent),
    {
        self.lemma_child_is_valid(parent, child);
        assert(self.ranked_by(self.ranking()));
    }

    /// The root of a valid statement is an expression of the arena.
    pub proof fn lemma_stmt_root_valid(self, stmt: Stmt)
        requires
            self.valid(),
            self.stmt_valid(stmt),
        ensures
            self.stmt_root(stmt).pos() < self.exprs.len(),
    {
        match stmt {
            Stmt::LocalDef(def) => {
                assert(self.local_def_valid(self.local_defs[def.pos()]));
            },
            Stmt::FncDef(def) => {
                assert(self.fnc_def_valid(self.fnc_defs[def.pos()]));
            },
            Stmt::Expr(expr) => {},
        }
    }

    /// Statements whose roots are all children of one expression lie
    /// below that expression.
    pub proof fn lemma_stmts_below_parent(self, parent: ExprIdx, stmts: Seq<Stmt>)
        requires
            self.well_formed(),
            parent.pos() < self.exprs.len(),
            forall|i: int|
                0 <= i < stmts.len() ==> self.child_of(parent, self.stmt_root(#[trigger] stmts[i])),
        ensures
            self.stmts_height(stmts) <= self.depth(parent),
        decreases stmts.len(),
    {
        if stmts.len() > 0 {
            let rest = stmts.drop_last();
            assert forall|i: int| 0 <= i < rest.len() implies self.child_of(
                parent,
                self.stmt_root(#[trigger] rest[i]),
            ) by {
                assert(rest[i] == stmts[i]);
            }
            self.lemma_stmts_below_parent(parent, rest);
            assert(stmts.last() == stmts[stmts.len() - 1]);
            self.lemma_child_is_deeper(parent, self.stmt_root(stmts.last()));
        }
    }

    /// The statements of a block lie below the block.
    pub proof fn lemma_block_below(self, block: ExprIdx)
        requires
            self.well_formed(),
            block.pos() < self.exprs.len(),
            self.exprs[block.pos()] is Block,
        ensures
            self.stmts_valid(self.exprs[block.pos()]->Block_0@),
            self.stmts_height(self.exprs[block.pos()]->Block_0@) <= self.depth(block),
    {
        let stmts = self.exprs[block.pos()]->Block_0@;
        assert(self.expr_valid(self.exprs[block.pos()]));
        self.lemma_stmts_below_parent(block, stmts);
    }
}

} // verus!
