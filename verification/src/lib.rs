//! Type inference over a lowered program: every expression, definition,
//! parameter and function that a run comes to gets one of four types, and
//! each clash of types is reported at the expression that caused it.
//!
//! - `hir` holds the program: handles, nodes, the arenas, and what makes a
//!   program well formed.
//! - `ty` holds the types, the signatures and the diagnostics.
//! - `typing` defines the traversal as mathematics: what a run assigns and
//!   reports, statement by statement.
//! - `infer` holds the engine, `infer` and `infer_in_scope`, which compute
//!   what `typing` defines for a well-formed program whose variable
//!   references resolve.
//! - `validate` holds `can_infer`, which decides whether a program is one of
//!   those, and `try_infer` and `try_infer_in_scope`, which ask it first;
//!   `acyclic` and `resolve` hold the two walks that it makes.
//! - `laws` proves what holds of every run.
//! - `arena` states what is taken on trust of the arenas of `la_arena`, and
//!   `keyed` reads their maps by handle.

pub mod acyclic;
pub mod arena;
pub mod hir;
pub mod infer;
pub mod keyed;
pub mod laws;
pub mod resolve;
pub mod ty;
pub mod typing;
pub mod validate;

pub use crate::hir::{
    BinOp, Expr, ExprIdx, FncDef, FncDefIdx, Hir, LocalDef, LocalDefIdx, Param, ParamIdx,
    ParamRange, Program, Stmt, VarDefIdx,
};
pub use crate::infer::{infer, infer_in_scope, InScope, InferResult};
pub use crate::ty::{Sig, SigView, Ty, TyError, TyErrorKind};
pub use crate::typing::{Node, Scope, Typing};
pub use crate::validate::{can_infer, try_infer, try_infer_in_scope};
