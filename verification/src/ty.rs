//! The types that inference assigns, and the diagnostics it reports.

use vstd::prelude::*;

use crate::hir::ExprIdx;

verus! {

/// The type of an expression. `Unknown` stands for a type that an earlier
/// problem has made impossible to determine; it is a type like the others,
/// so every expression has one.
#[derive(Clone, Copy, Debug, PartialEq, Eq, Structural)]
pub enum Ty {
    Unknown,
    Int,
    String,
    Unit,
}

/// An expected type and a found type clash when they differ and neither of
/// them is `Unknown`.
pub open spec fn tys_clash(expected: Ty, found: Ty) -> bool {
    found != expected && found != Ty::Unknown && expected != Ty::Unknown
}

/// What is wrong at the expression that a diagnostic points to.
#[derive(Clone, Copy, Debug, PartialEq, Eq, Structural)]
pub enum TyErrorKind {
    Mismatch { expected: Ty, found: Ty },
}

/// A diagnostic: the expression it points to, and what is wrong there.
#[derive(Clone, Copy, Debug, PartialEq, Eq, Structural)]
pub struct TyError {
    pub expr: ExprIdx,
    pub kind: TyErrorKind,
}

/// The signature of a function: the types of its parameters in order, and
/// its return type.
#[derive(Debug, PartialEq, Eq)]
pub struct Sig {
    pub params: Vec<Ty>,
    pub ret_ty: Ty,
}

/// A signature as a mathematical value.
pub struct SigView {
    pub params: Seq<Ty>,
    pub ret_ty: Ty,
}

impl View for Sig {
    type V = SigView;

    open spec fn view(&self) -> SigView {
        SigView { params: self.params@, ret_ty: self.ret_ty }
    }
}

impl Clone for Sig {
    /// A signature with the same parameter types and return type.
    fn clone(&self) -> (copy: Sig)
        ensures
            copy@ == self@,
    {
        let params = self.params.clone();
        Sig { params, ret_ty: self.ret_ty }
    }
}

/// Decides whether a found type clashes with the expected one.
pub fn clash(expected: Ty, found: Ty) -> (b: bool)
    ensures
        b == tys_clash(expected, found),
{
    !(found == expected || found == Ty::Unknown || expected == Ty::Unknown)
}

} // verus!
