//! What the arena maps of a result hold, keyed by handle in place of
//! position.

use vstd::prelude::*;

use crate::arena::{
    expr_ty_entries, fnc_sig_entries, local_ty_entries, param_ty_entries, ExprTys, FncSigs,
    LocalTys, ParamTys,
};
use crate::hir::{ExprIdx, FncDefIdx, LocalDefIdx, ParamIdx};
use crate::ty::{Sig, SigView, Ty};

verus! {

/// What a map of local types holds, keyed by handle.
pub open spec fn local_tys_view(map: LocalTys) -> Map<LocalDefIdx, Ty> {
    Map::new(
        |def: LocalDefIdx| local_ty_entries(map).contains_key(def.0),
        |def: LocalDefIdx| local_ty_entries(map)[def.0],
    )
}

/// What a map of parameter types holds, keyed by handle.
pub open spec fn param_tys_view(map: ParamTys) -> Map<ParamIdx, Ty> {
    Map::new(
        |param: ParamIdx| param_ty_entries(map).contains_key(param.0),
        |param: ParamIdx| param_ty_entries(map)[param.0],
    )
}

/// The signatures that a map holds as mathematical values, keyed by handle.
pub open spec fn fnc_sigs_view(map: FncSigs) -> Map<FncDefIdx, SigView> {
    Map::new(
        |def: FncDefIdx| fnc_sig_entries(map).contains_key(def.0),
        |def: FncDefIdx| fnc_sig_entries(map)[def.0]@,
    )
}

/// What a map of expression types holds, keyed by handle.
pub open spec fn expr_tys_view(map: ExprTys) -> Map<ExprIdx, Ty> {
    Map::new(
        |expr: ExprIdx| expr_ty_entries(map).contains_key(expr.0),
        |expr: ExprIdx| expr_ty_entries(map)[expr.0],
    )
}

/// Storing a type at a position of the map stores it at the handle.
pub proof fn lemma_local_ty_stored(before: LocalTys, after: LocalTys, def: LocalDefIdx, ty: Ty)
    requires
        local_ty_entries(after) == local_ty_entries(before).insert(def.0, ty),
    ensures
        local_tys_view(after) == local_tys_view(before).insert(def, ty),
{
    assert forall|other: LocalDefIdx| other != def implies other.0 != def.0 by {}
}

/// Storing a type at a position of the map stores it at the handle.
pub proof fn lemma_param_ty_stored(before: ParamTys, after: ParamTys, param: ParamIdx, ty: Ty)
    requires
        param_ty_entries(after) == param_ty_entries(before).insert(param.0, ty),
    ensures
        param_tys_view(after) == param_tys_view(before).insert(param, ty),
{
    assert forall|other: ParamIdx| other != param implies other.0 != param.0 by {}
}

/// Storing a signature at a position of the map stores it at the handle.
pub proof fn lemma_fnc_sig_stored(before: FncSigs, after: FncSigs, def: FncDefIdx, sig: Sig)
    requires
        fnc_sig_entries(after) == fnc_sig_entries(before).insert(def.0, sig),
    ensures
        fnc_sigs_view(after) == fnc_sigs_view(before).insert(def, sig@),
{
    assert forall|other: FncDefIdx| other != def implies other.0 != def.0 by {}
}

/// Storing a type at a position of the map stores it at the handle.
pub proof fn lemma_expr_ty_stored(before: ExprTys, after: ExprTys, expr: ExprIdx, ty: Ty)
    requires
        expr_ty_entries(after) == expr_ty_entries(before).insert(expr.0, ty),
    ensures
        expr_tys_view(after) == expr_tys_view(before).insert(expr, ty),
{
    assert forall|other: ExprIdx| other != expr implies other.0 != expr.0 by {}
}

} // verus!
