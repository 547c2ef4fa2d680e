//! The arenas and arena maps of `la_arena`, as far as this crate uses them.
//!
//! Nothing in this file is proved. Each item states what the source of
//! `la_arena` shows of one of its types or methods, once for each type of
//! value that this crate keeps in an arena or in an arena map; the rest of
//! the crate is verified against these statements. Positions are plain
//! `u32` values here: each function turns the position it is given into an
//! `Idx` by `Idx::from_raw` and `RawIdx::from_u32`, which only wrap it.

use la_arena::{Arena, ArenaMap, Idx, RawIdx};
use vstd::prelude::*;

use crate::hir::{Expr, FncDef, LocalDef, Param};
use crate::ty::{Sig, Ty};

verus! {

/// `la_arena::Arena`, a growable store of values that are addressed by
/// position. Verus sees nothing inside it.
#[verifier::external_type_specification]
#[verifier::external_body]
#[verifier::reject_recursive_types(T)]
pub struct ExArena<T>(Arena<T>);

/// `la_arena::Idx`, the position of a value in an arena.
#[verifier::external_type_specification]
#[verifier::external_body]
#[verifier::reject_recursive_types(T)]
pub struct ExIdx<T>(Idx<T>);

/// `la_arena::ArenaMap`, a map from arena positions to values.
#[verifier::external_type_specification]
#[verifier::external_body]
#[verifier::reject_recursive_types(IDX)]
#[verifier::reject_recursive_types(V)]
pub struct ExArenaMap<IDX, V>(ArenaMap<IDX, V>);

/// The local definitions that an arena holds, in the order of their
/// positions.
pub uninterp spec fn local_def_arena_items(arena: Arena<LocalDef>) -> Seq<LocalDef>;

/// `Arena::len` on an arena of local definitions: the number of values in it.
#[verifier::external_body]
pub(crate) fn local_def_count(arena: &Arena<LocalDef>) -> (n: usize)
    ensures
        n == local_def_arena_items(*arena).len(),
{
    arena.len()
}

/// Indexing an arena of local definitions by an `Idx`: the value at that
/// position. The arena panics on a position past its end, which `requires`
/// leaves out.
#[verifier::external_body]
pub(crate) fn local_def_at(arena: &Arena<LocalDef>, idx: u32) -> (item: &LocalDef)
    requires
        (idx as int) < local_def_arena_items(*arena).len(),
    ensures
        *item == local_def_arena_items(*arena)[idx as int],
{
    &arena[Idx::from_raw(RawIdx::from_u32(idx))]
}

/// The function definitions that an arena holds, in the order of their
/// positions.
pub uninterp spec fn fnc_def_arena_items(arena: Arena<FncDef>) -> Seq<FncDef>;

/// `Arena::len` on an arena of function definitions: the number of values in
/// it.
#[verifier::external_body]
pub(crate) fn fnc_def_count(arena: &Arena<FncDef>) -> (n: usize)
    ensures
        n == fnc_def_arena_items(*arena).len(),
{
    arena.len()
}

/// Indexing an arena of function definitions by an `Idx`: the value at that
/// position. The arena panics on a position past its end, which `requires`
/// leaves out.
#[verifier::external_body]
pub(crate) fn fnc_def_at(arena: &Arena<FncDef>, idx: u32) -> (item: &FncDef)
    requires
        (idx as int) < fnc_def_arena_items(*arena).len(),
    ensures
        *item == fnc_def_arena_items(*arena)[idx as int],
{
    &arena[Idx::from_raw(RawIdx::from_u32(idx))]
}

/// The parameters that an arena holds, in the order of their positions.
pub uninterp spec fn param_arena_items(arena: Arena<Param>) -> Seq<Param>;

/// `Arena::len` on an arena of parameters: the number of values in it.
#[verifier::external_body]
pub(crate) fn param_count(arena: &Arena<Param>) -> (n: usize)
    ensures
        n == param_arena_items(*arena).len(),
{
    arena.len()
}

/// Indexing an arena of parameters by an `Idx`: the value at that position.
/// The arena panics on a position past its end, which `requires` leaves out.
#[verifier::external_body]
pub(crate) fn param_at(arena: &Arena<Param>, idx: u32) -> (item: &Param)
    requires
        (idx as int) < param_arena_items(*arena).len(),
    ensures
        *item == param_arena_items(*arena)[idx as int],
{
    &arena[Idx::from_raw(RawIdx::from_u32(idx))]
}

/// The expressions that an arena holds, in the order of their positions.
pub uninterp spec fn expr_arena_items(arena: Arena<Expr>) -> Seq<Expr>;

/// `Arena::len` on an arena of expressions: the number of values in it.
#[verifier::external_body]
pub(crate) fn expr_count(arena: &Arena<Expr>) -> (n: usize)
    ensures
        n == expr_arena_items(*arena).len(),
{
    arena.len()
}

/// Indexing an arena of expressions by an `Idx`: the value at that position.
/// The arena panics on a position past its end, which `requires` leaves out.
#[verifier::external_body]
pub(crate) fn expr_at(arena: &Arena<Expr>, idx: u32) -> (item: &Expr)
    requires
        (idx as int) < expr_arena_items(*arena).len(),
    ensures
        *item == expr_arena_items(*arena)[idx as int],
{
    &arena[Idx::from_raw(RawIdx::from_u32(idx))]
}

/// An arena map from local definitions to the types of their values.
pub type LocalTys = ArenaMap<Idx<LocalDef>, Ty>;

/// What an arena map from local definitions to the types of their values
/// holds, keyed by position.
pub uninterp spec fn local_ty_entries(map: LocalTys) -> Map<u32, Ty>;

/// `ArenaMap::new` for a map from local definitions to the types of their
/// values: a map that holds nothing.
#[verifier::external_body]
pub(crate) fn new_local_tys() -> (fresh: LocalTys)
    ensures
        local_ty_entries(fresh) =~= Map::empty(),
{
    ArenaMap::new()
}

/// `ArenaMap::insert` on a map from local definitions to the types of their
/// values: the type is stored at the position, in place of what was there,
/// and what was there is returned. The map first grows to `idx + 1` slots, a
/// sum that must fit in `usize`.
#[verifier::external_body]
pub(crate) fn insert_local_ty(map: &mut LocalTys, idx: u32, ty: Ty) -> (prev: Option<Ty>)
    requires
        (idx as int) < usize::MAX,
    ensures
        local_ty_entries(*final(map)) == local_ty_entries(*old(map)).insert(idx, ty),
        prev == (if local_ty_entries(*old(map)).contains_key(idx) {
            Some(local_ty_entries(*old(map))[idx])
        } else {
            None
        }),
{
    map.insert(Idx::from_raw(RawIdx::from_u32(idx)), ty)
}

/// `ArenaMap::get` on a map from local definitions to the types of their
/// values: the type stored at the position, if there is one.
#[verifier::external_body]
pub(crate) fn get_local_ty(map: &LocalTys, idx: u32) -> (found: Option<&Ty>)
    ensures
        found == (if local_ty_entries(*map).contains_key(idx) {
            Some(&local_ty_entries(*map)[idx])
        } else {
            None
        }),
{
    map.get(Idx::from_raw(RawIdx::from_u32(idx)))
}

/// `Clone::clone` on a map from local definitions to the types of their
/// values, which `la_arena` derives: a map that holds the same types at the
/// same positions.
#[verifier::external_body]
pub(crate) fn clone_local_tys(map: &LocalTys) -> (copy: LocalTys)
    ensures
        local_ty_entries(copy) == local_ty_entries(*map),
{
    map.clone()
}

/// An arena map from parameters to their declared types.
pub type ParamTys = ArenaMap<Idx<Param>, Ty>;

/// What an arena map from parameters to their declared types holds, keyed by
/// position.
pub uninterp spec fn param_ty_entries(map: ParamTys) -> Map<u32, Ty>;

/// `ArenaMap::new` for a map from parameters to their declared types: a map
/// that holds nothing.
#[verifier::external_body]
pub(crate) fn new_param_tys() -> (fresh: ParamTys)
    ensures
        param_ty_entries(fresh) =~= Map::empty(),
{
    ArenaMap::new()
}

/// `ArenaMap::insert` on a map from parameters to their declared types: the
/// type is stored at the position, in place of what was there, and what was
/// there is returned. The map first grows to `idx + 1` slots, a sum that must
/// fit in `usize`.
#[verifier::external_body]
pub(crate) fn insert_param_ty(map: &mut ParamTys, idx: u32, ty: Ty) -> (prev: Option<Ty>)
    requires
        (idx as int) < usize::MAX,
    ensures
        param_ty_entries(*final(map)) == param_ty_entries(*old(map)).insert(idx, ty),
        prev == (if param_ty_entries(*old(map)).contains_key(idx) {
            Some(param_ty_entries(*old(map))[idx])
        } else {
            None
        }),
{
    map.insert(Idx::from_raw(RawIdx::from_u32(idx)), ty)
}

/// `ArenaMap::get` on a map from parameters to their declared types: the type
/// stored at the position, if there is one.
#[verifier::external_body]
pub(crate) fn get_param_ty(map: &ParamTys, idx: u32) -> (found: Option<&Ty>)
    ensures
        found == (if param_ty_entries(*map).contains_key(idx) {
            Some(&param_ty_entries(*map)[idx])
        } else {
            None
        }),
{
    map.get(Idx::from_raw(RawIdx::from_u32(idx)))
}

/// `Clone::clone` on a map from parameters to their declared types, which
/// `la_arena` derives: a map that holds the same types at the same positions.
#[verifier::external_body]
pub(crate) fn clone_param_tys(map: &ParamTys) -> (copy: ParamTys)
    ensures
        param_ty_entries(copy) == param_ty_entries(*map),
{
    map.clone()
}

/// An arena map from function definitions to their signatures.
pub type FncSigs = ArenaMap<Idx<FncDef>, Sig>;

/// What an arena map from function definitions to their signatures holds,
/// keyed by position.
pub uninterp spec fn fnc_sig_entries(map: FncSigs) -> Map<u32, Sig>;

/// `ArenaMap::new` for a map from function definitions to their signatures: a
/// map that holds nothing.
#[verifier::external_body]
pub(crate) fn new_fnc_sigs() -> (fresh: FncSigs)
    ensures
        fnc_sig_entries(fresh) =~= Map::empty(),
{
    ArenaMap::new()
}

/// `ArenaMap::insert` on a map from function definitions to their signatures:
/// the signature is stored at the position, in place of what was there, and
/// what was there is returned. The map first grows to `idx + 1` slots, a sum
/// that must fit in `usize`.
#[verifier::external_body]
pub(crate) fn insert_fnc_sig(map: &mut FncSigs, idx: u32, sig: Sig) -> (prev: Option<Sig>)
    requires
        (idx as int) < usize::MAX,
    ensures
        fnc_sig_entries(*final(map)) == fnc_sig_entries(*old(map)).insert(idx, sig),
        prev == (if fnc_sig_entries(*old(map)).contains_key(idx) {
            Some(fnc_sig_entries(*old(map))[idx])
        } else {
            None
        }),
{
    map.insert(Idx::from_raw(RawIdx::from_u32(idx)), sig)
}

/// `ArenaMap::get` on a map from function definitions to their signatures:
/// the signature stored at the position, if there is one.
#[verifier::external_body]
pub(crate) fn get_fnc_sig(map: &FncSigs, idx: u32) -> (found: Option<&Sig>)
    ensures
        found == (if fnc_sig_entries(*map).contains_key(idx) {
            Some(&fnc_sig_entries(*map)[idx])
        } else {
            None
        }),
{
    map.get(Idx::from_raw(RawIdx::from_u32(idx)))
}

/// `Clone::clone` on a map from function definitions to their signatures,
/// which `la_arena` derives: a map that holds, at the same positions,
/// signatures with the same parameter types and return type. Each signature
/// is copied by `Sig::clone`, which is verified to keep both.
#[verifier::external_body]
pub(crate) fn clone_fnc_sigs(map: &FncSigs) -> (copy: FncSigs)
    ensures
        fnc_sig_entries(copy).dom() == fnc_sig_entries(*map).dom(),
        forall|idx: u32|
            fnc_sig_entries(*map).contains_key(idx) ==> (#[trigger] fnc_sig_entries(copy)[idx])@
                == fnc_sig_entries(*map)[idx]@,
{
    map.clone()
}

/// An arena map from expressions to their types.
pub type ExprTys = ArenaMap<Idx<Expr>, Ty>;

/// What an arena map from expressions to their types holds, keyed by
/// position.
pub uninterp spec fn expr_ty_entries(map: ExprTys) -> Map<u32, Ty>;

/// `ArenaMap::new` for a map from expressions to their types: a map that
/// holds nothing.
#[verifier::external_body]
pub(crate) fn new_expr_tys() -> (fresh: ExprTys)
    ensures
        expr_ty_entries(fresh) =~= Map::empty(),
{
    ArenaMap::new()
}

/// `ArenaMap::insert` on a map from expressions to their types: the type is
/// stored at the position, in place of what was there, and what was there is
/// returned. The map first grows to `idx + 1` slots, a sum that must fit in
/// `usize`.
#[verifier::external_body]
pub(crate) fn insert_expr_ty(map: &mut ExprTys, idx: u32, ty: Ty) -> (prev: Option<Ty>)
    requires
        (idx as int) < usize::MAX,
    ensures
        expr_ty_entries(*final(map)) == expr_ty_entries(*old(map)).insert(idx, ty),
        prev == (if expr_ty_entries(*old(map)).contains_key(idx) {
            Some(expr_ty_entries(*old(map))[idx])
        } else {
            None
        }),
{
    map.insert(Idx::from_raw(RawIdx::from_u32(idx)), ty)
}

/// `ArenaMap::get` on a map from expressions to their types: the type stored
/// at the position, if there is one.
#[verifier::external_body]
pub(crate) fn get_expr_ty(map: &ExprTys, idx: u32) -> (found: Option<&Ty>)
    ensures
        found == (if expr_ty_entries(*map).contains_key(idx) {
            Some(&expr_ty_entries(*map)[idx])
        } else {
            None
        }),
{
    map.get(Idx::from_raw(RawIdx::from_u32(idx)))
}

} // verus!
