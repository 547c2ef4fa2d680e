use hir_ty::{
    can_infer, infer, infer_in_scope, try_infer, try_infer_in_scope, BinOp, Expr, ExprIdx, FncDef,
    FncDefIdx, InScope, LocalDef, LocalDefIdx, Param, ParamIdx, ParamRange, Program, Sig, Stmt,
    Ty, TyError, TyErrorKind, VarDefIdx,
};
use la_arena::{Arena, Idx};

fn e(idx: Idx<Expr>) -> ExprIdx {
    ExprIdx(idx.into_raw().into_u32())
}

fn l(idx: Idx<LocalDef>) -> LocalDefIdx {
    LocalDefIdx(idx.into_raw().into_u32())
}

fn p(idx: Idx<Param>) -> ParamIdx {
    ParamIdx(idx.into_raw().into_u32())
}

fn f(idx: Idx<FncDef>) -> FncDefIdx {
    FncDefIdx(idx.into_raw().into_u32())
}

fn blank() -> Program {
    Program {
        local_defs: Arena::new(),
        fnc_defs: Arena::new(),
        params: Arena::new(),
        exprs: Arena::new(),
        stmts: Vec::new(),
    }
}

#[test]
fn empty_program_can_be_inferred() {
    assert!(can_infer(&blank(), &InScope::default()));
    let result = try_infer(&blank()).unwrap();
    assert_eq!(*result.errors(), []);
    assert_eq!(result.expr_ty(ExprIdx(0)), None);
}

#[test]
fn program_built_from_the_leaves_up_can_be_inferred() {
    let mut local_defs = Arena::new();
    let mut fnc_defs = Arena::new();
    let mut params = Arena::new();
    let mut exprs = Arena::new();

    let a = p(params.alloc(Param { ty: Ty::Int }));
    let a_ref = e(exprs.alloc(Expr::VarRef(VarDefIdx::Param(a))));
    let x_def = l(local_defs.alloc(LocalDef { value: a_ref }));
    let x_ref = e(exprs.alloc(Expr::VarRef(VarDefIdx::Local(x_def))));
    let text = e(exprs.alloc(Expr::StringLiteral("t".to_string())));
    let sum = e(exprs.alloc(Expr::Bin { lhs: x_ref, rhs: text, op: Some(BinOp::Add) }));
    let body = e(exprs.alloc(Expr::Block(vec![Stmt::LocalDef(x_def), Stmt::Expr(sum)])));
    let fnc = f(fnc_defs.alloc(FncDef {
        params: ParamRange::new_inclusive(a, a),
        ret_ty: Ty::Unit,
        body,
    }));
    let later = e(exprs.alloc(Expr::VarRef(VarDefIdx::Local(x_def))));
    let program = Program {
        local_defs,
        fnc_defs,
        params,
        exprs,
        stmts: vec![Stmt::FncDef(fnc), Stmt::Expr(later)],
    };

    assert!(can_infer(&program, &InScope::default()));
    let tried = try_infer(&program).unwrap();
    let plain = infer(&program);

    for expr in [a_ref, x_ref, text, sum, body, later] {
        assert_eq!(tried.expr_ty(expr), plain.expr_ty(expr));
        assert!(tried.expr_ty(expr).is_some());
    }
    assert_eq!(tried.expr_ty(sum), Some(Ty::Int));
    assert_eq!(tried.expr_ty(later), Some(Ty::Int));
    assert_eq!(tried.local_ty(x_def), Some(Ty::Int));
    assert_eq!(tried.param_ty(a), Some(Ty::Int));
    assert_eq!(tried.fnc_sig(fnc), Some(&Sig { params: vec![Ty::Int], ret_ty: Ty::Unit }));
    assert_eq!(tried.errors(), plain.errors());
    assert_eq!(
        *tried.errors(),
        [
            TyError {
                expr: text,
                kind: TyErrorKind::Mismatch { expected: Ty::Int, found: Ty::String }
            },
            TyError { expr: sum, kind: TyErrorKind::Mismatch { expected: Ty::Unit, found: Ty::Int } },
        ]
    );
}

#[test]
fn operand_past_the_arena_is_refused() {
    let mut exprs = Arena::new();
    let one = e(exprs.alloc(Expr::IntLiteral(1)));
    let bin = e(exprs.alloc(Expr::Bin { lhs: one, rhs: ExprIdx(7), op: None }));
    let program = Program { exprs, stmts: vec![Stmt::Expr(bin)], ..blank() };

    assert!(!can_infer(&program, &InScope::default()));
    assert!(try_infer(&program).is_none());
}

#[test]
fn unreached_expression_with_a_bad_handle_is_refused() {
    let mut exprs = Arena::new();
    let one = e(exprs.alloc(Expr::IntLiteral(1)));
    exprs.alloc(Expr::Block(vec![Stmt::LocalDef(LocalDefIdx(0))]));
    let program = Program { exprs, stmts: vec![Stmt::Expr(one)], ..blank() };

    assert!(!can_infer(&program, &InScope::default()));
}

#[test]
fn expression_that_is_its_own_operand_is_refused() {
    let mut exprs = Arena::new();
    let one = e(exprs.alloc(Expr::IntLiteral(1)));
    let bin = e(exprs.alloc(Expr::Bin { lhs: ExprIdx(1), rhs: one, op: Some(BinOp::Add) }));
    assert_eq!(bin, ExprIdx(1));
    let program = Program { exprs, stmts: vec![Stmt::Expr(bin)], ..blank() };

    assert!(!can_infer(&program, &InScope::default()));
    assert!(try_infer(&program).is_none());
}

#[test]
fn block_that_holds_itself_through_a_definition_is_refused() {
    let mut local_defs = Arena::new();
    let mut exprs = Arena::new();
    let def = l(local_defs.alloc(LocalDef { value: ExprIdx(0) }));
    let block = e(exprs.alloc(Expr::Block(vec![Stmt::LocalDef(def)])));
    assert_eq!(block, ExprIdx(0));
    let program = Program { local_defs, exprs, stmts: vec![Stmt::Expr(block)], ..blank() };

    assert!(!can_infer(&program, &InScope::default()));
}

#[test]
fn children_that_stand_behind_their_parent_are_accepted() {
    let mut exprs = Arena::new();
    let bin = e(exprs.alloc(Expr::Bin { lhs: ExprIdx(1), rhs: ExprIdx(2), op: None }));
    let text = e(exprs.alloc(Expr::StringLiteral("s".to_string())));
    let block = e(exprs.alloc(Expr::Block(vec![Stmt::Expr(ExprIdx(3))])));
    let one = e(exprs.alloc(Expr::IntLiteral(1)));
    let program = Program { exprs, stmts: vec![Stmt::Expr(bin)], ..blank() };

    assert!(can_infer(&program, &InScope::default()));
    let result = try_infer(&program).unwrap();
    assert_eq!(result.expr_ty(bin), Some(Ty::Int));
    assert_eq!(result.expr_ty(text), Some(Ty::String));
    assert_eq!(result.expr_ty(block), Some(Ty::Int));
    assert_eq!(result.expr_ty(one), Some(Ty::Int));
    assert_eq!(
        *result.errors(),
        [TyError { expr: text, kind: TyErrorKind::Mismatch { expected: Ty::Int, found: Ty::String } }]
    );
}

#[test]
fn chain_that_runs_against_the_arena_is_accepted() {
    // Each expression holds the next one; the last is a literal.
    let mut exprs = Arena::new();
    let length: u32 = 40;
    for at in 0..length {
        exprs.alloc(Expr::Block(vec![Stmt::Expr(ExprIdx(at + 1))]));
    }
    let last = e(exprs.alloc(Expr::StringLiteral("end".to_string())));
    assert_eq!(last, ExprIdx(length));
    let program = Program { exprs, stmts: vec![Stmt::Expr(ExprIdx(0))], ..blank() };

    assert!(can_infer(&program, &InScope::default()));
    let result = try_infer(&program).unwrap();
    for at in 0..=length {
        assert_eq!(result.expr_ty(ExprIdx(at)), Some(Ty::String));
    }
    assert_eq!(*result.errors(), []);
}

#[test]
fn two_expressions_that_hold_each_other_are_refused() {
    let mut local_defs = Arena::new();
    let mut fnc_defs = Arena::new();
    let mut exprs = Arena::new();
    let one = e(exprs.alloc(Expr::IntLiteral(1)));
    let bin = e(exprs.alloc(Expr::Bin { lhs: one, rhs: ExprIdx(2), op: Some(BinOp::Add) }));
    let block = e(exprs.alloc(Expr::Block(vec![Stmt::Expr(one), Stmt::Expr(bin)])));
    let program = Program {
        exprs: exprs.clone(),
        stmts: vec![Stmt::Expr(one)],
        ..blank()
    };
    assert_eq!(block, ExprIdx(2));
    assert!(!can_infer(&program, &InScope::default()));
    assert!(try_infer(&program).is_none());

    // The same through a function body and a local definition.
    let mut exprs = Arena::new();
    let def = l(local_defs.alloc(LocalDef { value: ExprIdx(1) }));
    let fnc = f(fnc_defs.alloc(FncDef {
        params: ParamRange::default(),
        ret_ty: Ty::Unit,
        body: ExprIdx(0),
    }));
    exprs.alloc(Expr::Block(vec![Stmt::LocalDef(def)]));
    exprs.alloc(Expr::Block(vec![Stmt::FncDef(fnc)]));
    let program = Program { local_defs, fnc_defs, exprs, stmts: Vec::new(), ..blank() };
    assert!(!can_infer(&program, &InScope::default()));
}

#[test]
fn statement_past_its_arena_is_refused() {
    let mut exprs = Arena::new();
    exprs.alloc(Expr::IntLiteral(1));

    let top = Program { exprs: exprs.clone(), stmts: vec![Stmt::Expr(ExprIdx(1))], ..blank() };
    assert!(!can_infer(&top, &InScope::default()));

    let def = Program { exprs: exprs.clone(), stmts: vec![Stmt::LocalDef(LocalDefIdx(0))], ..blank() };
    assert!(!can_infer(&def, &InScope::default()));

    let fnc = Program { exprs: exprs.clone(), stmts: vec![Stmt::FncDef(FncDefIdx(0))], ..blank() };
    assert!(!can_infer(&fnc, &InScope::default()));

    let block = e(exprs.alloc(Expr::Block(vec![Stmt::FncDef(FncDefIdx(3))])));
    let inner = Program { exprs, stmts: vec![Stmt::Expr(block)], ..blank() };
    assert!(!can_infer(&inner, &InScope::default()));
}

#[test]
fn definition_whose_value_is_past_the_arena_is_refused() {
    let mut local_defs = Arena::new();
    let mut exprs = Arena::new();
    let one = e(exprs.alloc(Expr::IntLiteral(1)));
    local_defs.alloc(LocalDef { value: ExprIdx(1) });
    let program = Program { local_defs, exprs, stmts: vec![Stmt::Expr(one)], ..blank() };

    assert!(!can_infer(&program, &InScope::default()));
}

#[test]
fn function_whose_body_or_params_are_past_the_arenas_is_refused() {
    let mut params = Arena::new();
    let mut exprs = Arena::new();
    let first = p(params.alloc(Param { ty: Ty::Int }));
    let one = e(exprs.alloc(Expr::IntLiteral(1)));

    let mut fnc_defs = Arena::new();
    let bad_body = f(fnc_defs.alloc(FncDef {
        params: ParamRange::default(),
        ret_ty: Ty::Int,
        body: ExprIdx(1),
    }));
    let program = Program {
        fnc_defs,
        params: params.clone(),
        exprs: exprs.clone(),
        stmts: vec![Stmt::FncDef(bad_body)],
        ..blank()
    };
    assert!(!can_infer(&program, &InScope::default()));

    let mut fnc_defs = Arena::new();
    let bad_params = f(fnc_defs.alloc(FncDef {
        params: ParamRange::new(first, ParamIdx(2)),
        ret_ty: Ty::Int,
        body: one,
    }));
    let program = Program {
        fnc_defs,
        params: params.clone(),
        exprs: exprs.clone(),
        stmts: vec![Stmt::FncDef(bad_params)],
        ..blank()
    };
    assert!(!can_infer(&program, &InScope::default()));

    let mut fnc_defs = Arena::new();
    let whole = f(fnc_defs.alloc(FncDef {
        params: ParamRange::new(first, ParamIdx(1)),
        ret_ty: Ty::Int,
        body: one,
    }));
    let reversed = f(fnc_defs.alloc(FncDef {
        params: ParamRange::new(ParamIdx(9), ParamIdx(4)),
        ret_ty: Ty::Int,
        body: one,
    }));
    let program = Program {
        fnc_defs,
        params,
        exprs,
        stmts: vec![Stmt::FncDef(whole), Stmt::FncDef(reversed)],
        ..blank()
    };
    assert!(can_infer(&program, &InScope::default()));
    let result = try_infer(&program).unwrap();
    assert_eq!(result.fnc_sig(whole), Some(&Sig { params: vec![Ty::Int], ret_ty: Ty::Int }));
    assert_eq!(result.fnc_sig(reversed), Some(&Sig { params: Vec::new(), ret_ty: Ty::Int }));
    assert_eq!(result.param_ty(ParamIdx(4)), None);
}

#[test]
fn variable_without_a_type_is_refused() {
    let mut local_defs = Arena::new();
    let mut exprs = Arena::new();
    let one = e(exprs.alloc(Expr::IntLiteral(1)));
    let def = l(local_defs.alloc(LocalDef { value: one }));
    let var = e(exprs.alloc(Expr::VarRef(VarDefIdx::Local(def))));

    let used_first = Program {
        local_defs: local_defs.clone(),
        exprs: exprs.clone(),
        stmts: vec![Stmt::Expr(var), Stmt::LocalDef(def)],
        ..blank()
    };
    assert!(!can_infer(&used_first, &InScope::default()));
    assert!(try_infer(&used_first).is_none());

    let defined_first = Program {
        local_defs,
        exprs,
        stmts: vec![Stmt::LocalDef(def), Stmt::Expr(var)],
        ..blank()
    };
    assert!(can_infer(&defined_first, &InScope::default()));
    assert_eq!(try_infer(&defined_first).unwrap().expr_ty(var), Some(Ty::Int));
}

#[test]
fn variable_in_the_second_operand_sees_what_the_first_defines() {
    let mut local_defs = Arena::new();
    let mut exprs = Arena::new();
    let one = e(exprs.alloc(Expr::IntLiteral(1)));
    let def = l(local_defs.alloc(LocalDef { value: one }));
    let defines = e(exprs.alloc(Expr::Block(vec![Stmt::LocalDef(def)])));
    let var = e(exprs.alloc(Expr::VarRef(VarDefIdx::Local(def))));
    let defined_left =
        e(exprs.alloc(Expr::Bin { lhs: defines, rhs: var, op: Some(BinOp::Add) }));
    let defined_right =
        e(exprs.alloc(Expr::Bin { lhs: var, rhs: defines, op: Some(BinOp::Add) }));

    let left = Program {
        local_defs: local_defs.clone(),
        exprs: exprs.clone(),
        stmts: vec![Stmt::Expr(defined_left)],
        ..blank()
    };
    assert!(can_infer(&left, &InScope::default()));
    let result = try_infer(&left).unwrap();
    assert_eq!(result.expr_ty(var), Some(Ty::Int));
    assert_eq!(
        *result.errors(),
        [TyError { expr: defines, kind: TyErrorKind::Mismatch { expected: Ty::Int, found: Ty::Unit } }]
    );

    let right =
        Program { local_defs, exprs, stmts: vec![Stmt::Expr(defined_right)], ..blank() };
    assert!(!can_infer(&right, &InScope::default()));
}

#[test]
fn parameter_is_seen_in_its_function_and_after_it_and_not_before() {
    let mut fnc_defs = Arena::new();
    let mut params = Arena::new();
    let mut exprs = Arena::new();
    let param = p(params.alloc(Param { ty: Ty::String }));
    let inside = e(exprs.alloc(Expr::VarRef(VarDefIdx::Param(param))));
    let fnc = f(fnc_defs.alloc(FncDef {
        params: ParamRange::new_inclusive(param, param),
        ret_ty: Ty::String,
        body: inside,
    }));
    let outside = e(exprs.alloc(Expr::VarRef(VarDefIdx::Param(param))));

    let after = Program {
        fnc_defs: fnc_defs.clone(),
        params: params.clone(),
        exprs: exprs.clone(),
        stmts: vec![Stmt::FncDef(fnc), Stmt::Expr(outside)],
        ..blank()
    };
    assert!(can_infer(&after, &InScope::default()));
    let result = try_infer(&after).unwrap();
    assert_eq!(result.expr_ty(inside), Some(Ty::String));
    assert_eq!(result.expr_ty(outside), Some(Ty::String));
    assert_eq!(*result.errors(), []);

    let before = Program {
        fnc_defs,
        params,
        exprs,
        stmts: vec![Stmt::Expr(outside), Stmt::FncDef(fnc)],
        ..blank()
    };
    assert!(!can_infer(&before, &InScope::default()));
}

#[test]
fn scope_of_an_earlier_run_resolves_variables() {
    let mut local_defs = Arena::new();
    let mut exprs = Arena::new();
    let text = e(exprs.alloc(Expr::StringLiteral("s".to_string())));
    let def = l(local_defs.alloc(LocalDef { value: text }));
    let first = Program {
        local_defs: local_defs.clone(),
        exprs: exprs.clone(),
        stmts: vec![Stmt::LocalDef(def)],
        ..blank()
    };
    let (in_scope, _) = try_infer(&first).unwrap().in_scope();

    let var = e(exprs.alloc(Expr::VarRef(VarDefIdx::Local(def))));
    let unknown = e(exprs.alloc(Expr::VarRef(VarDefIdx::Local(LocalDefIdx(5)))));
    let second = Program {
        local_defs: local_defs.clone(),
        exprs: exprs.clone(),
        stmts: vec![Stmt::Expr(var)],
        ..blank()
    };
    assert!(!can_infer(&second, &InScope::default()));
    assert!(can_infer(&second, &in_scope));

    let third = Program { local_defs, exprs, stmts: vec![Stmt::Expr(unknown)], ..blank() };
    assert!(!can_infer(&third, &in_scope));
    let in_scope = match try_infer_in_scope(&third, in_scope) {
        Ok(_) => panic!("a variable without a type was accepted"),
        Err(in_scope) => in_scope,
    };

    assert!(can_infer(&second, &in_scope));
    let result = match try_infer_in_scope(&second, in_scope) {
        Ok(result) => result,
        Err(_) => panic!("a variable of the scope was refused"),
    };
    assert_eq!(result.expr_ty(var), Some(Ty::String));
    assert_eq!(result.local_ty(def), Some(Ty::String));
    assert_eq!(*result.errors(), []);
}

#[test]
fn try_infer_in_scope_gives_what_infer_in_scope_gives() {
    let mut local_defs = Arena::new();
    let mut exprs = Arena::new();
    let unit = e(exprs.alloc(Expr::Block(Vec::new())));
    let def = l(local_defs.alloc(LocalDef { value: unit }));
    let first = infer(&Program {
        local_defs: local_defs.clone(),
        exprs: exprs.clone(),
        stmts: vec![Stmt::LocalDef(def)],
        ..blank()
    });
    let (in_scope, _) = first.in_scope();

    let var = e(exprs.alloc(Expr::VarRef(VarDefIdx::Local(def))));
    let one = e(exprs.alloc(Expr::IntLiteral(1)));
    let sum = e(exprs.alloc(Expr::Bin { lhs: one, rhs: var, op: Some(BinOp::Sub) }));
    let program = Program { local_defs, exprs, stmts: vec![Stmt::Expr(sum)], ..blank() };

    let plain = infer_in_scope(&program, in_scope.clone());
    let tried = match try_infer_in_scope(&program, in_scope) {
        Ok(result) => result,
        Err(_) => panic!("a program that resolves was refused"),
    };

    for expr in [unit, var, one, sum] {
        assert_eq!(tried.expr_ty(expr), plain.expr_ty(expr));
    }
    assert_eq!(tried.expr_ty(sum), Some(Ty::Int));
    assert_eq!(tried.expr_ty(unit), None);
    assert_eq!(tried.local_ty(def), Some(Ty::Unit));
    assert_eq!(tried.errors(), plain.errors());
    assert_eq!(
        *tried.errors(),
        [TyError { expr: var, kind: TyErrorKind::Mismatch { expected: Ty::Int, found: Ty::Unit } }]
    );
}
