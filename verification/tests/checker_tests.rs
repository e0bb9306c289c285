use lang_check::ast::Expr;
use lang_check::ast::Statement;
use lang_check::ast::Type;
use lang_check::borrow::check_borrows;
use lang_check::borrow::borrow_check;
use lang_check::borrow::BorrowEnv;
use lang_check::borrow::BorrowError;
use lang_check::borrow::BorrowState;
use lang_check::typing::check_expr;
use lang_check::typing::check_types;
use lang_check::typing::type_check;
use lang_check::typing::TypeEnv;
use lang_check::typing::TypeError;

fn name(text: &str) -> String {
    text.to_string()
}

fn reference_of(target: &str) -> Box<Expr> {
    Box::new(Expr::ReferenceOf(name(target)))
}

fn string_reference() -> Type {
    Type::Reference(Box::new(Type::String))
}

fn let_string(binding: &str, text: &str) -> Statement {
    Statement::Let(name(binding), Type::String, Box::new(Expr::StringLiteral(name(text))))
}

#[test]
fn type_equality_is_structural() {
    let a = Type::Pair(Box::new(Type::Int32), Box::new(Type::String));
    let b = Type::Pair(Box::new(Type::Int32), Box::new(Type::String));
    let c = Type::Pair(Box::new(Type::String), Box::new(Type::Int32));
    assert!(a == b);
    assert!(b == a);
    assert!(a == a);
    assert!(a != c);
    assert!(c != a);
    assert!(Type::Reference(Box::new(Type::Int32)) == Type::Reference(Box::new(Type::Int32)));
    assert!(Type::Reference(Box::new(Type::Int32)) != Type::Int32);
}

#[test]
fn literal_lets_with_matching_types_check() {
    let program = vec![
        Statement::Let(name("a"), Type::Int32, Box::new(Expr::IntLiteral(1))),
        Statement::LetMut(name("b"), Type::String, Box::new(Expr::StringLiteral(name("hi")))),
        Statement::Let(name("c"), Type::Int32, Box::new(Expr::IntLiteral(-7))),
    ];
    assert!(check_types(&program).is_ok());
}

#[test]
fn empty_program_checks() {
    let program: Vec<Statement> = vec![];
    assert!(check_types(&program).is_ok());
    assert!(check_borrows(&program).is_ok());
}

#[test]
fn scope_binding_is_unbound_after_scope() {
    let program = vec![
        Statement::Scope(vec![Statement::Let(
            name("x"),
            Type::Int32,
            Box::new(Expr::IntLiteral(3)),
        )]),
        Statement::Let(name("y"), Type::Int32, Box::new(Expr::Get(name("x")))),
    ];
    match check_types(&program) {
        Err(TypeError::UnboundVariable { name: n }) => assert_eq!(n, "x"),
        other => panic!("expected UnboundVariable, got {:?}", other),
    }
}

#[test]
fn shadowing_rebinds_in_same_frame() {
    let program = vec![
        Statement::Let(name("x"), Type::Int32, Box::new(Expr::IntLiteral(3))),
        Statement::Let(name("x"), Type::String, Box::new(Expr::StringLiteral(name("v")))),
        Statement::Let(name("y"), Type::String, Box::new(Expr::Get(name("x")))),
    ];
    assert!(check_types(&program).is_ok());
}

#[test]
fn lookup_sees_latest_binding() {
    let mut env = TypeEnv::new();
    assert!(env.lookup(&name("x")).is_none());
    env.bind(name("x"), Type::Int32);
    assert_eq!(env.lookup(&name("x")), Some(Type::Int32));
    env.bind(name("x"), Type::String);
    assert_eq!(env.lookup(&name("x")), Some(Type::String));
    let child = env.enter_child();
    assert_eq!(child.lookup(&name("x")), Some(Type::String));
}

#[test]
fn single_shared_borrow_is_allowed() {
    let program = vec![
        let_string("s", "v"),
        Statement::Let(name("r"), string_reference(), reference_of("s")),
    ];
    assert!(check_types(&program).is_ok());
    assert!(check_borrows(&program).is_ok());
}

#[test]
fn exclusive_borrow_in_nested_scope_ends_with_the_scope() {
    let program = vec![
        let_string("s", "v"),
        Statement::Scope(vec![Statement::LetMut(
            name("m"),
            string_reference(),
            reference_of("s"),
        )]),
        Statement::Let(name("r"), string_reference(), reference_of("s")),
    ];
    assert!(check_borrows(&program).is_ok());
}

#[test]
fn exclusive_after_shared_conflicts() {
    let program = vec![
        let_string("s", "v"),
        Statement::Let(name("r"), string_reference(), reference_of("s")),
        Statement::LetMut(name("m"), string_reference(), reference_of("s")),
    ];
    match check_borrows(&program) {
        Err(BorrowError::ConflictingBorrow { target, existing, requested }) => {
            assert_eq!(target, "s");
            assert_eq!(existing, BorrowState::Shared);
            assert_eq!(requested, BorrowState::Exclusive);
        }
        other => panic!("expected ConflictingBorrow, got {:?}", other),
    }
}

#[test]
fn shared_after_exclusive_conflicts() {
    let program = vec![
        let_string("s", "v"),
        Statement::LetMut(name("m"), string_reference(), reference_of("s")),
        Statement::Let(name("r"), string_reference(), reference_of("s")),
    ];
    match check_borrows(&program) {
        Err(BorrowError::ConflictingBorrow { target, existing, requested }) => {
            assert_eq!(target, "s");
            assert_eq!(existing, BorrowState::Exclusive);
            assert_eq!(requested, BorrowState::Shared);
        }
        other => panic!("expected ConflictingBorrow, got {:?}", other),
    }
}

#[test]
fn exclusive_after_exclusive_conflicts() {
    let program = vec![
        let_string("s", "v"),
        Statement::LetMut(name("m"), string_reference(), reference_of("s")),
        Statement::LetMut(name("n"), string_reference(), reference_of("s")),
    ];
    match check_borrows(&program) {
        Err(BorrowError::ConflictingBorrow { target, existing, requested }) => {
            assert_eq!(target, "s");
            assert_eq!(existing, BorrowState::Exclusive);
            assert_eq!(requested, BorrowState::Exclusive);
        }
        other => panic!("expected ConflictingBorrow, got {:?}", other),
    }
}

#[test]
fn two_shared_borrows_coexist() {
    let program = vec![
        let_string("s", "v"),
        Statement::Let(name("r1"), string_reference(), reference_of("s")),
        Statement::Let(name("r2"), string_reference(), reference_of("s")),
    ];
    assert!(check_borrows(&program).is_ok());
}

#[test]
fn redeclaration_clears_the_borrow_state() {
    let program = vec![
        let_string("s", "v"),
        Statement::LetMut(name("m"), string_reference(), reference_of("s")),
        let_string("s", "w"),
        Statement::LetMut(name("n"), string_reference(), reference_of("s")),
    ];
    assert!(check_borrows(&program).is_ok());
}

#[test]
fn borrow_check_reports_state_it_leaves() {
    let program = vec![
        let_string("s", "v"),
        Statement::Let(name("r"), string_reference(), reference_of("s")),
    ];
    let mut vars = BorrowEnv::new();
    assert!(borrow_check(&program, &mut vars).is_ok());
    assert_eq!(vars.get(&name("s")), Some(BorrowState::Shared));
    assert!(vars.get(&name("r")).is_none());
}

#[test]
fn int_declared_with_string_literal_mismatches() {
    let program = vec![Statement::Let(
        name("n"),
        Type::Int32,
        Box::new(Expr::StringLiteral(name("x"))),
    )];
    match check_types(&program) {
        Err(TypeError::TypeMismatch { expected, actual }) => {
            assert_eq!(expected, Type::Int32);
            assert_eq!(actual, Type::String);
        }
        other => panic!("expected TypeMismatch, got {:?}", other),
    }
}

#[test]
fn add_int_and_string_is_not_numeric() {
    let env = TypeEnv::new();
    let expr = Expr::Add(
        Box::new(Expr::IntLiteral(1)),
        Box::new(Expr::StringLiteral(name("x"))),
    );
    match check_expr(&expr, &env) {
        Err(TypeError::NotNumeric { context }) => assert_eq!(context, Type::String),
        other => panic!("expected NotNumeric, got {:?}", other),
    }
}

#[test]
fn add_of_two_ints_is_int() {
    let env = TypeEnv::new();
    let expr = Expr::Add(Box::new(Expr::IntLiteral(2)), Box::new(Expr::IntLiteral(3)));
    assert_eq!(check_expr(&expr, &env).unwrap(), Type::Int32);
}

#[test]
fn pair_projections_infer_component_types() {
    let env = TypeEnv::new();
    let pair = || {
        Box::new(Expr::Pair(
            Box::new(Expr::IntLiteral(1)),
            Box::new(Expr::StringLiteral(name("v"))),
        ))
    };
    assert_eq!(check_expr(&Expr::First(pair()), &env).unwrap(), Type::Int32);
    assert_eq!(check_expr(&Expr::Second(pair()), &env).unwrap(), Type::String);
    assert_eq!(
        check_expr(&pair(), &env).unwrap(),
        Type::Pair(Box::new(Type::Int32), Box::new(Type::String))
    );
}

#[test]
fn first_of_non_pair_fails() {
    let env = TypeEnv::new();
    let expr = Expr::First(Box::new(Expr::IntLiteral(1)));
    match check_expr(&expr, &env) {
        Err(TypeError::NotAPair { context }) => assert_eq!(context, Type::Int32),
        other => panic!("expected NotAPair, got {:?}", other),
    }
}

#[test]
fn dereference_unwraps_the_reference_type() {
    let mut env = TypeEnv::new();
    env.bind(name("s"), Type::String);
    let expr = Expr::Dereference(Box::new(Expr::ReferenceOf(name("s"))));
    assert_eq!(check_expr(&expr, &env).unwrap(), Type::String);
}

#[test]
fn dereference_of_non_reference_fails() {
    let env = TypeEnv::new();
    let expr = Expr::Dereference(Box::new(Expr::IntLiteral(5)));
    match check_expr(&expr, &env) {
        Err(TypeError::NotAReference { context }) => assert_eq!(context, Type::Int32),
        other => panic!("expected NotAReference, got {:?}", other),
    }
}

#[test]
fn reference_of_unbound_name_fails() {
    let env = TypeEnv::new();
    match check_expr(&Expr::ReferenceOf(name("ghost_name")), &env) {
        Err(TypeError::UnboundVariable { name: n }) => assert_eq!(n, "ghost_name"),
        other => panic!("expected UnboundVariable, got {:?}", other),
    }
}

#[test]
fn reference_of_bound_name_infers_reference_type() {
    let mut env = TypeEnv::new();
    env.bind(name("s"), Type::String);
    assert_eq!(
        check_expr(&Expr::ReferenceOf(name("s")), &env).unwrap(),
        string_reference()
    );
}

#[test]
fn type_check_extends_the_given_environment() {
    let program = vec![Statement::Let(name("a"), Type::Int32, Box::new(Expr::IntLiteral(1)))];
    let mut env = TypeEnv::new();
    assert!(type_check(&program, &mut env).is_ok());
    assert_eq!(env.lookup(&name("a")), Some(Type::Int32));
}

#[test]
fn reference_binding_checks_against_reference_type() {
    let program = vec![
        let_string("s", "Nobody expects the Spanish Inquisition."),
        Statement::Let(name("r"), string_reference(), reference_of("s")),
        Statement::Let(name("t"), Type::String, Box::new(Expr::Dereference(Box::new(Expr::Get(name("r")))))),
    ];
    assert!(check_types(&program).is_ok());
}

#[test]
fn first_error_in_order_wins() {
    let program = vec![
        Statement::Let(name("a"), Type::Int32, Box::new(Expr::StringLiteral(name("x")))),
        Statement::Let(name("b"), Type::Int32, Box::new(Expr::Get(name("missing")))),
    ];
    match check_types(&program) {
        Err(TypeError::TypeMismatch { expected, actual }) => {
            assert_eq!(expected, Type::Int32);
            assert_eq!(actual, Type::String);
        }
        other => panic!("expected TypeMismatch, got {:?}", other),
    }
}

#[test]
fn demo_scoped_program_checks_both_ways() {
    let program = vec![Statement::Scope(vec![
        let_string("str", "Nobody Expects the Spanish Inquisition."),
        Statement::Let(name("str_ref"), string_reference(), reference_of("str")),
    ])];
    assert!(check_types(&program).is_ok());
    assert!(check_borrows(&program).is_ok());
}

#[test]
fn demo_bad_program_fails_borrows_only() {
    let program = vec![Statement::Scope(vec![
        let_string("str", "Nobody Expects the Spanish Inquisition."),
        Statement::Let(name("str_ref"), string_reference(), reference_of("str")),
        Statement::LetMut(name("str_mut_ref"), string_reference(), reference_of("str")),
    ])];
    assert!(check_types(&program).is_ok());
    match check_borrows(&program) {
        Err(BorrowError::ConflictingBorrow { target, existing, requested }) => {
            assert_eq!(target, "str");
            assert_eq!(existing, BorrowState::Shared);
            assert_eq!(requested, BorrowState::Exclusive);
        }
        other => panic!("expected ConflictingBorrow, got {:?}", other),
    }
}
