//! The type checker.
//!
//! `check_expr` infers the type of an expression against a scope
//! environment; `type_check` walks a statement list, holding every
//! binding's initializer against its declared annotation; `check_types`
//! runs a whole program against a fresh, empty top-level environment.
//! All three stop at the first fault and report exactly one error.

use vstd::prelude::*;

use crate::ast::Expr;
use crate::ast::Statement;
use crate::ast::Type;

verus! {

/// A fault found by the type checker.
#[derive(Debug)]
pub enum TypeError {
    /// A binding's initializer inferred to a type other than the declared one.
    TypeMismatch { expected: Type, actual: Type },
    /// `ReferenceOf` or `Get` named a binding absent from the active scope.
    UnboundVariable { name: String },
    /// `First` or `Second` was applied to a value of the given non-pair type.
    NotAPair { context: Type },
    /// `Add` was applied to an operand of the given non-integer type.
    NotNumeric { context: Type },
    /// `Dereference` was applied to a value of the given non-reference type.
    NotAReference { context: Type },
}

/// The mathematical shape of a `TypeError`: the same variants, with the
/// offending name as a sequence of characters.
pub enum TypeErrorModel {
    TypeMismatch { expected: Type, actual: Type },
    UnboundVariable { name: Seq<char> },
    NotAPair { context: Type },
    NotNumeric { context: Type },
    NotAReference { context: Type },
}

impl View for TypeError {
    type V = TypeErrorModel;

    open spec fn view(&self) -> TypeErrorModel {
        match self {
            TypeError::TypeMismatch { expected, actual } => TypeErrorModel::TypeMismatch {
                expected: *expected,
                actual: *actual,
            },
            TypeError::UnboundVariable { name } => TypeErrorModel::UnboundVariable {
                name: name@,
            },
            TypeError::NotAPair { context } => TypeErrorModel::NotAPair { context: *context },
            TypeError::NotNumeric { context } => TypeErrorModel::NotNumeric { context: *context },
            TypeError::NotAReference { context } => TypeErrorModel::NotAReference {
                context: *context,
            },
        }
    }
}

/// The bindings a sequence of (name, type) entries stands for: later
/// entries shadow earlier ones with the same name.
spec fn map_of(entries: Seq<(String, Type)>) -> Map<Seq<char>, Type>
    decreases entries.len(),
{
    if entries.len() == 0 {
        Map::empty()
    } else {
        map_of(entries.drop_last()).insert(entries.last().0@, entries.last().1)
    }
}

proof fn lemma_map_of_found(entries: Seq<(String, Type)>, name: Seq<char>, i: int)
    requires
        0 <= i < entries.len(),
        entries[i].0@ == name,
        forall|j: int| i < j < entries.len() ==> entries[j].0@ != name,
    ensures
        map_of(entries).dom().contains(name),
        map_of(entries)[name] == entries[i].1,
    decreases entries.len(),
{
    if i < entries.len() - 1 {
        lemma_map_of_found(entries.drop_last(), name, i);
    }
}

proof fn lemma_map_of_absent(entries: Seq<(String, Type)>, name: Seq<char>)
    requires
        forall|j: int| 0 <= j < entries.len() ==> entries[j].0@ != name,
    ensures
        !map_of(entries).dom().contains(name),
    decreases entries.len(),
{
    if entries.len() > 0 {
        lemma_map_of_absent(entries.drop_last(), name);
    }
}

/// A lexical scope environment: the bindings of the active frame. A child
/// frame starts as a full snapshot of its parent, so a single-frame lookup
/// suffices and nothing a child does can reach the parent.
///
/// Its view is the map from each bound name to its declared type.
pub struct TypeEnv {
    entries: Vec<(String, Type)>,
}

impl View for TypeEnv {
    type V = Map<Seq<char>, Type>;

    closed spec fn view(&self) -> Map<Seq<char>, Type> {
        map_of(self.entries@)
    }
}

impl TypeEnv {
    /// A fresh environment with no bindings.
    pub fn new() -> (env: TypeEnv)
        ensures
            env@ == Map::<Seq<char>, Type>::empty(),
    {
        TypeEnv { entries: Vec::new() }
    }

    /// The type bound to the name in the active frame, if any.
    pub fn lookup(&self, name: &String) -> (r: Option<Type>)
        ensures
            r == (if self@.dom().contains(name@) {
                Some(self@[name@])
            } else {
                None::<Type>
            }),
    {
        let mut i = self.entries.len();
        while i > 0
            invariant
                i <= self.entries.len(),
                forall|j: int| i <= j < self.entries@.len() ==> self.entries@[j].0@ != name@,
            decreases i,
        {
            i = i - 1;
            let entry = &self.entries[i];
            if entry.0 == *name {
                proof {
                    lemma_map_of_found(self.entries@, name@, i as int);
                }
                return Some(entry.1.clone());
            }
        }
        proof {
            lemma_map_of_absent(self.entries@, name@);
        }
        None
    }

    /// Binds the name in the active frame, shadowing any earlier binding
    /// of the same name.
    pub fn bind(&mut self, name: String, t: Type)
        ensures
            final(self)@ == old(self)@.insert(name@, t),
    {
        self.entries.push((name, t));
        proof {
            assert(self.entries@.drop_last() =~= old(self).entries@);
        }
    }

    /// A child frame: a snapshot of every current binding. Mutating the
    /// child never affects this environment.
    pub fn enter_child(&self) -> (child: TypeEnv)
        ensures
            child@ == self@,
    {
        let mut entries: Vec<(String, Type)> = Vec::new();
        let mut i: usize = 0;
        while i < self.entries.len()
            invariant
                i <= self.entries.len(),
                entries@.len() == i,
                forall|j: int| 0 <= j < i ==> entries@[j] == self.entries@[j],
            decreases self.entries.len() - i,
        {
            let entry = &self.entries[i];
            entries.push((entry.0.clone(), entry.1.clone()));
            i = i + 1;
        }
        proof {
            assert(entries@ =~= self.entries@);
        }
        TypeEnv { entries }
    }
}

/// The type every expression infers to under the given bindings, or the
/// first fault met in evaluation order: left to right, inner before outer.
pub open spec fn spec_infer(e: Expr, env: Map<Seq<char>, Type>) -> Result<Type, TypeErrorModel>
    decreases e,
{
    match e {
        Expr::IntLiteral(_) => Ok(Type::Int32),
        Expr::StringLiteral(_) => Ok(Type::String),
        Expr::Pair(a, b) => match (spec_infer(*a, env), spec_infer(*b, env)) {
            (Ok(ta), Ok(tb)) => Ok(Type::Pair(Box::new(ta), Box::new(tb))),
            (Err(err), _) => Err(err),
            (_, Err(err)) => Err(err),
        },
        Expr::First(inner) => match spec_infer(*inner, env) {
            Ok(t) => match t {
                Type::Pair(left, _) => Ok(*left),
                _ => Err(TypeErrorModel::NotAPair { context: t }),
            },
            Err(err) => Err(err),
        },
        Expr::Second(inner) => match spec_infer(*inner, env) {
            Ok(t) => match t {
                Type::Pair(_, right) => Ok(*right),
                _ => Err(TypeErrorModel::NotAPair { context: t }),
            },
            Err(err) => Err(err),
        },
        Expr::ReferenceOf(name) => if env.dom().contains(name@) {
            Ok(Type::Reference(Box::new(env[name@])))
        } else {
            Err(TypeErrorModel::UnboundVariable { name: name@ })
        },
        Expr::Add(a, b) => match (spec_infer(*a, env), spec_infer(*b, env)) {
            (Ok(ta), Ok(tb)) => if ta == Type::Int32 && tb == Type::Int32 {
                Ok(Type::Int32)
            } else if ta != Type::Int32 {
                Err(TypeErrorModel::NotNumeric { context: ta })
            } else {
                Err(TypeErrorModel::NotNumeric { context: tb })
            },
            (Err(err), _) => Err(err),
            (_, Err(err)) => Err(err),
        },
        Expr::Get(name) => if env.dom().contains(name@) {
            Ok(env[name@])
        } else {
            Err(TypeErrorModel::UnboundVariable { name: name@ })
        },
        Expr::Dereference(inner) => match spec_infer(*inner, env) {
            Ok(t) => match t {
                Type::Reference(target) => Ok(*target),
                _ => Err(TypeErrorModel::NotAReference { context: t }),
            },
            Err(err) => Err(err),
        },
    }
}

/// What one binding statement does to the environment: its initializer
/// must infer to exactly the declared type, and on success the name is
/// bound to that type in the active frame.
pub open spec fn spec_check_binding(
    name: String,
    declared: Type,
    init: Expr,
    env: Map<Seq<char>, Type>,
) -> Result<Map<Seq<char>, Type>, TypeErrorModel> {
    match spec_infer(init, env) {
        Ok(actual) => if actual == declared {
            Ok(env.insert(name@, declared))
        } else {
            Err(TypeErrorModel::TypeMismatch { expected: declared, actual })
        },
        Err(err) => Err(err),
    }
}

/// What one statement does to the environment. A scope checks its body
/// against a snapshot and, whatever the body bound, leaves the enclosing
/// environment exactly as it was. `Let` and `LetMut` follow identical
/// typing rules; mutability matters only to the borrow checker.
pub open spec fn spec_check_stmt(s: Statement, env: Map<Seq<char>, Type>) -> Result<
    Map<Seq<char>, Type>,
    TypeErrorModel,
>
    decreases s,
{
    match s {
        Statement::Scope(body) => match spec_check_stmts(body@, env) {
            Ok(_) => Ok(env),
            Err(err) => Err(err),
        },
        Statement::Let(name, declared, init) => spec_check_binding(name, declared, *init, env),
        Statement::LetMut(name, declared, init) => spec_check_binding(name, declared, *init, env),
    }
}

/// What a statement list does to the environment, statement by statement
/// in order, stopping at the first fault.
pub open spec fn spec_check_stmts(stmts: Seq<Statement>, env: Map<Seq<char>, Type>) -> Result<
    Map<Seq<char>, Type>,
    TypeErrorModel,
>
    decreases stmts,
{
    if stmts.len() == 0 {
        Ok(env)
    } else {
        match spec_check_stmt(stmts[0], env) {
            Ok(env2) => spec_check_stmts(stmts.drop_first(), env2),
            Err(err) => Err(err),
        }
    }
}

/// Whether a whole program type-checks against a fresh, empty top-level
/// environment, and the first fault when it does not.
pub open spec fn spec_check_program(program: Seq<Statement>) -> Result<(), TypeErrorModel> {
    match spec_check_stmts(program, Map::empty()) {
        Ok(_) => Ok(()),
        Err(err) => Err(err),
    }
}

/// Infers the type of the expression under the given environment.
///
/// The result is exactly what the inference rules give: the inferred type,
/// or the first fault met in evaluation order.
pub fn check_expr(expr: &Expr, env: &TypeEnv) -> (r: Result<Type, TypeError>)
    ensures
        match r {
            Ok(t) => spec_infer(*expr, env@) == Ok::<Type, TypeErrorModel>(t),
            Err(err) => spec_infer(*expr, env@) == Err::<Type, TypeErrorModel>(err@),
        },
    decreases *expr,
{
    match expr {
        Expr::IntLiteral(_) => Ok(Type::Int32),
        Expr::StringLiteral(_) => Ok(Type::String),
        Expr::Pair(a, b) => {
            let ra = check_expr(&**a, env);
            match ra {
                Ok(ta) => {
                    let rb = check_expr(&**b, env);
                    match rb {
                        Ok(tb) => Ok(Type::Pair(Box::new(ta), Box::new(tb))),
                        Err(err) => Err(err),
                    }
                },
                Err(err) => Err(err),
            }
        },
        Expr::First(inner) => {
            match check_expr(&**inner, env) {
                Ok(t) => match t {
                    Type::Pair(left, _) => Ok(*left),
                    other => Err(TypeError::NotAPair { context: other }),
                },
                Err(err) => Err(err),
            }
        },
        Expr::Second(inner) => {
            match check_expr(&**inner, env) {
                Ok(t) => match t {
                    Type::Pair(_, right) => Ok(*right),
                    other => Err(TypeError::NotAPair { context: other }),
                },
                Err(err) => Err(err),
            }
        },
        Expr::ReferenceOf(name) => {
            match env.lookup(name) {
                Some(t) => Ok(Type::Reference(Box::new(t))),
                None => Err(TypeError::UnboundVariable { name: name.clone() }),
            }
        },
        Expr::Add(a, b) => {
            let ra = check_expr(&**a, env);
            match ra {
                Ok(ta) => {
                    let rb = check_expr(&**b, env);
                    match rb {
                        Ok(tb) => {
                            let a_is_int = matches!(ta, Type::Int32);
                            let b_is_int = matches!(tb, Type::Int32);
                            if a_is_int && b_is_int {
                                Ok(Type::Int32)
                            } else if !a_is_int {
                                Err(TypeError::NotNumeric { context: ta })
                            } else {
                                Err(TypeError::NotNumeric { context: tb })
                            }
                        },
                        Err(err) => Err(err),
                    }
                },
                Err(err) => Err(err),
            }
        },
        Expr::Get(name) => {
            match env.lookup(name) {
                Some(t) => Ok(t),
                None => Err(TypeError::UnboundVariable { name: name.clone() }),
            }
        },
        Expr::Dereference(inner) => {
            match check_expr(&**inner, env) {
                Ok(t) => match t {
                    Type::Reference(target) => Ok(*target),
                    other => Err(TypeError::NotAReference { context: other }),
                },
                Err(err) => Err(err),
            }
        },
    }
}

/// Type-checks a statement list against the given environment, mutating
/// it binding by binding.
///
/// On success the environment holds exactly the bindings the statements
/// leave behind; on failure the first fault is returned and the
/// environment is not to be relied on.
pub fn type_check(program: &Vec<Statement>, env: &mut TypeEnv) -> (r: Result<(), TypeError>)
    ensures
        match r {
            Ok(_) => spec_check_stmts(program@, old(env)@) == Ok::<
                Map<Seq<char>, Type>,
                TypeErrorModel,
            >(final(env)@),
            Err(err) => spec_check_stmts(program@, old(env)@) == Err::<
                Map<Seq<char>, Type>,
                TypeErrorModel,
            >(err@),
        },
    decreases program@,
{
    let mut i: usize = 0;
    proof {
        assert(program@.skip(0) =~= program@);
    }
    while i < program.len()
        invariant
            i <= program.len(),
            spec_check_stmts(program@.skip(i as int), env@) == spec_check_stmts(
                program@,
                old(env)@,
            ),
        decreases program.len() - i,
    {
        let stmt = &program[i];
        proof {
            assert(program@.skip(i as int)[0] == program@[i as int]);
            assert(program@.skip(i as int).drop_first() =~= program@.skip(i as int + 1));
            assert(spec_check_stmts(program@.skip(i as int), env@) == (match spec_check_stmt(
                program@[i as int],
                env@,
            ) {
                Ok(env2) => spec_check_stmts(program@.skip(i as int + 1), env2),
                Err(err) => Err(err),
            }));
        }
        match stmt {
            Statement::Scope(body) => {
                proof {
                    assert(program@[i as int] == Statement::Scope(*body));
                    assert(decreases_to!(program@ => program@[i as int]));
                    assert(decreases_to!(program@[i as int] => *body));
                    assert(decreases_to!(*body => body@));
                }
                let mut child = env.enter_child();
                match type_check(body, &mut child) {
                    Ok(_) => {
                        proof {
                            assert(spec_check_stmt(program@[i as int], env@) == Ok::<
                                Map<Seq<char>, Type>,
                                TypeErrorModel,
                            >(env@));
                        }
                    },
                    Err(err) => {
                        proof {
                            assert(spec_check_stmt(program@[i as int], env@) == Err::<
                                Map<Seq<char>, Type>,
                                TypeErrorModel,
                            >(err@));
                        }
                        return Err(err);
                    },
                }
            },
            Statement::Let(name, declared, init) => {
                proof {
                    assert(program@[i as int] == Statement::Let(*name, *declared, *init));
                    assert(spec_check_stmt(program@[i as int], env@) == spec_check_binding(
                        *name,
                        *declared,
                        **init,
                        env@,
                    ));
                }
                match check_expr(&**init, env) {
                    Ok(actual) => {
                        if crate::ast::type_eq(&actual, declared) {
                            env.bind(name.clone(), declared.clone());
                        } else {
                            return Err(TypeError::TypeMismatch {
                                expected: declared.clone(),
                                actual,
                            });
                        }
                    },
                    Err(err) => {
                        return Err(err);
                    },
                }
            },
            Statement::LetMut(name, declared, init) => {
                proof {
                    assert(program@[i as int] == Statement::LetMut(*name, *declared, *init));
                    assert(spec_check_stmt(program@[i as int], env@) == spec_check_binding(
                        *name,
                        *declared,
                        **init,
                        env@,
                    ));
                }
                match check_expr(&**init, env) {
                    Ok(actual) => {
                        if crate::ast::type_eq(&actual, declared) {
                            env.bind(name.clone(), declared.clone());
                        } else {
                            return Err(TypeError::TypeMismatch {
                                expected: declared.clone(),
                                actual,
                            });
                        }
                    },
                    Err(err) => {
                        return Err(err);
                    },
                }
            },
        }
        i = i + 1;
    }
    Ok(())
}

/// Type-checks a whole program against a fresh, empty top-level
/// environment, reporting the first fault if there is one.
pub fn check_types(program: &Vec<Statement>) -> (r: Result<(), TypeError>)
    ensures
        match r {
            Ok(_) => spec_check_program(program@) == Ok::<(), TypeErrorModel>(()),
            Err(err) => spec_check_program(program@) == Err::<(), TypeErrorModel>(err@),
        },
{
    let mut env = TypeEnv::new();
    match type_check(program, &mut env) {
        Ok(_) => Ok(()),
        Err(err) => Err(err),
    }
}

/// Whether an initializer is a plain literal of exactly the declared type.
pub open spec fn literal_of_type(declared: Type, init: Expr) -> bool {
    match init {
        Expr::IntLiteral(_) => declared == Type::Int32,
        Expr::StringLiteral(_) => declared == Type::String,
        _ => false,
    }
}

/// Whether a statement is a binding whose initializer is a plain literal
/// of exactly the declared type.
pub open spec fn literal_binding(s: Statement) -> bool {
    match s {
        Statement::Let(_, declared, init) => literal_of_type(declared, *init),
        Statement::LetMut(_, declared, init) => literal_of_type(declared, *init),
        Statement::Scope(_) => false,
    }
}

/// A statement list made only of literal-typed bindings with matching
/// declared types checks successfully, whatever bindings are in force.
pub proof fn lemma_literal_bindings_check(stmts: Seq<Statement>, env: Map<Seq<char>, Type>)
    requires
        forall|i: int| 0 <= i < stmts.len() ==> literal_binding(#[trigger] stmts[i]),
    ensures
        spec_check_stmts(stmts, env) is Ok,
    decreases stmts.len(),
{
    if stmts.len() > 0 {
        let env2 = spec_check_stmt(stmts[0], env)->Ok_0;
        assert(spec_check_stmt(stmts[0], env) == Ok::<Map<Seq<char>, Type>, TypeErrorModel>(env2));
        assert(forall|i: int|
            0 <= i < stmts.drop_first().len() ==> literal_binding(#[trigger] stmts.drop_first()[i]));
        lemma_literal_bindings_check(stmts.drop_first(), env2);
    }
}

/// A program consisting only of literal-typed bindings with matching
/// declared types always type-checks.
pub proof fn lemma_literal_program_checks(program: Seq<Statement>)
    requires
        forall|i: int| 0 <= i < program.len() ==> literal_binding(#[trigger] program[i]),
    ensures
        spec_check_program(program) == Ok::<(), TypeErrorModel>(()),
{
    lemma_literal_bindings_check(program, Map::empty());
}

/// Bindings made inside a scope do not escape it: whatever the body of a
/// scope binds, the environment after the scope is exactly the one
/// before, so a name unbound before the scope is still unbound after it,
/// and looking it up then fails with `UnboundVariable`.
pub proof fn lemma_scope_bindings_do_not_escape(
    body: Vec<Statement>,
    env: Map<Seq<char>, Type>,
    x: String,
)
    requires
        !env.dom().contains(x@),
        spec_check_stmt(Statement::Scope(body), env) is Ok,
    ensures
        spec_check_stmt(Statement::Scope(body), env) == Ok::<Map<Seq<char>, Type>, TypeErrorModel>(
            env,
        ),
        spec_infer(Expr::Get(x), env) == Err::<Type, TypeErrorModel>(
            TypeErrorModel::UnboundVariable { name: x@ },
        ),
{
}

/// Shadowing: declaring a name twice in the same frame rebinds it, and a
/// later lookup sees the second declared type.
pub proof fn lemma_shadowing_rebinds(
    x: String,
    t1: Type,
    e1: Box<Expr>,
    t2: Type,
    e2: Box<Expr>,
    env: Map<Seq<char>, Type>,
)
    requires
        spec_check_stmts(
            seq![Statement::Let(x, t1, e1), Statement::Let(x, t2, e2)],
            env,
        ) is Ok,
    ensures
        spec_check_stmts(seq![Statement::Let(x, t1, e1), Statement::Let(x, t2, e2)], env) matches
            Ok(env2) && env2[x@] == t2 && spec_infer(Expr::Get(x), env2) == Ok::<
            Type,
            TypeErrorModel,
        >(t2),
{
    reveal_with_fuel(spec_check_stmts, 3);
    let stmts = seq![Statement::Let(x, t1, e1), Statement::Let(x, t2, e2)];
    assert(stmts[0] == Statement::Let(x, t1, e1));
    assert(stmts.drop_first() =~= seq![Statement::Let(x, t2, e2)]);
    assert(stmts.drop_first()[0] == Statement::Let(x, t2, e2));
    assert(stmts.drop_first().drop_first() =~= Seq::<Statement>::empty());
}

/// Adding an integer literal to a string literal always fails with
/// `NotNumeric`; it never infers a type.
pub proof fn lemma_add_int_string_not_numeric(i: i32, s: String, env: Map<Seq<char>, Type>)
    ensures
        spec_infer(
            Expr::Add(Box::new(Expr::IntLiteral(i)), Box::new(Expr::StringLiteral(s))),
            env,
        ) == Err::<Type, TypeErrorModel>(TypeErrorModel::NotNumeric { context: Type::String }),
{
    reveal_with_fuel(spec_infer, 2);
}

} // verus!
