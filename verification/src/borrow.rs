//! The borrow checker.
//!
//! Independently of the type checker, `borrow_check` walks a program and
//! enforces a shared-xor-exclusive discipline: at any time a binding may
//! have any number of shared references or one exclusive reference, never
//! both. A borrow is declared by a `Let`/`LetMut` whose annotation is a
//! reference type and whose initializer takes a reference of a named
//! binding; borrows taken inside a nested scope end with that scope.

use vstd::prelude::*;

use crate::ast::Expr;
use crate::ast::Statement;
use crate::ast::Type;

verus! {

/// How a binding is currently borrowed.
#[derive(Clone, Copy, Debug, PartialEq, Eq, Structural)]
pub enum BorrowState {
    /// Borrowed by `Let`-declared references; any number may coexist.
    Shared,
    /// Borrowed by a `LetMut`-declared reference; forbids every other
    /// borrow of the same binding while outstanding.
    Exclusive,
}

/// A fault found by the borrow checker.
#[derive(Debug)]
pub enum BorrowError {
    /// A reference to `target` was requested while an incompatible borrow
    /// of it was outstanding.
    ConflictingBorrow { target: String, existing: BorrowState, requested: BorrowState },
}

/// The mathematical shape of a `BorrowError`, with the target name as a
/// sequence of characters.
pub enum BorrowErrorModel {
    ConflictingBorrow { target: Seq<char>, existing: BorrowState, requested: BorrowState },
}

impl View for BorrowError {
    type V = BorrowErrorModel;

    open spec fn view(&self) -> BorrowErrorModel {
        match self {
            BorrowError::ConflictingBorrow { target, existing, requested } => {
                BorrowErrorModel::ConflictingBorrow {
                    target: target@,
                    existing: *existing,
                    requested: *requested,
                }
            },
        }
    }
}

/// The borrow states a journal of entries stands for. A `Some` entry
/// records a borrow of the name, a `None` entry clears the name; later
/// entries win.
spec fn borrows_of(entries: Seq<(String, Option<BorrowState>)>) -> Map<Seq<char>, BorrowState>
    decreases entries.len(),
{
    if entries.len() == 0 {
        Map::empty()
    } else {
        let rest = borrows_of(entries.drop_last());
        match entries.last().1 {
            Some(state) => rest.insert(entries.last().0@, state),
            None => rest.remove(entries.last().0@),
        }
    }
}

proof fn lemma_borrows_of_found(
    entries: Seq<(String, Option<BorrowState>)>,
    name: Seq<char>,
    i: int,
)
    requires
        0 <= i < entries.len(),
        entries[i].0@ == name,
        forall|j: int| i < j < entries.len() ==> entries[j].0@ != name,
    ensures
        match entries[i].1 {
            Some(state) => borrows_of(entries).dom().contains(name) && borrows_of(entries)[name]
                == state,
            None => !borrows_of(entries).dom().contains(name),
        },
    decreases entries.len(),
{
    if i < entries.len() - 1 {
        lemma_borrows_of_found(entries.drop_last(), name, i);
    }
}

proof fn lemma_borrows_of_absent(entries: Seq<(String, Option<BorrowState>)>, name: Seq<char>)
    requires
        forall|j: int| 0 <= j < entries.len() ==> entries[j].0@ != name,
    ensures
        !borrows_of(entries).dom().contains(name),
    decreases entries.len(),
{
    if entries.len() > 0 {
        lemma_borrows_of_absent(entries.drop_last(), name);
    }
}

/// The per-scope borrow map: each borrowed binding's name and its current
/// state. A child scope starts as a snapshot, so borrows taken inside a
/// nested scope are released when that scope ends.
///
/// Its view is the map from each borrowed name to its state.
pub struct BorrowEnv {
    entries: Vec<(String, Option<BorrowState>)>,
}

impl View for BorrowEnv {
    type V = Map<Seq<char>, BorrowState>;

    closed spec fn view(&self) -> Map<Seq<char>, BorrowState> {
        borrows_of(self.entries@)
    }
}

impl BorrowEnv {
    /// A fresh map with no borrows recorded.
    pub fn new() -> (env: BorrowEnv)
        ensures
            env@ == Map::<Seq<char>, BorrowState>::empty(),
    {
        BorrowEnv { entries: Vec::new() }
    }

    /// The borrow state recorded for the name, if any.
    pub fn get(&self, name: &String) -> (r: Option<BorrowState>)
        ensures
            r == (if self@.dom().contains(name@) {
                Some(self@[name@])
            } else {
                None::<BorrowState>
            }),
    {
        let mut i = self.entries.len();
        while i > 0
            invariant
                i <= self.entries.len(),
                forall|j: int| i <= j < self.entries@.len() ==> self.entries@[j].0@ != name@,
            decreases i,
        {
            i = i - 1;
            let entry = &self.entries[i];
            if entry.0 == *name {
                proof {
                    lemma_borrows_of_found(self.entries@, name@, i as int);
                }
                return entry.1;
            }
        }
        proof {
            lemma_borrows_of_absent(self.entries@, name@);
        }
        None
    }

    /// Records a borrow of the name with the given state, replacing any
    /// state recorded before.
    pub fn record(&mut self, name: String, state: BorrowState)
        ensures
            final(self)@ == old(self)@.insert(name@, state),
    {
        self.entries.push((name, Some(state)));
        proof {
            assert(self.entries@.drop_last() =~= old(self).entries@);
        }
    }

    /// Clears whatever is recorded for the name: a fresh declaration of a
    /// name stands for a new binding, so an old borrow of it no longer
    /// applies.
    pub fn clear(&mut self, name: String)
        ensures
            final(self)@ == old(self)@.remove(name@),
    {
        self.entries.push((name, None));
        proof {
            assert(self.entries@.drop_last() =~= old(self).entries@);
        }
    }

    /// A child map: a snapshot of every recorded borrow. What a nested
    /// scope does to the child never reaches this map.
    pub fn enter_child(&self) -> (child: BorrowEnv)
        ensures
            child@ == self@,
    {
        let mut entries: Vec<(String, Option<BorrowState>)> = Vec::new();
        let mut i: usize = 0;
        while i < self.entries.len()
            invariant
                i <= self.entries.len(),
                entries@.len() == i,
                forall|j: int| 0 <= j < i ==> entries@[j] == self.entries@[j],
            decreases self.entries.len() - i,
        {
            let entry = &self.entries[i];
            entries.push((entry.0.clone(), entry.1));
            i = i + 1;
        }
        proof {
            assert(entries@ =~= self.entries@);
        }
        BorrowEnv { entries }
    }
}

/// What one binding statement does to the borrow map. A statement
/// declares a borrow only when its annotation is a reference type and its
/// initializer takes a reference of a named binding; a shared request
/// conflicts with an outstanding exclusive borrow, an exclusive request
/// with any outstanding borrow. Every declaration first clears the
/// declared name itself: it stands for a new binding.
pub open spec fn spec_borrow_binding(
    name: String,
    declared: Type,
    init: Expr,
    requested: BorrowState,
    borrows: Map<Seq<char>, BorrowState>,
) -> Result<Map<Seq<char>, BorrowState>, BorrowErrorModel> {
    match (declared, init) {
        (Type::Reference(_), Expr::ReferenceOf(target)) => {
            if borrows.dom().contains(target@) && (borrows[target@] == BorrowState::Exclusive
                || requested == BorrowState::Exclusive) {
                Err(BorrowErrorModel::ConflictingBorrow {
                    target: target@,
                    existing: borrows[target@],
                    requested,
                })
            } else {
                Ok(borrows.remove(name@).insert(target@, requested))
            }
        },
        _ => Ok(borrows.remove(name@)),
    }
}

/// What one statement does to the borrow map. A scope checks its body
/// against a snapshot and, whatever the body recorded, leaves the
/// enclosing map exactly as it was: borrows taken inside end with the
/// scope. `Let` requests a shared borrow, `LetMut` an exclusive one.
pub open spec fn spec_borrow_stmt(s: Statement, borrows: Map<Seq<char>, BorrowState>) -> Result<
    Map<Seq<char>, BorrowState>,
    BorrowErrorModel,
>
    decreases s,
{
    match s {
        Statement::Scope(body) => match spec_borrow_stmts(body@, borrows) {
            Ok(_) => Ok(borrows),
            Err(err) => Err(err),
        },
        Statement::Let(name, declared, init) => spec_borrow_binding(
            name,
            declared,
            *init,
            BorrowState::Shared,
            borrows,
        ),
        Statement::LetMut(name, declared, init) => spec_borrow_binding(
            name,
            declared,
            *init,
            BorrowState::Exclusive,
            borrows,
        ),
    }
}

/// What a statement list does to the borrow map, statement by statement
/// in order, stopping at the first conflict.
pub open spec fn spec_borrow_stmts(
    stmts: Seq<Statement>,
    borrows: Map<Seq<char>, BorrowState>,
) -> Result<Map<Seq<char>, BorrowState>, BorrowErrorModel>
    decreases stmts,
{
    if stmts.len() == 0 {
        Ok(borrows)
    } else {
        match spec_borrow_stmt(stmts[0], borrows) {
            Ok(borrows2) => spec_borrow_stmts(stmts.drop_first(), borrows2),
            Err(err) => Err(err),
        }
    }
}

/// Whether a whole program passes the borrow discipline starting from a
/// fresh, empty borrow map, and the first conflict when it does not.
pub open spec fn spec_check_borrows(program: Seq<Statement>) -> Result<(), BorrowErrorModel> {
    match spec_borrow_stmts(program, Map::empty()) {
        Ok(_) => Ok(()),
        Err(err) => Err(err),
    }
}

/// Applies one binding statement to the borrow map.
fn check_binding(
    name: &String,
    declared: &Type,
    init: &Expr,
    requested: BorrowState,
    vars: &mut BorrowEnv,
) -> (r: Result<(), BorrowError>)
    ensures
        match r {
            Ok(_) => spec_borrow_binding(*name, *declared, *init, requested, old(vars)@) == Ok::<
                Map<Seq<char>, BorrowState>,
                BorrowErrorModel,
            >(final(vars)@),
            Err(err) => spec_borrow_binding(*name, *declared, *init, requested, old(vars)@)
                == Err::<Map<Seq<char>, BorrowState>, BorrowErrorModel>(err@),
        },
{
    let is_reference_decl = matches!(declared, Type::Reference(_));
    if is_reference_decl {
        if let Expr::ReferenceOf(target) = init {
            match vars.get(target) {
                Some(existing) => {
                    if existing == BorrowState::Exclusive || requested == BorrowState::Exclusive {
                        return Err(BorrowError::ConflictingBorrow {
                            target: target.clone(),
                            existing,
                            requested,
                        });
                    }
                    vars.clear(name.clone());
                    vars.record(target.clone(), requested);
                    return Ok(());
                },
                None => {
                    vars.clear(name.clone());
                    vars.record(target.clone(), requested);
                    return Ok(());
                },
            }
        }
    }
    vars.clear(name.clone());
    Ok(())
}

/// Borrow-checks a statement list against the given borrow map, mutating
/// it statement by statement.
///
/// On success the map holds exactly the borrows the statements leave
/// outstanding; on failure the first conflict is returned and the map is
/// not to be relied on.
pub fn borrow_check(program: &Vec<Statement>, vars: &mut BorrowEnv) -> (r: Result<(), BorrowError>)
    ensures
        match r {
            Ok(_) => spec_borrow_stmts(program@, old(vars)@) == Ok::<
                Map<Seq<char>, BorrowState>,
                BorrowErrorModel,
            >(final(vars)@),
            Err(err) => spec_borrow_stmts(program@, old(vars)@) == Err::<
                Map<Seq<char>, BorrowState>,
                BorrowErrorModel,
            >(err@),
        },
    decreases program@,
{
    let mut i: usize = 0;
    proof {
        assert(program@.skip(0) =~= program@);
    }
    while i < program.len()
        invariant
            i <= program.len(),
            spec_borrow_stmts(program@.skip(i as int), vars@) == spec_borrow_stmts(
                program@,
                old(vars)@,
            ),
        decreases program.len() - i,
    {
        let stmt = &program[i];
        proof {
            assert(program@.skip(i as int)[0] == program@[i as int]);
            assert(program@.skip(i as int).drop_first() =~= program@.skip(i as int + 1));
            assert(spec_borrow_stmts(program@.skip(i as int), vars@) == (match spec_borrow_stmt(
                program@[i as int],
                vars@,
            ) {
                Ok(borrows2) => spec_borrow_stmts(program@.skip(i as int + 1), borrows2),
                Err(err) => Err(err),
            }));
        }
        match stmt {
            Statement::Scope(body) => {
                proof {
                    assert(program@[i as int] == Statement::Scope(*body));
                    assert(decreases_to!(program@ => program@[i as int]));
                    assert(decreases_to!(program@[i as int] => *body));
                    assert(decreases_to!(*body => body@));
                }
                let mut child = vars.enter_child();
                match borrow_check(body, &mut child) {
                    Ok(_) => {
                        proof {
                            assert(spec_borrow_stmt(program@[i as int], vars@) == Ok::<
                                Map<Seq<char>, BorrowState>,
                                BorrowErrorModel,
                            >(vars@));
                        }
                    },
                    Err(err) => {
                        proof {
                            assert(spec_borrow_stmt(program@[i as int], vars@) == Err::<
                                Map<Seq<char>, BorrowState>,
                                BorrowErrorModel,
                            >(err@));
                        }
                        return Err(err);
                    },
                }
            },
            Statement::Let(name, declared, init) => {
                proof {
                    assert(program@[i as int] == Statement::Let(*name, *declared, *init));
                }
                match check_binding(name, declared, &**init, BorrowState::Shared, vars) {
                    Ok(_) => {},
                    Err(err) => {
                        return Err(err);
                    },
                }
            },
            Statement::LetMut(name, declared, init) => {
                proof {
                    assert(program@[i as int] == Statement::LetMut(*name, *declared, *init));
                }
                match check_binding(name, declared, &**init, BorrowState::Exclusive, vars) {
                    Ok(_) => {},
                    Err(err) => {
                        return Err(err);
                    },
                }
            },
        }
        i = i + 1;
    }
    Ok(())
}

/// Borrow-checks a whole program against a fresh, empty borrow map,
/// reporting the first conflict if there is one.
pub fn check_borrows(program: &Vec<Statement>) -> (r: Result<(), BorrowError>)
    ensures
        match r {
            Ok(_) => spec_check_borrows(program@) == Ok::<(), BorrowErrorModel>(()),
            Err(err) => spec_check_borrows(program@) == Err::<(), BorrowErrorModel>(err@),
        },
{
    let mut vars = BorrowEnv::new();
    match borrow_check(program, &mut vars) {
        Ok(_) => Ok(()),
        Err(err) => Err(err),
    }
}

} // verus!
