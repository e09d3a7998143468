//! Builtin functions and the registries that hold them.
//!
//! A builtin takes at most one argument and gives at most one result. What it
//! does is up to whoever implements it; a registry records under each name
//! how many arguments and results the function declared when it was entered.
//! The interpreter and the preparation pass each get a registry of their own:
//! a function that may run while a program executes need not be fit to run
//! while the program is being prepared.
use crate::scope::Scope;
use crate::text::str_equal;
use crate::types::{DataModel, DataValue};
use vstd::prelude::*;

verus! {

/// What a builtin reports when it fails.
#[derive(Debug, PartialEq)]
pub struct BuiltInError {
    pub message: String,
}

/// The model of a [`BuiltInError`].
pub struct BuiltInFailure {
    pub message: Seq<char>,
}

impl View for BuiltInError {
    type V = BuiltInFailure;

    open spec fn view(&self) -> BuiltInFailure {
        BuiltInFailure { message: self.message@ }
    }
}

/// A function that the language offers under a name.
pub trait InterpretBuiltIn {
    /// How many arguments the function takes off the stack: zero or one.
    fn arg_count(&self) -> u8;

    /// How many results the function leaves on the stack: zero or one.
    fn return_count(&self) -> u8;

    /// Runs the function on its argument, if it takes one, and the given scope.
    fn execute(&self, argument: Option<DataValue>, scope: &Scope) -> Result<
        Option<DataValue>,
        BuiltInError,
    >;
}

/// How many arguments and results a builtin declared.
#[derive(Debug, PartialEq, Eq, Clone, Copy)]
pub struct Arity {
    pub arg_count: u8,
    pub return_count: u8,
}

/// What a builtin may give back: a value, nothing, or a failure.
pub type Outcome = Result<Option<DataModel>, BuiltInFailure>;

/// The view of what a builtin gave back.
pub open spec fn outcome_view(outcome: Result<Option<DataValue>, BuiltInError>) -> Outcome {
    match outcome {
        Ok(Some(value)) => Ok(Some(value@)),
        Ok(None) => Ok(None),
        Err(error) => Err(error@),
    }
}

/// One function of a registry, with the name it is known under.
pub struct BuiltInEntry<'a> {
    pub name: String,
    pub arity: Arity,
    pub function: &'a dyn InterpretBuiltIn,
}

impl<'a> BuiltInEntry<'a> {
    /// An entry for `function` under `name`.
    pub fn new(name: String, arity: Arity, function: &'a dyn InterpretBuiltIn) -> (entry: Self)
        ensures
            entry.name == name,
            entry.arity == arity,
    {
        BuiltInEntry { name, arity, function }
    }
}

/// The first position at which an entry named `name` stands, if there is one.
pub open spec fn position_of(entries: Seq<BuiltInEntry<'_>>, name: Seq<char>) -> Option<int>
    decreases entries.len(),
{
    if entries.len() == 0 {
        None
    } else if entries[0].name@ == name {
        Some(0)
    } else {
        match position_of(entries.drop_first(), name) {
            Some(i) => Some(i + 1),
            None => None,
        }
    }
}

/// A position that `position_of` gives holds an entry named `name`, and no
/// earlier position does.
pub proof fn lemma_position_of(entries: Seq<BuiltInEntry<'_>>, name: Seq<char>)
    ensures
        match position_of(entries, name) {
            Some(i) => 0 <= i < entries.len() && entries[i].name@ == name && forall|j: int|
                0 <= j < i ==> entries[j].name@ != name,
            None => forall|j: int| 0 <= j < entries.len() ==> entries[j].name@ != name,
        },
    decreases entries.len(),
{
    if entries.len() > 0 && entries[0].name@ != name {
        lemma_position_of(entries.drop_first(), name);
        match position_of(entries.drop_first(), name) {
            Some(i) => {
                assert forall|j: int| 0 <= j < i + 1 implies entries[j].name@ != name by {
                    if j > 0 {
                        assert(entries.drop_first()[j - 1].name@ != name);
                    }
                }
            },
            None => {
                assert forall|j: int| 0 <= j < entries.len() implies entries[j].name@ != name by {
                    if j > 0 {
                        assert(entries.drop_first()[j - 1].name@ != name);
                    }
                }
            },
        }
    }
}

/// The position of a name is settled by the names alone, position by position.
proof fn lemma_position_by_names(
    before: Seq<BuiltInEntry<'_>>,
    after: Seq<BuiltInEntry<'_>>,
    name: Seq<char>,
)
    requires
        before.len() <= after.len(),
        forall|j: int| 0 <= j < before.len() ==> before[j].name@ == after[j].name@,
    ensures
        position_of(before, name) is Some ==> position_of(after, name) == position_of(
            before,
            name,
        ),
        position_of(before, name) is None ==> match position_of(after, name) {
            Some(i) => i >= before.len(),
            None => true,
        },
{
    lemma_position_of(before, name);
    lemma_position_of(after, name);
    match (position_of(before, name), position_of(after, name)) {
        (Some(i), Some(j)) => {
            assert(before[i].name@ == after[i].name@);
            if j < i {
                assert(before[j].name@ == after[j].name@);
            }
        },
        (Some(i), None) => {
            assert(before[i].name@ == after[i].name@);
        },
        (None, Some(j)) => {
            if j < before.len() {
                assert(before[j].name@ == after[j].name@);
            }
        },
        (None, None) => {},
    }
}

/// The functions that are known under a name.
pub struct BuiltIns<'a> {
    entries: Vec<BuiltInEntry<'a>>,
}

impl<'a> View for BuiltIns<'a> {
    type V = Map<Seq<char>, Arity>;

    closed spec fn view(&self) -> Map<Seq<char>, Arity> {
        Map::new(
            |name: Seq<char>| position_of(self.entries@, name) is Some,
            |name: Seq<char>| self.entries@[position_of(self.entries@, name)->Some_0].arity,
        )
    }
}

impl<'a> BuiltIns<'a> {
    /// A registry that knows no function.
    pub fn new() -> (registry: Self)
        ensures
            registry@ == Map::<Seq<char>, Arity>::empty(),
    {
        let registry = BuiltIns { entries: Vec::new() };
        assert(registry@ =~= Map::<Seq<char>, Arity>::empty());
        registry
    }

    /// Where `name` stands in the registry, if it is known.
    fn find(&self, name: &str) -> (found: Option<usize>)
        ensures
            match found {
                Some(i) => position_of(self.entries@, name@) == Some(i as int) && i
                    < self.entries@.len(),
                None => position_of(self.entries@, name@) is None,
            },
    {
        let mut i: usize = 0;
        while i < self.entries.len()
            invariant
                i <= self.entries@.len(),
                forall|j: int| 0 <= j < i ==> self.entries@[j].name@ != name@,
            decreases self.entries.len() - i,
        {
            if str_equal(self.entries[i].name.as_str(), name) {
                proof {
                    lemma_position_of(self.entries@, name@);
                }
                return Some(i);
            }
            i += 1;
        }
        proof {
            lemma_position_of(self.entries@, name@);
        }
        None
    }

    /// Enters `function` under `name`, in place of what was known under it
    /// before. The registry records the counts that the function declares now.
    pub fn insert(&mut self, name: &str, function: &'a dyn InterpretBuiltIn)
        ensures
            final(self)@.contains_key(name@),
            final(self)@.remove(name@) == old(self)@.remove(name@),
    {
        let arity = Arity {
            arg_count: function.arg_count(),
            return_count: function.return_count(),
        };
        self.register(name, arity, function);
    }

    /// Enters `function` under `name` with the counts in `arity`, in place
    /// of what was known under the name before.
    pub fn register(&mut self, name: &str, arity: Arity, function: &'a dyn InterpretBuiltIn)
        ensures
            final(self)@ == old(self)@.insert(name@, arity),
    {
        let ghost before = self.entries@;
        let entry = BuiltInEntry::new(name.to_owned(), arity, function);
        let found = self.find(name);
        match found {
            Some(i) => {
                self.entries.set(i, entry);
                proof {
                    let after = self.entries@;
                    lemma_position_of(before, name@);
                    assert forall|j: int| 0 <= j < before.len() implies before[j].name@
                        == after[j].name@ by {}
                    lemma_position_by_names(before, after, name@);
                    assert forall|other: Seq<char>| other != name@ implies (position_of(
                        after,
                        other,
                    ) == #[trigger] position_of(before, other)) by {
                        lemma_position_by_names(before, after, other);
                        lemma_position_by_names(after, before, other);
                    }
                    assert forall|other: Seq<char>|
                        other != name@ && #[trigger] position_of(before, other)
                            is Some implies after[position_of(after, other)->Some_0].arity
                        == before[position_of(before, other)->Some_0].arity by {
                        lemma_position_of(before, other);
                    }
                    assert(self@ =~= old(self)@.insert(name@, arity));
                }
            },
            None => {
                self.entries.push(entry);
                proof {
                    let after = self.entries@;
                    lemma_position_of(after, name@);
                    lemma_position_of(before, name@);
                    assert(after[before.len() as int].name@ == name@);
                    assert(position_of(after, name@) == Some(before.len() as int)) by {
                        let i = position_of(after, name@)->Some_0;
                        if i < before.len() {
                            assert(before[i] == after[i]);
                        }
                    }
                    assert forall|other: Seq<char>| other != name@ implies (position_of(
                        after,
                        other,
                    ) == #[trigger] position_of(before, other)) by {
                        lemma_position_by_names(before, after, other);
                        lemma_position_of(after, other);
                        lemma_position_of(before, other);
                    }
                    assert forall|other: Seq<char>|
                        other != name@ && #[trigger] position_of(before, other)
                            is Some implies after[position_of(after, other)->Some_0].arity
                        == before[position_of(before, other)->Some_0].arity by {
                        lemma_position_of(before, other);
                    }
                    assert(self@ =~= old(self)@.insert(name@, arity));
                }
            },
        }
    }

    /// The counts that the function known under `name` declared.
    pub fn arity(&self, name: &str) -> (found: Option<Arity>)
        ensures
            found == (if self@.contains_key(name@) {
                Some(self@[name@])
            } else {
                None
            }),
    {
        match self.find(name) {
            Some(i) => Some(self.entries[i].arity),
            None => None,
        }
    }

    /// Whether a function is known under `name`.
    pub fn contains_key(&self, name: &str) -> (found: bool)
        ensures
            found == self@.contains_key(name@),
    {
        self.find(name).is_some()
    }

    /// Runs the function known under `name`. What comes back is the
    /// function's own business: nothing is promised of it.
    pub fn execute(&self, name: &str, argument: Option<DataValue>, scope: &Scope) -> (outcome:
        Result<Option<DataValue>, BuiltInError>)
        requires
            self@.contains_key(name@),
    {
        match self.find(name) {
            Some(i) => self.entries[i].function.execute(argument, scope),
            None => Ok(None),
        }
    }
}

/// The functions that a running program may call.
pub fn get_interpret_builtins() -> (registry: BuiltIns<'static>)
    ensures
        registry@ == Map::<Seq<char>, Arity>::empty(),
{
    BuiltIns::new()
}

/// The functions that may be called while a program is being prepared.
/// They are entered here one by one: being known to the interpreter does not
/// make a function fit for this.
pub fn get_comptime_builtins() -> (registry: BuiltIns<'static>)
    ensures
        registry@ == Map::<Seq<char>, Arity>::empty(),
{
    BuiltIns::new()
}

/// The names of the functions that the native-code backend offers. None
/// is entered yet. Each of them will need a function of the same name among
/// those of the interpreter, so that it can be tried out there.
pub fn get_compile_builtins() -> (names: Vec<String>)
    ensures
        names@.len() == 0,
{
    Vec::new()
}

} // verus!
