//! Environments: the chained scopes in which names are bound.
//!
//! All scopes of a run live in one store and refer to their enclosing scope
//! by its index. A function value holds the index of the scope it was
//! declared in, so every call of it, and every other function declared
//! there, reads and writes the same bindings. A scope is discarded when it
//! is left, unless a function was declared in it or a scope that was
//! opened after it is still there.

use vstd::prelude::*;
use crate::errors::{InterpretError, InterpretErrorView};
use crate::token::Token;
use crate::value::{Evaluation, EvaluationView};

verus! {

/// One name with its value, if it has been given one.
#[derive(Debug)]
pub struct Binding<'a> {
    pub name: String,
    pub value: Option<Evaluation<'a>>,
}

/// One scope: its bindings, the index of the scope around it, and
/// whether a function was declared in it.
#[derive(Debug)]
pub struct Scope<'a> {
    pub bindings: Vec<Binding<'a>>,
    pub enclosing: Option<usize>,
    pub captured: bool,
}

/// The mathematical model of a [`Scope`]: a map from names to optional
/// values, and the index of the scope around it.
pub struct ScopeView {
    pub bindings: Map<Seq<char>, Option<EvaluationView>>,
    pub enclosing: Option<usize>,
    pub captured: bool,
}

/// The model of an optional value.
pub open spec fn optional_view(value: Option<Evaluation>) -> Option<EvaluationView> {
    match value {
        Some(v) => Some(v@),
        None => None,
    }
}

/// The first index at or after `from` whose binding has the name `name`,
/// or the number of bindings where there is none.
pub open spec fn position_from(entries: Seq<Binding>, name: Seq<char>, from: int) -> int
    decreases entries.len() - from,
{
    if 0 <= from < entries.len() && entries[from].name@ != name {
        position_from(entries, name, from + 1)
    } else {
        from
    }
}

/// The map that a list of bindings stands for. Where a name occurs more
/// than once, its first binding counts.
pub open spec fn bindings_map(entries: Seq<Binding>) -> Map<Seq<char>, Option<EvaluationView>> {
    Map::new(
        |k: Seq<char>| position_from(entries, k, 0) < entries.len(),
        |k: Seq<char>| optional_view(entries[position_from(entries, k, 0)].value),
    )
}

impl<'a> View for Scope<'a> {
    type V = ScopeView;

    open spec fn view(&self) -> ScopeView {
        ScopeView {
            bindings: bindings_map(self.bindings@),
            enclosing: self.enclosing,
            captured: self.captured,
        }
    }
}

/// The models of a sequence of scopes, in order.
pub open spec fn scope_views(scopes: Seq<Scope>) -> Seq<ScopeView> {
    Seq::new(scopes.len(), |i: int| scopes[i]@)
}

/// The search for a name ends at or after its start, within the list, and
/// at a binding of that name if it ends before the end of the list.
pub proof fn lemma_position_from(entries: Seq<Binding>, name: Seq<char>, from: int)
    requires
        0 <= from <= entries.len(),
    ensures
        from <= position_from(entries, name, from) <= entries.len(),
        position_from(entries, name, from) < entries.len() ==> entries[position_from(
            entries,
            name,
            from,
        )].name@ == name,
        forall|j: int| from <= j < position_from(entries, name, from) ==> entries[j].name@ != name,
    decreases entries.len() - from,
{
    if from < entries.len() && entries[from].name@ != name {
        lemma_position_from(entries, name, from + 1);
    }
}

/// Two lists with the same names in the same places find every name at the
/// same position.
pub proof fn lemma_position_same_names(
    a: Seq<Binding>,
    b: Seq<Binding>,
    name: Seq<char>,
    from: int,
)
    requires
        0 <= from <= a.len(),
        a.len() == b.len(),
        forall|j: int| 0 <= j < a.len() ==> a[j].name@ == b[j].name@,
    ensures
        position_from(a, name, from) == position_from(b, name, from),
    decreases a.len() - from,
{
    if from < a.len() && a[from].name@ != name {
        lemma_position_same_names(a, b, name, from + 1);
    }
}

/// In a list with one more binding at its end, a name is found where it
/// was found before or, if it was not found, at the new binding if that
/// has the name.
pub proof fn lemma_position_push(entries: Seq<Binding>, added: Binding, name: Seq<char>, from: int)
    requires
        0 <= from <= entries.len(),
    ensures
        position_from(entries.push(added), name, from) == if position_from(entries, name, from)
            < entries.len() || added.name@ == name {
            position_from(entries, name, from)
        } else {
            (entries.len() + 1) as int
        },
    decreases entries.len() - from,
{
    let longer = entries.push(added);
    if from < entries.len() {
        assert(longer[from] == entries[from]);
        if entries[from].name@ != name {
            lemma_position_push(entries, added, name, from + 1);
        }
    } else {
        assert(longer[from] == added);
        if added.name@ != name {
            assert(position_from(longer, name, from + 1) == from + 1);
        }
    }
}

/// Giving the first binding of a name a new value changes the map at that
/// name and nowhere else.
pub proof fn lemma_bindings_map_update(entries: Seq<Binding>, index: int, replacement: Binding)
    requires
        0 <= index < entries.len(),
        index == position_from(entries, replacement.name@, 0),
    ensures
        bindings_map(entries.update(index, replacement)) == bindings_map(entries).insert(
            replacement.name@,
            optional_view(replacement.value),
        ),
{
    let name = replacement.name@;
    let updated = entries.update(index, replacement);
    let before = bindings_map(entries).insert(name, optional_view(replacement.value));
    let after = bindings_map(updated);
    lemma_position_from(entries, name, 0);
    assert forall|k: Seq<char>| #[trigger] after.dom().contains(k) == before.dom().contains(k) by {
        lemma_position_same_names(updated, entries, k, 0);
    }
    assert forall|k: Seq<char>| after.dom().contains(k) implies #[trigger] after[k] == before[k] by {
        lemma_position_same_names(updated, entries, k, 0);
        lemma_position_from(entries, k, 0);
        let p = position_from(entries, k, 0);
        if k != name {
            assert(updated[p] == entries[p]);
        }
    }
    assert(after =~= before);
}

/// Adding a binding for a name that has none adds the name to the map and
/// changes nothing else.
pub proof fn lemma_bindings_map_push(entries: Seq<Binding>, added: Binding)
    requires
        position_from(entries, added.name@, 0) == entries.len(),
    ensures
        bindings_map(entries.push(added)) == bindings_map(entries).insert(
            added.name@,
            optional_view(added.value),
        ),
{
    let longer = entries.push(added);
    assert forall|k: Seq<char>|
        position_from(longer, k, 0) == if position_from(entries, k, 0) < entries.len()
            || added.name@ == k {
            position_from(entries, k, 0)
        } else {
            (entries.len() + 1) as int
        } by {
        lemma_position_push(entries, added, k, 0);
    }
    assert forall|k: Seq<char>| position_from(entries, k, 0) < entries.len() implies longer[(
    #[trigger] position_from(entries, k, 0))] == entries[position_from(entries, k, 0)] by {
        lemma_position_from(entries, k, 0);
    }
    assert(longer[entries.len() as int] == added);
    assert(bindings_map(longer) =~= bindings_map(entries).insert(
        added.name@,
        optional_view(added.value),
    ));
}

impl<'a> Scope<'a> {
    /// The index of the first binding of `name`, if there is one.
    pub fn find(&self, name: &String) -> (r: Option<usize>)
        ensures
            match r {
                Some(i) => i < self.bindings@.len() && i == position_from(self.bindings@, name@, 0),
                None => position_from(self.bindings@, name@, 0) == self.bindings@.len(),
            },
    {
        let mut i: usize = 0;
        while i < self.bindings.len()
            invariant
                i <= self.bindings.len(),
                position_from(self.bindings@, name@, i as int) == position_from(
                    self.bindings@,
                    name@,
                    0,
                ),
            decreases self.bindings.len() - i,
        {
            if self.bindings[i].name == *name {
                return Some(i);
            }
            i += 1;
        }
        None
    }
}

/// The scopes of a run and the index of the innermost scope in force.
#[derive(Debug)]
pub struct Environment<'a> {
    pub scopes: Vec<Scope<'a>>,
    pub current: usize,
}

/// The mathematical model of an [`Environment`].
pub struct EnvironmentView {
    pub scopes: Seq<ScopeView>,
    pub current: int,
}

impl EnvironmentView {
    /// The innermost scope is one of the scopes, and every scope is
    /// enclosed by an older one.
    pub open spec fn well_formed(self) -> bool {
        &&& 0 <= self.current < self.scopes.len()
        &&& forall|i: int|
            0 <= i < self.scopes.len() ==> (#[trigger] self.scopes[i].enclosing matches Some(p)
                ==> p < i)
    }

    /// The environment with `name` bound to `value` in the innermost
    /// scope, in place of what it was bound to there, if anything.
    pub open spec fn define(self, name: Seq<char>, value: Option<EvaluationView>) -> Self {
        let scope = self.scopes[self.current as int];
        EnvironmentView {
            scopes: self.scopes.update(
                self.current as int,
                ScopeView { bindings: scope.bindings.insert(name, value), ..scope },
            ),
            ..self
        }
    }

    /// The value of `name` as seen from the scope `id`: what the nearest
    /// scope, going outward, that has the name binds it to. A name that
    /// was declared there without a value, and not assigned to since, has
    /// no value, whatever the scopes further out bind it to.
    pub open spec fn lookup_from(self, id: int, name: Seq<char>) -> Option<EvaluationView>
        decreases id,
    {
        if 0 <= id < self.scopes.len() {
            let scope = self.scopes[id];
            if scope.bindings.dom().contains(name) {
                scope.bindings[name]
            } else {
                match scope.enclosing {
                    Some(p) => if p < id {
                        self.lookup_from(p as int, name)
                    } else {
                        None
                    },
                    None => None,
                }
            }
        } else {
            None
        }
    }

    /// The value of `name` as seen from the innermost scope.
    pub open spec fn lookup(self, name: Seq<char>) -> Option<EvaluationView> {
        self.lookup_from(self.current as int, name)
    }

    /// The environment after `name` is given `value` in the nearest scope,
    /// going outward from the scope `id`, that has the name; `None` where
    /// no such scope has it.
    pub open spec fn assign_from(self, id: int, name: Seq<char>, value: EvaluationView) -> Option<
        Self,
    >
        decreases id,
    {
        if 0 <= id < self.scopes.len() {
            let scope = self.scopes[id];
            if scope.bindings.dom().contains(name) {
                Some(
                    EnvironmentView {
                        scopes: self.scopes.update(
                            id,
                            ScopeView { bindings: scope.bindings.insert(name, Some(value)), ..scope },
                        ),
                        ..self
                    },
                )
            } else {
                match scope.enclosing {
                    Some(p) => if p < id {
                        self.assign_from(p as int, name, value)
                    } else {
                        None
                    },
                    None => None,
                }
            }
        } else {
            None
        }
    }

    /// The environment after `name` is given `value`, as seen from the
    /// innermost scope.
    pub open spec fn assign(self, name: Seq<char>, value: EvaluationView) -> Option<Self> {
        self.assign_from(self.current as int, name, value)
    }

    /// The environment with a new, empty innermost scope enclosed by the
    /// scope `enclosing`.
    pub open spec fn enter(self, enclosing: usize) -> Self {
        EnvironmentView {
            scopes: self.scopes.push(
                ScopeView { bindings: Map::empty(), enclosing: Some(enclosing), captured: false },
            ),
            current: self.scopes.len() as int,
        }
    }

    /// The environment with the innermost scope marked as one in which a
    /// function was declared.
    pub open spec fn capture(self) -> Self {
        let scope = self.scopes[self.current];
        EnvironmentView {
            scopes: self.scopes.update(self.current, ScopeView { captured: true, ..scope }),
            ..self
        }
    }

    /// The environment once the innermost scope is left for the scope
    /// `previous`. The scope that is left is discarded if it is the
    /// youngest scope and no function was declared in it: then nothing
    /// refers to it.
    pub open spec fn leave(self, previous: int) -> Self {
        let last = self.scopes.len() - 1;
        if self.current == last && 0 <= previous < last && !self.scopes[last].captured {
            EnvironmentView { scopes: self.scopes.drop_last(), current: previous }
        } else {
            EnvironmentView { current: previous, ..self }
        }
    }

    /// The environment with the scope `scope` as its innermost.
    pub open spec fn resume(self, scope: int) -> Self {
        EnvironmentView { current: scope, ..self }
    }

    /// The first environment of a run: one scope without bindings.
    pub open spec fn initial() -> Self {
        EnvironmentView {
            scopes: seq![ScopeView { bindings: Map::empty(), enclosing: None, captured: false }],
            current: 0,
        }
    }
}

impl<'a> View for Environment<'a> {
    type V = EnvironmentView;

    open spec fn view(&self) -> EnvironmentView {
        EnvironmentView { scopes: scope_views(self.scopes@), current: self.current as int }
    }
}

impl<'a> Environment<'a> {
    /// An environment of one scope without bindings.
    pub fn new() -> (r: Self)
        ensures
            r@ == EnvironmentView::initial(),
            r@.well_formed(),
    {
        let mut scopes: Vec<Scope<'a>> = Vec::new();
        scopes.push(Scope { bindings: Vec::new(), enclosing: None, captured: false });
        let r = Self { scopes, current: 0 };
        proof {
            assert(bindings_map(r.scopes@[0].bindings@) =~= Map::empty());
            assert(r@.scopes =~= EnvironmentView::initial().scopes);
        }
        r
    }

    /// Whether the environment is well formed: the innermost scope is one
    /// of the scopes, and every scope is enclosed by an older one.
    pub fn is_well_formed(&self) -> (r: bool)
        ensures
            r == self@.well_formed(),
    {
        if self.current >= self.scopes.len() {
            return false;
        }
        let mut i: usize = 0;
        while i < self.scopes.len()
            invariant
                i <= self.scopes.len(),
                self.current < self.scopes.len(),
                forall|j: int|
                    0 <= j < i ==> (#[trigger] self@.scopes[j].enclosing matches Some(p) ==> p < j),
            decreases self.scopes.len() - i,
        {
            match self.scopes[i].enclosing {
                Some(p) => {
                    if p >= i {
                        assert(self@.scopes[i as int].enclosing == Some(p));
                        return false;
                    }
                },
                None => {},
            }
            assert(self@.scopes[i as int].enclosing == self.scopes@[i as int].enclosing);
            i += 1;
        }
        true
    }

    /// Binds `name` to `value` in the innermost scope. A name that is
    /// already bound there is bound anew.
    pub fn define(&mut self, name: String, value: Option<Evaluation<'a>>)
        requires
            old(self)@.well_formed(),
        ensures
            final(self)@ == old(self)@.define(name@, optional_view(value)),
            final(self)@.well_formed(),
    {
        let current = self.current;
        let ghost before = self.scopes@[current as int].bindings@;
        let binding = Binding { name, value };
        match self.scopes[current].find(&binding.name) {
            Some(i) => {
                proof {
                    lemma_bindings_map_update(before, i as int, binding);
                }
                self.scopes[current].bindings[i] = binding;
            },
            None => {
                proof {
                    lemma_bindings_map_push(before, binding);
                }
                self.scopes[current].bindings.push(binding);
            },
        }
        proof {
            assert(self@.scopes =~= old(self)@.define(
                binding.name@,
                optional_view(binding.value),
            ).scopes);
        }
    }

    /// The value of the variable that `name` names: what the nearest
    /// scope, going outward, that has the name binds it to. A variable
    /// that has no value there, or that no scope has, is undefined.
    pub fn get(&self, name: &Token) -> (r: Result<Evaluation<'a>, InterpretError<'a>>)
        requires
            self@.well_formed(),
        ensures
            match self@.lookup(name@.lexeme) {
                Some(v) => r matches Ok(x) && x@ == v,
                None => r matches Err(e) && e@ == (InterpretErrorView::UndefinedVariable {
                    lexeme: name@.lexeme,
                }),
            },
    {
        let mut id = self.current;
        loop
            invariant
                self@.well_formed(),
                id < self.scopes.len(),
                self@.lookup_from(id as int, name@.lexeme) == self@.lookup(name@.lexeme),
            decreases id,
        {
            let scope = &self.scopes[id];
            proof {
                lemma_position_from(scope.bindings@, name@.lexeme, 0);
                assert(self@.scopes[id as int] == scope@);
            }
            match scope.find(&name.lexeme) {
                Some(i) => {
                    return match &scope.bindings[i].value {
                        Some(v) => Ok(v.clone()),
                        None => Err(
                            InterpretError::UndefinedVariable { lexeme: name.lexeme.clone() },
                        ),
                    };
                },
                None => {},
            }
            match scope.enclosing {
                Some(p) => {
                    id = p;
                },
                None => {
                    return Err(InterpretError::UndefinedVariable { lexeme: name.lexeme.clone() });
                },
            }
        }
    }

    /// Gives the variable that `name` names the value `value`, in the
    /// nearest scope, going outward, that has the name. No scope gains a
    /// name.
    pub fn assign(&mut self, name: &Token, value: Evaluation<'a>) -> (r: Result<
        (),
        InterpretError<'a>,
    >)
        requires
            old(self)@.well_formed(),
        ensures
            match old(self)@.assign(name@.lexeme, value@) {
                Some(env) => r is Ok && final(self)@ == env,
                None => {
                    &&& final(self)@ == old(self)@
                    &&& r matches Err(e)
                    &&& e@ == (InterpretErrorView::UndefinedVariable { lexeme: name@.lexeme })
                },
            },
            final(self)@.well_formed(),
            final(self)@.scopes.len() == old(self)@.scopes.len(),
    {
        let mut id = self.current;
        loop
            invariant
                *self == *old(self),
                self@.well_formed(),
                id < self.scopes.len(),
                self@.assign_from(id as int, name@.lexeme, value@) == self@.assign(
                    name@.lexeme,
                    value@,
                ),
            decreases id,
        {
            let ghost before = self.scopes@[id as int].bindings@;
            proof {
                lemma_position_from(before, name@.lexeme, 0);
                assert(self@.scopes[id as int] == self.scopes@[id as int]@);
            }
            match self.scopes[id].find(&name.lexeme) {
                Some(i) => {
                    let binding = Binding { name: name.lexeme.clone(), value: Some(value) };
                    proof {
                        lemma_bindings_map_update(before, i as int, binding);
                    }
                    self.scopes[id].bindings[i] = binding;
                    proof {
                        assert(self@.scopes =~= old(self)@.assign(
                            name@.lexeme,
                            value@,
                        ).unwrap().scopes);
                    }
                    return Ok(());
                },
                None => {},
            }
            match self.scopes[id].enclosing {
                Some(p) => {
                    id = p;
                },
                None => {
                    return Err(InterpretError::UndefinedVariable { lexeme: name.lexeme.clone() });
                },
            }
        }
    }

    /// Opens a new, empty innermost scope enclosed by the scope
    /// `enclosing`, and returns the index of the scope that was innermost.
    pub fn enter(&mut self, enclosing: usize) -> (previous: usize)
        requires
            old(self)@.well_formed(),
            enclosing < old(self).scopes@.len(),
        ensures
            previous == old(self).current,
            final(self)@ == old(self)@.enter(enclosing),
            final(self)@.well_formed(),
    {
        let previous = self.current;
        let id = self.scopes.len();
        self.scopes.push(Scope { bindings: Vec::new(), enclosing: Some(enclosing), captured: false });
        self.current = id;
        proof {
            assert(bindings_map(self.scopes@[id as int].bindings@) =~= Map::empty());
            assert(self@.scopes =~= old(self)@.enter(enclosing).scopes);
        }
        previous
    }

    /// Marks the innermost scope as one in which a function was declared,
    /// so that it stays when it is left.
    pub fn capture(&mut self)
        requires
            old(self)@.well_formed(),
        ensures
            final(self)@ == old(self)@.capture(),
            final(self)@.well_formed(),
    {
        let current = self.current;
        self.scopes[current].captured = true;
        proof {
            assert(self@.scopes =~= old(self)@.capture().scopes);
        }
    }

    /// Leaves the innermost scope for the scope `previous`, and discards
    /// the scope that is left if it is the youngest and no function was
    /// declared in it.
    pub fn leave(&mut self, previous: usize)
        requires
            old(self)@.well_formed(),
            previous < old(self).scopes@.len(),
        ensures
            final(self)@ == old(self)@.leave(previous as int),
            final(self)@.well_formed(),
            final(self).scopes@.len() + 1 >= old(self).scopes@.len(),
    {
        let last = self.scopes.len() - 1;
        if self.current == last && previous < last && !self.scopes[last].captured {
            self.scopes.pop();
            proof {
                assert(self@.scopes =~= old(self)@.scopes.drop_last());
            }
        }
        self.current = previous;
    }

    /// Makes the scope `scope` the innermost again.
    pub fn resume(&mut self, scope: usize)
        requires
            old(self)@.well_formed(),
            scope < old(self).scopes@.len(),
        ensures
            final(self)@ == old(self)@.resume(scope as int),
            final(self)@.well_formed(),
    {
        self.current = scope;
    }
}

} // verus!
