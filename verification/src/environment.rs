//! The environment: the bindings of names to values that a scope sees.
//!
//! A scope is a copy, never a link: a block or a call works on its own
//! environment, and what a block reassigned is written back when it ends.
use vstd::prelude::*;
use crate::desugar::duplicate_procedures;
use crate::desugar::procedures_view;
use crate::desugar::Procedure;
use crate::desugar::ProcedureView;
use crate::desugar::duplicate_names;
use crate::error::RuntimeError;
use crate::error::RuntimeErrorView;
use crate::interpreter::Value;
use crate::interpreter::ValueView;

verus! {

/// How a binding came to its value.
#[derive(Clone, Copy, Debug, PartialEq, Eq, PartialOrd, Ord, Structural)]
pub enum AssignmentType {
    Initialized,
    Reassigned,
}

/// Whether a binding may be reassigned.
#[derive(Clone, Copy, Debug, PartialEq, Eq, PartialOrd, Ord, Structural)]
pub enum Mutability {
    Constant,
    Mutable,
}

/// What a name is bound to.
pub type Entry = (Value, AssignmentType, Mutability);

/// A name with what it is bound to.
pub type Binding = (String, Entry);

/// What an [`Entry`] holds.
pub type EntryView = (ValueView, AssignmentType, Mutability);

/// What a [`Binding`] holds.
pub type BindingView = (Seq<char>, EntryView);

/// The top-level procedures of a program and the bindings of one scope.
#[derive(Debug)]
pub struct Environment {
    top_level_procedures: Vec<Procedure>,
    values: Vec<Binding>,
}

/// What an [`Environment`] holds: the procedures, in the order in which
/// they were given, and the bindings, in the order in which their names were
/// first bound.
pub struct EnvironmentView {
    pub procedures: Seq<ProcedureView>,
    pub values: Seq<BindingView>,
}

/// What a sequence of bindings holds.
pub open spec fn bindings_view(bindings: Seq<Binding>) -> Seq<BindingView>
    decreases bindings,
{
    Seq::new(
        bindings.len(),
        |i: int|
            if 0 <= i < bindings.len() {
                (bindings[i].0@, (bindings[i].1.0.model(), bindings[i].1.1, bindings[i].1.2))
            } else {
                (Seq::empty(), (ValueView::Nil, AssignmentType::Initialized, Mutability::Constant))
            },
    )
}

impl Environment {
    /// What the environment holds.
    pub closed spec fn model(self) -> EnvironmentView
        decreases self,
    {
        EnvironmentView {
            procedures: procedures_view(self.top_level_procedures@),
            values: bindings_view(self.values@),
        }
    }
}

impl View for Environment {
    type V = EnvironmentView;

    open spec fn view(&self) -> EnvironmentView {
        self.model()
    }
}

/// A copy of a list of bindings.
pub fn duplicate_bindings(bindings: &Vec<Binding>) -> (r: Vec<Binding>)
    ensures
        bindings_view(r@) == bindings_view(bindings@),
    decreases bindings,
{
    let mut copy: Vec<Binding> = Vec::new();
    let mut i: usize = 0;
    while i < bindings.len()
        invariant
            i <= bindings.len(),
            copy@.len() == i,
            forall|j: int|
                0 <= j < i ==> copy@[j].0@ == bindings@[j].0@ && copy@[j].1.0@ == bindings@[j].1.0@
                    && copy@[j].1.1 == bindings@[j].1.1 && copy@[j].1.2 == bindings@[j].1.2,
        decreases bindings.len() - i,
    {
        let binding = &bindings[i];
        copy.push((binding.0.clone(), (binding.1.0.duplicate(), binding.1.1, binding.1.2)));
        i += 1;
    }
    proof {
        assert(bindings_view(copy@) =~= bindings_view(bindings@));
    }
    copy
}

impl Clone for Environment {
    fn clone(&self) -> (r: Self)
        ensures
            r@ == self@,
    {
        self.duplicate()
    }
}

/// The index of the first binding of a name, or the number of bindings if it
/// has none.
pub open spec fn binding_index(bindings: Seq<BindingView>, name: Seq<char>) -> int
    decreases bindings.len(),
{
    if bindings.len() == 0 {
        0
    } else if bindings[0].0 == name {
        0
    } else {
        1 + binding_index(bindings.drop_first(), name)
    }
}

/// The index of the last procedure of a name, or -1 if there is none.
pub open spec fn procedure_index(procedures: Seq<ProcedureView>, name: Seq<char>) -> int
    decreases procedures.len(),
{
    if procedures.len() == 0 {
        -1
    } else if procedures.last().name == name {
        procedures.len() - 1
    } else {
        procedure_index(procedures.drop_last(), name)
    }
}

impl EnvironmentView {
    /// The environment of a program before anything is bound.
    pub open spec fn initial(procedures: Seq<ProcedureView>) -> EnvironmentView {
        EnvironmentView { procedures, values: Seq::empty() }
    }

    /// Whether the name is bound to a value.
    pub open spec fn binds(self, name: Seq<char>) -> bool {
        binding_index(self.values, name) < self.values.len()
    }

    /// What the name is bound to.
    pub open spec fn entry(self, name: Seq<char>) -> EntryView
        recommends
            self.binds(name),
    {
        self.values[binding_index(self.values, name)].1
    }

    /// Whether a top-level procedure has the name.
    pub open spec fn has_procedure(self, name: Seq<char>) -> bool {
        procedure_index(self.procedures, name) >= 0
    }

    /// The value of a name: what it is bound to, else the top-level procedure
    /// of that name, which sees the top-level procedures and no binding.
    pub open spec fn lookup(self, name: Seq<char>) -> Result<ValueView, RuntimeErrorView> {
        if self.binds(name) {
            Ok(self.entry(name).0)
        } else if self.has_procedure(name) {
            let p = self.procedures[procedure_index(self.procedures, name)];
            Ok(ValueView::Proc(p.params, p.body, EnvironmentView::initial(self.procedures)))
        } else {
            Err(RuntimeErrorView::UnknownVariable(name))
        }
    }

    /// The environment with the name bound anew, in the place of its binding
    /// where it had one.
    pub open spec fn bind(self, name: Seq<char>, entry: EntryView) -> EnvironmentView {
        let i = binding_index(self.values, name);
        EnvironmentView {
            procedures: self.procedures,
            values: if i < self.values.len() {
                self.values.update(i, (name, entry))
            } else {
                self.values.push((name, entry))
            },
        }
    }

    /// The environment after an assignment to a name, which must be bound
    /// and mutable.
    pub open spec fn reassign(self, name: Seq<char>, value: ValueView) -> Result<
        EnvironmentView,
        RuntimeErrorView,
    > {
        if self.binds(name) {
            if self.entry(name).2 == Mutability::Mutable {
                Ok(self.bind(name, (value, AssignmentType::Reassigned, Mutability::Mutable)))
            } else {
                Err(RuntimeErrorView::ReassignConstant(name))
            }
        } else if self.has_procedure(name) {
            Err(RuntimeErrorView::ReassignTopLevelProc(name))
        } else {
            Err(RuntimeErrorView::UnknownVariable(name))
        }
    }

    /// The environment with each of the bindings bound in turn.
    pub open spec fn extend(self, bindings: Seq<BindingView>) -> EnvironmentView
        decreases bindings.len(),
    {
        if bindings.len() == 0 {
            self
        } else {
            self.bind(bindings[0].0, bindings[0].1).extend(bindings.drop_first())
        }
    }

    /// The environment after the bindings of a scope made from it are merged
    /// back, in their order: each that the scope marked as reassigned and
    /// whose name is bound here is assigned here.
    pub open spec fn merge(self, child: Seq<BindingView>) -> Result<
        EnvironmentView,
        RuntimeErrorView,
    >
        decreases child.len(),
    {
        if child.len() == 0 {
            Ok(self)
        } else {
            let binding = child[0];
            if self.binds(binding.0) && binding.1.1 == AssignmentType::Reassigned {
                match self.reassign(binding.0, binding.1.0) {
                    Ok(next) => next.merge(child.drop_first()),
                    Err(e) => Err(e),
                }
            } else {
                self.merge(child.drop_first())
            }
        }
    }
}

/// `binding_index` is the first index that holds the name.
proof fn lemma_binding_index(bindings: Seq<BindingView>, name: Seq<char>, p: int)
    requires
        0 <= p <= bindings.len(),
        forall|j: int| 0 <= j < p ==> bindings[j].0 != name,
        p < bindings.len() ==> bindings[p].0 == name,
    ensures
        binding_index(bindings, name) == p,
    decreases bindings.len(),
{
    if bindings.len() == 0 || p == 0 {
    } else {
        let t = bindings.drop_first();
        assert forall|j: int| 0 <= j < p - 1 implies t[j].0 != name by {
            assert(t[j] == bindings[j + 1]);
        }
        lemma_binding_index(t, name, p - 1);
    }
}

/// `procedure_index` is the last index that holds the name.
proof fn lemma_procedure_index(procedures: Seq<ProcedureView>, name: Seq<char>, p: int)
    requires
        -1 <= p < procedures.len(),
        forall|j: int| p < j < procedures.len() ==> procedures[j].name != name,
        0 <= p ==> procedures[p].name == name,
    ensures
        procedure_index(procedures, name) == p,
    decreases procedures.len(),
{
    if procedures.len() == 0 || p == procedures.len() - 1 {
    } else {
        let t = procedures.drop_last();
        assert forall|j: int| p < j < t.len() implies t[j].name != name by {
            assert(t[j] == procedures[j]);
        }
        lemma_procedure_index(t, name, p);
    }
}

/// What the result of a lookup holds.
pub open spec fn value_result_view(r: Result<Value, RuntimeError>) -> Result<
    ValueView,
    RuntimeErrorView,
> {
    match r {
        Ok(v) => Ok(v@),
        Err(e) => Err(e@),
    }
}

impl Environment {
    /// No two bindings have the same name.
    #[verifier::type_invariant]
    spec fn names_are_distinct(self) -> bool {
        forall|i: int, j: int|
            0 <= i < j < self.values@.len() ==> (#[trigger] self.values@[i]).0@ != (
            #[trigger] self.values@[j]).0@
    }

    proof fn lemma_well_formed(self)
        requires
            self.names_are_distinct(),
        ensures
            self.model().well_formed(),
    {
        let v = bindings_view(self.values@);
        assert forall|i: int, j: int| 0 <= i < j < v.len() implies (#[trigger] v[i]).0 != (
        #[trigger] v[j]).0 by {
            assert(self.values@[i].0@ != self.values@[j].0@);
        }
    }

    /// The environment of a program with these top-level procedures, before
    /// anything is bound.
    pub fn new(procedures: Vec<Procedure>) -> (r: Self)
        ensures
            r@ == EnvironmentView::initial(procedures_view(procedures@)),
            r@.well_formed(),
            r@.reassigned_are_mutable(),
    {
        let r = Environment { top_level_procedures: procedures, values: Vec::new() };
        proof {
            assert(bindings_view(r.values@) =~= Seq::empty());
        }
        r
    }

    /// A copy of the environment.
    pub fn duplicate(&self) -> (r: Environment)
        ensures
            r@ == self@,
            r@.well_formed(),
        decreases self,
    {
        proof {
            use_type_invariant(self);
            self.lemma_well_formed();
        }
        let values = duplicate_bindings(&self.values);
        proof {
            assert(values@.len() == bindings_view(values@).len());
            assert(self.values@.len() == bindings_view(self.values@).len());
            assert forall|i: int| 0 <= i < values@.len() implies (#[trigger] values@[i]).0@
                == self.values@[i].0@ by {
                assert(bindings_view(values@)[i] == bindings_view(self.values@)[i]);
            }
        }
        Environment {
            top_level_procedures: duplicate_procedures(&self.top_level_procedures),
            values,
        }
    }

    fn find_binding(&self, key: &String) -> (i: usize)
        ensures
            i == binding_index(self@.values, key@),
            i <= self.values@.len(),
            self@.values.len() == self.values@.len(),
            forall|j: int| 0 <= j < i ==> (#[trigger] self.values@[j]).0@ != key@,
            i < self.values@.len() ==> self.values@[i as int].0@ == key@,
            self@.well_formed(),
    {
        proof {
            use_type_invariant(self);
            self.lemma_well_formed();
        }
        let mut i: usize = 0;
        while i < self.values.len() && self.values[i].0 != *key
            invariant
                i <= self.values@.len(),
                forall|j: int| 0 <= j < i ==> (#[trigger] self.values@[j]).0@ != key@,
            decreases self.values@.len() - i,
        {
            i += 1;
        }
        proof {
            lemma_binding_index(self@.values, key@, i as int);
        }
        i
    }

    fn find_procedure(&self, key: &String) -> (r: Option<usize>)
        ensures
            match r {
                Some(i) => procedure_index(self@.procedures, key@) == i
                    && i < self.top_level_procedures@.len(),
                None => procedure_index(self@.procedures, key@) == -1,
            },
            self@.procedures.len() == self.top_level_procedures@.len(),
    {
        let mut i: usize = self.top_level_procedures.len();
        while i > 0 && self.top_level_procedures[i - 1].name != *key
            invariant
                i <= self.top_level_procedures@.len(),
                forall|j: int|
                    i <= j < self.top_level_procedures@.len()
                        ==> self.top_level_procedures@[j].name@ != key@,
            decreases i,
        {
            i -= 1;
        }
        proof {
            lemma_procedure_index(self@.procedures, key@, i - 1);
        }
        if i > 0 {
            Some(i - 1)
        } else {
            None
        }
    }

    /// The value of a name.
    pub fn get(&self, key: String) -> (r: Result<Value, RuntimeError>)
        ensures
            value_result_view(r) == self@.lookup(key@),
            self@.well_formed(),
    {
        let i = self.find_binding(&key);
        if i < self.values.len() {
            return Ok(self.values[i].1.0.duplicate());
        }
        match self.find_procedure(&key) {
            Some(p) => {
                let procedure = &self.top_level_procedures[p];
                let captured = Environment::new(duplicate_procedures(&self.top_level_procedures));
                Ok(Value::Proc(duplicate_names(&procedure.params), procedure.body.duplicate(), captured))
            },
            None => Err(RuntimeError::UnknownVariable(key)),
        }
    }

    fn put(&mut self, key: String, entry: Entry)
        ensures
            final(self)@ == old(self)@.bind(key@, (entry.0@, entry.1, entry.2)),
            final(self)@.well_formed(),
            old(self)@.reassigned_are_mutable() && (entry.1 == AssignmentType::Reassigned
                ==> entry.2 == Mutability::Mutable) ==> final(self)@.reassigned_are_mutable(),
    {
        let i = self.find_binding(&key);
        let ghost before = self.values@;
        proof {
            use_type_invariant(&*self);
            bind_keeps_well_formed(self@, key@, (entry.0@, entry.1, entry.2));
        }
        let mut taken = Environment::new(Vec::new());
        core::mem::swap(self, &mut taken);
        let Environment { top_level_procedures, values } = taken;
        let mut values = values;
        if i < values.len() {
            values[i] = (key, entry);
            proof {
                assert(bindings_view(values@) =~= bindings_view(before).update(
                    i as int,
                    (key@, (entry.0@, entry.1, entry.2)),
                ));
            }
        } else {
            values.push((key, entry));
            proof {
                assert(bindings_view(values@) =~= bindings_view(before).push(
                    (key@, (entry.0@, entry.1, entry.2)),
                ));
            }
        }
        *self = Environment { top_level_procedures, values };
    }

    /// The environment with each of the bindings bound in turn.
    pub fn extend(self, bindings: Vec<Binding>) -> (r: Self)
        ensures
            r@ == self@.extend(bindings_view(bindings@)),
            r@.well_formed(),
    {
        let mut env = self;
        let mut bindings = bindings;
        let ghost all = bindings_view(bindings@);
        proof {
            use_type_invariant(&env);
            env.lemma_well_formed();
        }
        while bindings.len() > 0
            invariant
                self@.extend(all) == env@.extend(bindings_view(bindings@)),
                env@.well_formed(),
            decreases bindings.len(),
        {
            let ghost before = bindings_view(bindings@);
            let binding = bindings.remove(0);
            proof {
                assert(bindings_view(bindings@) =~= before.drop_first());
                assert(before[0] == (binding.0@, (binding.1.0@, binding.1.1, binding.1.2)));
            }
            env.put(binding.0, binding.1);
        }
        env
    }

    /// Binds the name to the value, as one that may be reassigned.
    pub fn insert_new_mutable_value(&mut self, key: String, value: Value)
        ensures
            final(self)@ == old(self)@.bind(
                key@,
                (value@, AssignmentType::Initialized, Mutability::Mutable),
            ),
            final(self)@.well_formed(),
            old(self)@.reassigned_are_mutable() ==> final(self)@.reassigned_are_mutable(),
    {
        self.put(key, (value, AssignmentType::Initialized, Mutability::Mutable));
    }

    /// Binds the name to the value, as one that may not be reassigned.
    pub fn insert_new_constant_value(&mut self, key: String, value: Value)
        ensures
            final(self)@ == old(self)@.bind(
                key@,
                (value@, AssignmentType::Initialized, Mutability::Constant),
            ),
            final(self)@.well_formed(),
            old(self)@.reassigned_are_mutable() ==> final(self)@.reassigned_are_mutable(),
    {
        self.put(key, (value, AssignmentType::Initialized, Mutability::Constant));
    }

    /// Assigns the value to the name, which must be bound and mutable, and
    /// marks the binding as reassigned. A failure leaves the environment as
    /// it was.
    pub fn reassign(&mut self, key: String, value: Value) -> (r: Result<(), RuntimeError>)
        ensures
            match r {
                Ok(_) => old(self)@.reassign(key@, value@) == Ok::<_, RuntimeErrorView>(
                    final(self)@,
                ),
                Err(e) => old(self)@.reassign(key@, value@) == Err::<EnvironmentView, _>(e@)
                    && final(self)@ == old(self)@,
            },
            final(self)@.well_formed(),
            old(self)@.reassigned_are_mutable() ==> final(self)@.reassigned_are_mutable(),
    {
        let i = self.find_binding(&key);
        if i < self.values.len() {
            match self.values[i].1.2 {
                Mutability::Mutable => {
                    self.put(key, (value, AssignmentType::Reassigned, Mutability::Mutable));
                    Ok(())
                },
                Mutability::Constant => Err(RuntimeError::ReassignConstant(key)),
            }
        } else {
            match self.find_procedure(&key) {
                Some(_) => Err(RuntimeError::ReassignTopLevelProc(key)),
                None => Err(RuntimeError::UnknownVariable(key)),
            }
        }
    }

    /// The bindings, in the order in which their names were first bound. No
    /// two have the same name.
    pub fn bindings(&self) -> (r: Vec<Binding>)
        ensures
            bindings_view(r@) == self@.values,
            self@.well_formed(),
    {
        proof {
            use_type_invariant(self);
            self.lemma_well_formed();
        }
        duplicate_bindings(&self.values)
    }

    /// Whether the name is bound to a value.
    pub fn contains_key(&self, key: &String) -> (r: bool)
        ensures
            r == self@.binds(key@),
            self@.well_formed(),
    {
        self.find_binding(key) < self.values.len()
    }

    /// Merges back the bindings of a scope that was made from this one: each
    /// binding of the other environment that is marked as reassigned and
    /// whose name is bound here is assigned here, in the order of the other
    /// environment's bindings. The first that cannot be assigned here ends
    /// the merge with its failure, and the environment is then as it was
    /// before the merge.
    pub fn update_reassigned_entries(&mut self, other_env: &Self) -> (r: Result<(), RuntimeError>)
        ensures
            match r {
                Ok(_) => old(self)@.merge(other_env@.values) == Ok::<_, RuntimeErrorView>(
                    final(self)@,
                ),
                Err(e) => old(self)@.merge(other_env@.values) == Err::<EnvironmentView, _>(e@)
                    && final(self)@ == old(self)@,
            },
            final(self)@.well_formed(),
            other_env@.well_formed(),
            old(self)@.reassigned_are_mutable() ==> final(self)@.reassigned_are_mutable(),
            old(self)@.can_take(other_env@.values) ==> r is Ok && final(self)@.procedures == old(
                self,
            )@.procedures && final(self)@.values == merged_values(
                old(self)@.values,
                other_env@.values,
            ),
    {
        let ghost all = other_env@.values;
        let mut merged = self.duplicate();
        let mut i: usize = 0;
        proof {
            use_type_invariant(&*self);
            self.lemma_well_formed();
            use_type_invariant(other_env);
            other_env.lemma_well_formed();
            assert(all.subrange(0, all.len() as int) =~= all);
            if self@.can_take(all) {
                merge_by_name(self@, all);
            }
        }
        while i < other_env.values.len()
            invariant
                i <= other_env.values@.len(),
                all == other_env@.values,
                all.len() == other_env.values@.len(),
                self@ == old(self)@,
                self@.well_formed(),
                other_env@.well_formed(),
                old(self)@.can_take(all) ==> old(self)@.merge(all) == Ok::<_, RuntimeErrorView>(
                    EnvironmentView {
                        procedures: old(self)@.procedures,
                        values: merged_values(old(self)@.values, all),
                    },
                ),
                merged@.well_formed(),
                old(self)@.reassigned_are_mutable() ==> merged@.reassigned_are_mutable(),
                old(self)@.merge(all) == merged@.merge(all.subrange(i as int, all.len() as int)),
            decreases other_env.values@.len() - i,
        {
            let binding = &other_env.values[i];
            proof {
                let rest = all.subrange(i as int, all.len() as int);
                assert(rest.drop_first() =~= all.subrange(i + 1, all.len() as int));
                assert(rest[0] == (binding.0@, (binding.1.0@, binding.1.1, binding.1.2)));
            }
            if merged.contains_key(&binding.0) && binding.1.1 == AssignmentType::Reassigned {
                match merged.reassign(binding.0.clone(), binding.1.0.duplicate()) {
                    Ok(_) => {},
                    Err(e) => {
                        return Err(e);
                    },
                }
            }
            i += 1;
        }
        *self = merged;
        Ok(())
    }
}

/// Whether no two bindings have the same name.
pub open spec fn distinct_names(bindings: Seq<BindingView>) -> bool {
    forall|i: int, j: int|
        0 <= i < j < bindings.len() ==> (#[trigger] bindings[i]).0 != (#[trigger] bindings[j]).0
}

/// What `binding_index` finds: no binding before it has the name, and the
/// binding at it has, where there is one.
proof fn lemma_binding_found(bindings: Seq<BindingView>, name: Seq<char>)
    ensures
        0 <= binding_index(bindings, name) <= bindings.len(),
        forall|j: int| 0 <= j < binding_index(bindings, name) ==> (#[trigger] bindings[j]).0 != name,
        binding_index(bindings, name) < bindings.len() ==> bindings[binding_index(
            bindings,
            name,
        )].0 == name,
    decreases bindings.len(),
{
    if bindings.len() == 0 || bindings[0].0 == name {
    } else {
        let t = bindings.drop_first();
        lemma_binding_found(t, name);
        assert forall|j: int| 0 <= j < binding_index(bindings, name) implies (
        #[trigger] bindings[j]).0 != name by {
            if j > 0 {
                assert(bindings[j] == t[j - 1]);
            }
        }
    }
}

impl EnvironmentView {
    /// Whether no two bindings have the same name. It holds of what every
    /// environment holds.
    pub open spec fn well_formed(self) -> bool {
        distinct_names(self.values)
    }

    /// Whether every binding that is marked as reassigned is mutable. It
    /// holds of an environment in which nothing was bound but by a `let`, a
    /// `const`, an assignment or a call.
    pub open spec fn reassigned_are_mutable(self) -> bool {
        forall|j: int|
            0 <= j < self.values.len() && (#[trigger] self.values[j]).1.1
                == AssignmentType::Reassigned ==> self.values[j].1.2 == Mutability::Mutable
    }
}

/// After a name is bound it is bound to what it was bound to; every other
/// name is bound as before.
pub proof fn bind_binds(env: EnvironmentView, name: Seq<char>, entry: EntryView, other: Seq<char>)
    ensures
        env.bind(name, entry).binds(name),
        env.bind(name, entry).entry(name) == entry,
        env.bind(name, entry).procedures == env.procedures,
        other != name ==> env.bind(name, entry).binds(other) == env.binds(other),
        other != name && env.binds(other) ==> env.bind(name, entry).entry(other) == env.entry(
            other,
        ),
        other != name ==> env.bind(name, entry).lookup(other) == env.lookup(other),
{
    let i = binding_index(env.values, name);
    let after = env.bind(name, entry).values;
    lemma_binding_found(env.values, name);
    lemma_binding_index(after, name, i);
    if other != name {
        let k = binding_index(env.values, other);
        lemma_binding_found(env.values, other);
        if k < env.values.len() {
            lemma_binding_index(after, other, k);
        } else {
            lemma_binding_index(after, other, after.len() as int);
        }
    }
}

/// Binding keeps the names distinct. It keeps every reassigned binding
/// mutable where the new binding is not marked as reassigned or is mutable.
pub proof fn bind_keeps_well_formed(env: EnvironmentView, name: Seq<char>, entry: EntryView)
    requires
        env.well_formed(),
    ensures
        env.bind(name, entry).well_formed(),
        env.reassigned_are_mutable() && (entry.1 == AssignmentType::Reassigned ==> entry.2
            == Mutability::Mutable) ==> env.bind(name, entry).reassigned_are_mutable(),
{
    lemma_binding_found(env.values, name);
}

/// Constant immutability: a name that was bound as a constant cannot be
/// assigned to; the failure names it.
pub proof fn constants_cannot_be_reassigned(
    env: EnvironmentView,
    name: Seq<char>,
    value: ValueView,
    other: ValueView,
)
    ensures
        env.bind(name, (value, AssignmentType::Initialized, Mutability::Constant)).reassign(
            name,
            other,
        ) == Err::<EnvironmentView, _>(RuntimeErrorView::ReassignConstant(name)),
{
    bind_binds(env, name, (value, AssignmentType::Initialized, Mutability::Constant), name);
}

/// A name that was bound as mutable can be assigned to, and has the
/// assigned value afterwards.
pub proof fn variables_can_be_reassigned(
    env: EnvironmentView,
    name: Seq<char>,
    value: ValueView,
    other: ValueView,
)
    ensures
        env.bind(name, (value, AssignmentType::Initialized, Mutability::Mutable)).reassign(
            name,
            other,
        ) matches Ok(next) && next.lookup(name) == Ok::<ValueView, RuntimeErrorView>(other),
{
    let bound = env.bind(name, (value, AssignmentType::Initialized, Mutability::Mutable));
    bind_binds(env, name, (value, AssignmentType::Initialized, Mutability::Mutable), name);
    bind_binds(bound, name, (other, AssignmentType::Reassigned, Mutability::Mutable), name);
}

/// An assignment to one name leaves the value of every other name as it
/// was. So a procedure value that one name holds, with the environment it
/// captured, does not follow a later assignment to another name.
pub proof fn reassign_leaves_the_others(
    env: EnvironmentView,
    name: Seq<char>,
    value: ValueView,
    other: Seq<char>,
)
    requires
        other != name,
    ensures
        env.reassign(name, value) matches Ok(next) ==> next.lookup(other) == env.lookup(other),
{
    bind_binds(env, name, (value, AssignmentType::Reassigned, Mutability::Mutable), other);
}

/// The index of a name among bindings without a repeated name is the index
/// of the binding that has it.
proof fn lemma_index_of_unique(bindings: Seq<BindingView>, j: int)
    requires
        0 <= j < bindings.len(),
        forall|a: int, b: int|
            0 <= a < b < bindings.len() ==> (#[trigger] bindings[a]).0 != (#[trigger] bindings[b]).0,
    ensures
        binding_index(bindings, bindings[j].0) == j,
{
    lemma_binding_index(bindings, bindings[j].0, j);
}

/// The merge of the bindings of a scope from index `k` on into an
/// environment whose bindings have the names of the first bindings of the
/// scope, in their order. It gives `target`, where `target` has, for each
/// binding of the scope from `k` on that is marked as reassigned, that
/// binding as a reassigned mutable one, and else the binding of the
/// environment.
proof fn lemma_merge(env: EnvironmentView, child: Seq<BindingView>, k: int, target: Seq<BindingView>)
    requires
        0 <= k <= child.len(),
        env.values.len() <= child.len(),
        target.len() == env.values.len(),
        forall|a: int, b: int|
            0 <= a < b < child.len() ==> (#[trigger] child[a]).0 != (#[trigger] child[b]).0,
        forall|j: int| 0 <= j < env.values.len() ==> (#[trigger] env.values[j]).0 == child[j].0,
        forall|j: int| 0 <= j < k && j < env.values.len() ==> #[trigger] target[j] == env.values[j],
        forall|j: int|
            k <= j < env.values.len() ==> #[trigger] target[j] == if child[j].1.1
                == AssignmentType::Reassigned {
                (child[j].0, (child[j].1.0, AssignmentType::Reassigned, Mutability::Mutable))
            } else {
                env.values[j]
            },
        forall|j: int|
            k <= j < env.values.len() && (#[trigger] child[j]).1.1 == AssignmentType::Reassigned
                ==> env.values[j].1.2 == Mutability::Mutable,
    ensures
        env.merge(child.subrange(k, child.len() as int)) == Ok::<_, RuntimeErrorView>(
            EnvironmentView { procedures: env.procedures, values: target },
        ),
    decreases child.len() - k,
{
    let rest = child.subrange(k, child.len() as int);
    if k == child.len() {
        assert(target =~= env.values);
    } else {
        let binding = child[k];
        assert(rest[0] == binding);
        assert(rest.drop_first() =~= child.subrange(k + 1, child.len() as int));
        if k < env.values.len() {
            assert(env.values[k].0 == binding.0);
            assert forall|a: int, b: int| 0 <= a < b < env.values.len() implies (
            #[trigger] env.values[a]).0 != (#[trigger] env.values[b]).0 by {
                assert(child[a].0 != child[b].0);
            }
            lemma_index_of_unique(env.values, k);
            if binding.1.1 == AssignmentType::Reassigned {
                let next = env.bind(
                    binding.0,
                    (binding.1.0, AssignmentType::Reassigned, Mutability::Mutable),
                );
                assert(env.reassign(binding.0, binding.1.0) == Ok::<_, RuntimeErrorView>(next));
                assert(next.values == env.values.update(k, target[k]));
                lemma_merge(next, child, k + 1, target);
            } else {
                lemma_merge(env, child, k + 1, target);
            }
        } else {
            assert forall|j: int| 0 <= j < env.values.len() implies (#[trigger] env.values[j]).0
                != binding.0 by {
                assert(child[j].0 != child[k].0);
            }
            lemma_binding_index(env.values, binding.0, env.values.len() as int);
            lemma_merge(env, child, k + 1, target);
        }
    }
}

/// Scoping, first half: what a scope assigned to a name of the environment
/// it was made from is written back. Where a scope starts as a copy of a
/// well-formed environment and assigns to one of its names, the merge of
/// the scope gives the environment with that assignment made.
pub proof fn merge_writes_back_an_assignment(
    env: EnvironmentView,
    name: Seq<char>,
    value: ValueView,
)
    requires
        env.well_formed(),
        env.reassigned_are_mutable(),
        env.reassign(name, value) is Ok,
    ensures
        env.merge(env.reassign(name, value)->Ok_0.values) == env.reassign(name, value),
{
    let scope = env.reassign(name, value)->Ok_0;
    lemma_binding_found(env.values, name);
    lemma_merge(env, scope.values, 0, scope.values);
    assert(scope.values.subrange(0, scope.values.len() as int) =~= scope.values);
}

/// Scoping, second half: what a scope binds anew does not escape it. Where
/// a scope starts as a copy of a well-formed environment and binds a name,
/// be it new or one of the environment, the merge of the scope gives the
/// environment as it was.
pub proof fn merge_drops_a_new_binding(
    env: EnvironmentView,
    name: Seq<char>,
    value: ValueView,
    mutability: Mutability,
)
    requires
        env.well_formed(),
        env.reassigned_are_mutable(),
    ensures
        env.merge(env.bind(name, (value, AssignmentType::Initialized, mutability)).values) == Ok::<
            _,
            RuntimeErrorView,
        >(env),
{
    let scope = env.bind(name, (value, AssignmentType::Initialized, mutability));
    lemma_binding_found(env.values, name);
    bind_keeps_well_formed(env, name, (value, AssignmentType::Initialized, mutability));
    lemma_merge(env, scope.values, 0, env.values);
    assert(scope.values.subrange(0, scope.values.len() as int) =~= scope.values);
}

/// A merge binds no new name: the environment has the same procedures and
/// the same names, in the same order, as before.
pub proof fn merge_keeps_the_names(env: EnvironmentView, child: Seq<BindingView>)
    ensures
        env.merge(child) matches Ok(merged) ==> {
            &&& merged.procedures == env.procedures
            &&& merged.values.len() == env.values.len()
            &&& forall|j: int|
                0 <= j < env.values.len() ==> (#[trigger] merged.values[j]).0 == env.values[j].0
        },
    decreases child.len(),
{
    if child.len() > 0 {
        let binding = child[0];
        if env.binds(binding.0) && binding.1.1 == AssignmentType::Reassigned {
            lemma_binding_found(env.values, binding.0);
            match env.reassign(binding.0, binding.1.0) {
                Ok(next) => {
                    merge_keeps_the_names(next, child.drop_first());
                },
                Err(_) => {},
            }
        } else {
            merge_keeps_the_names(env, child.drop_first());
        }
    }
}

/// A binding of an environment after the merge of the bindings of a scope:
/// where the scope binds the name and marks it as reassigned, the name is
/// bound to the value that it has in the scope, as reassigned and mutable;
/// else the binding is as it was.
pub open spec fn merged_binding(binding: BindingView, child: Seq<BindingView>) -> BindingView {
    let j = binding_index(child, binding.0);
    if j < child.len() && child[j].1.1 == AssignmentType::Reassigned {
        (binding.0, (child[j].1.0, AssignmentType::Reassigned, Mutability::Mutable))
    } else {
        binding
    }
}

/// The bindings of an environment after the merge of the bindings of a
/// scope.
pub open spec fn merged_values(values: Seq<BindingView>, child: Seq<BindingView>) -> Seq<
    BindingView,
> {
    Seq::new(values.len(), |i: int| merged_binding(values[i], child))
}

impl EnvironmentView {
    /// Whether every name that the scope marks as reassigned and that is
    /// bound here is mutable here.
    pub open spec fn can_take(self, child: Seq<BindingView>) -> bool {
        forall|j: int|
            0 <= j < child.len() && (#[trigger] child[j]).1.1 == AssignmentType::Reassigned
                && self.binds(child[j].0) ==> self.entry(child[j].0).2 == Mutability::Mutable
    }
}

/// In bindings without a repeated name, a name that the first binding has
/// is the name of no other, and the index of every other name is one more
/// than among the others.
proof fn lemma_index_after_first(child: Seq<BindingView>, name: Seq<char>)
    requires
        child.len() > 0,
        distinct_names(child),
    ensures
        distinct_names(child.drop_first()),
        name == child[0].0 ==> binding_index(child, name) == 0 && binding_index(
            child.drop_first(),
            name,
        ) == child.len() - 1,
        name != child[0].0 ==> binding_index(child, name) == 1 + binding_index(
            child.drop_first(),
            name,
        ),
{
    let rest = child.drop_first();
    assert forall|a: int, b: int| 0 <= a < b < rest.len() implies (#[trigger] rest[a]).0 != (
    #[trigger] rest[b]).0 by {
        assert(rest[a] == child[a + 1]);
        assert(rest[b] == child[b + 1]);
    }
    if name == child[0].0 {
        assert forall|j: int| 0 <= j < rest.len() implies rest[j].0 != name by {
            assert(rest[j] == child[j + 1]);
        }
        lemma_binding_index(rest, name, rest.len() as int);
    }
}

/// Scoping, by name: the merge of the bindings of a scope into an
/// environment succeeds where every name that the scope marks as reassigned
/// and that is bound in the environment is mutable there. The environment
/// then binds the names that it bound before, in their order: each name
/// that the scope marks as reassigned to the value that it has in the
/// scope, as reassigned, and each other name as before. What the scope
/// binds and the environment does not is dropped.
pub proof fn merge_by_name(env: EnvironmentView, child: Seq<BindingView>)
    requires
        env.well_formed(),
        distinct_names(child),
        env.can_take(child),
    ensures
        env.merge(child) == Ok::<_, RuntimeErrorView>(
            EnvironmentView {
                procedures: env.procedures,
                values: merged_values(env.values, child),
            },
        ),
    decreases child.len(),
{
    if child.len() == 0 {
        assert(merged_values(env.values, child) =~= env.values);
    } else {
        let first = child[0];
        let rest = child.drop_first();
        lemma_index_after_first(child, first.0);
        lemma_binding_found(env.values, first.0);
        assert forall|j: int| 0 <= j < rest.len() implies #[trigger] rest[j] == child[j + 1] by {}
        if env.binds(first.0) && first.1.1 == AssignmentType::Reassigned {
            let k = binding_index(env.values, first.0);
            let entry = (first.1.0, AssignmentType::Reassigned, Mutability::Mutable);
            let next = env.bind(first.0, entry);
            assert(env.reassign(first.0, first.1.0) == Ok::<_, RuntimeErrorView>(next));
            bind_keeps_well_formed(env, first.0, entry);
            assert forall|j: int|
                0 <= j < rest.len() && (#[trigger] rest[j]).1.1 == AssignmentType::Reassigned
                    && next.binds(rest[j].0) implies next.entry(rest[j].0).2
                == Mutability::Mutable by {
                assert(rest[j] == child[j + 1]);
                assert(child[j + 1].0 != child[0].0);
                bind_binds(env, first.0, entry, rest[j].0);
            }
            merge_by_name(next, rest);
            assert forall|i: int| 0 <= i < env.values.len() implies merged_binding(
                next.values[i],
                rest,
            ) == merged_binding(env.values[i], child) by {
                let j = binding_index(rest, env.values[i].0);
                lemma_index_after_first(child, env.values[i].0);
                lemma_binding_found(rest, env.values[i].0);
                if j < rest.len() {
                    assert(rest[j] == child[j + 1]);
                }
                if i != k {
                    assert(env.values[i].0 != env.values[k].0);
                }
            }
            assert(merged_values(next.values, rest) =~= merged_values(env.values, child));
        } else {
            assert forall|j: int|
                0 <= j < rest.len() && (#[trigger] rest[j]).1.1 == AssignmentType::Reassigned
                    && env.binds(rest[j].0) implies env.entry(rest[j].0).2
                == Mutability::Mutable by {
                assert(rest[j] == child[j + 1]);
            }
            merge_by_name(env, rest);
            assert forall|i: int| 0 <= i < env.values.len() implies merged_binding(
                env.values[i],
                rest,
            ) == merged_binding(env.values[i], child) by {
                let j = binding_index(rest, env.values[i].0);
                lemma_index_after_first(child, env.values[i].0);
                lemma_binding_found(rest, env.values[i].0);
                if j < rest.len() {
                    assert(rest[j] == child[j + 1]);
                }
                if env.values[i].0 == first.0 {
                    lemma_binding_index(env.values, first.0, i);
                }
            }
            assert(merged_values(env.values, rest) =~= merged_values(env.values, child));
        }
    }
}

/// A merge fails only on a constant: where it fails, it names a name that
/// the scope marks as reassigned and that the environment binds as a
/// constant.
pub proof fn merge_fails_on_a_constant(env: EnvironmentView, child: Seq<BindingView>)
    requires
        env.well_formed(),
    ensures
        env.merge(child) matches Err(e) ==> e matches RuntimeErrorView::ReassignConstant(name)
            && env.binds(name) && env.entry(name).2 == Mutability::Constant && exists|j: int|
            0 <= j < child.len() && (#[trigger] child[j]).0 == name && child[j].1.1
                == AssignmentType::Reassigned,
    decreases child.len(),
{
    if child.len() > 0 {
        let first = child[0];
        let rest = child.drop_first();
        assert forall|j: int| 0 <= j < rest.len() implies #[trigger] rest[j] == child[j + 1] by {}
        if env.binds(first.0) && first.1.1 == AssignmentType::Reassigned {
            match env.reassign(first.0, first.1.0) {
                Ok(next) => {
                    let entry = (first.1.0, AssignmentType::Reassigned, Mutability::Mutable);
                    bind_keeps_well_formed(env, first.0, entry);
                    merge_fails_on_a_constant(next, rest);
                    match next.merge(rest) {
                        Err(RuntimeErrorView::ReassignConstant(name)) => {
                            bind_binds(env, first.0, entry, name);
                            let j = choose|j: int|
                                0 <= j < rest.len() && (#[trigger] rest[j]).0 == name && rest[j].1.1
                                    == AssignmentType::Reassigned;
                            assert(child[j + 1].0 == name);
                        },
                        _ => {},
                    }
                },
                Err(_) => {
                    assert(child[0].0 == first.0);
                },
            }
        } else {
            merge_fails_on_a_constant(env, rest);
            match env.merge(rest) {
                Err(RuntimeErrorView::ReassignConstant(name)) => {
                    let j = choose|j: int|
                        0 <= j < rest.len() && (#[trigger] rest[j]).0 == name && rest[j].1.1
                            == AssignmentType::Reassigned;
                    assert(child[j + 1].0 == name);
                },
                _ => {},
            }
        }
    }
}

} // verus!
