//! The global scope collaborator: a name-to-literal table the parser
//! notifies of every `let` declaration. It is an observability hook only;
//! the evaluator never reads it.

use vstd::prelude::*;

verus! {

/// One recorded declaration: a name and the literal recorded for it.
#[derive(Debug)]
pub struct Variable {
    pub name: String,
    pub value: String,
}

impl Variable {
    pub fn new(name: String, value: String) -> (r: Variable)
        ensures
            r.name == name,
            r.value == value,
    {
        Variable { name, value }
    }
}

/// What became of an `add_global_variable` call.
#[derive(Debug, Clone, Copy, PartialEq, Eq, Structural)]
pub enum Status {
    Saved,
    Duplicate,
}

/// Whether some variable in `vars` has the name `name`.
pub open spec fn contains_name(vars: Seq<Variable>, name: Seq<char>) -> bool {
    exists|i: int| 0 <= i < vars.len() && (#[trigger] vars[i]).name@ == name
}

/// The scope: declared names in declaration order, each with the literal
/// recorded for it. Names are never recorded twice.
pub struct GlobalScope {
    variables: Vec<Variable>,
}

impl GlobalScope {
    /// The recorded declarations, in order.
    pub closed spec fn vars(&self) -> Seq<Variable> {
        self.variables@
    }

    /// Names are pairwise distinct.
    pub open spec fn wf(&self) -> bool {
        forall|i: int, j: int|
            0 <= i < j < self.vars().len() ==> (#[trigger] self.vars()[i]).name@ != (
            #[trigger] self.vars()[j]).name@
    }

    /// An empty scope.
    pub fn new() -> (r: GlobalScope)
        ensures
            r.vars() == Seq::<Variable>::empty(),
            r.wf(),
    {
        GlobalScope { variables: Vec::new() }
    }

    /// The position of the variable named `name`, if one was recorded.
    fn find_index(&self, name: &String) -> (r: Option<usize>)
        ensures
            match r {
                Some(i) => 0 <= i < self.vars().len() && self.vars()[i as int].name@ == name@,
                None => !contains_name(self.vars(), name@),
            },
    {
        let n: usize = self.variables.len();
        let mut i: usize = 0;
        while i < n
            invariant
                0 <= i <= n,
                n == self.vars().len(),
                forall|j: int| 0 <= j < i ==> (#[trigger] self.vars()[j]).name@ != name@,
            decreases n - i,
        {
            if self.variables[i].name == *name {
                return Some(i);
            }
            i = i + 1;
        }
        None
    }

    /// Records a declaration. A name already recorded is refused with
    /// `Duplicate` and the scope is left unchanged; otherwise the pair is
    /// appended and the call answers `Saved`.
    pub fn add_global_variable(&mut self, variable_name: String, variable_value: String) -> (r:
        Status)
        requires
            old(self).wf(),
        ensures
            final(self).wf(),
            contains_name(old(self).vars(), variable_name@) ==> r == Status::Duplicate
                && final(self).vars() == old(self).vars(),
            !contains_name(old(self).vars(), variable_name@) ==> r == Status::Saved
                && final(self).vars() == old(self).vars().push(
                Variable { name: variable_name, value: variable_value },
            ),
    {
        let existing = self.find_index(&variable_name);
        if existing.is_some() {
            proof {
                let i = existing->Some_0;
                assert(contains_name(self.vars(), variable_name@));
            }
            Status::Duplicate
        } else {
            let ghost olds = self.vars();
            self.variables.push(Variable::new(variable_name, variable_value));
            proof {
                assert forall|i: int, j: int| 0 <= i < j < self.vars().len() implies (
                #[trigger] self.vars()[i]).name@ != (#[trigger] self.vars()[j]).name@ by {
                    if j < olds.len() {
                        assert(self.vars()[i] == olds[i] && self.vars()[j] == olds[j]);
                    } else {
                        assert(self.vars()[i] == olds[i]);
                        assert(!contains_name(olds, self.vars()[j].name@));
                    }
                }
            }
            Status::Saved
        }
    }

    /// Looks a name up; yields a copy of the recorded pair, if any.
    pub fn get_global_variable(&self, variable_name: String) -> (r: Option<Variable>)
        ensures
            contains_name(self.vars(), variable_name@) ==> (r matches Some(v) && (exists|i: int|
                0 <= i < self.vars().len() && v == #[trigger] self.vars()[i] && v.name@
                    == variable_name@)),
            !contains_name(self.vars(), variable_name@) ==> r is None,
    {
        let found = self.find_index(&variable_name);
        match found {
            Some(i) => {
                let v = Variable::new(
                    self.variables[i].name.clone(),
                    self.variables[i].value.clone(),
                );
                proof {
                    assert(v == self.vars()[i as int]);
                    assert(contains_name(self.vars(), variable_name@));
                }
                Some(v)
            },
            None => None,
        }
    }

    /// A copy of all recorded declarations, in order; an empty scope yields
    /// nothing.
    pub fn get_all_global_variables(&self) -> (r: Option<Vec<Variable>>)
        ensures
            self.vars().len() == 0 ==> r is None,
            self.vars().len() > 0 ==> (r matches Some(v) && v@ == self.vars()),
    {
        let n: usize = self.variables.len();
        if n == 0 {
            return None;
        }
        let mut out: Vec<Variable> = Vec::new();
        let mut i: usize = 0;
        while i < n
            invariant
                0 <= i <= n,
                n == self.vars().len(),
                out@.len() == i,
                forall|j: int| 0 <= j < i ==> #[trigger] out@[j] == self.vars()[j],
            decreases n - i,
        {
            out.push(
                Variable::new(self.variables[i].name.clone(), self.variables[i].value.clone()),
            );
            i = i + 1;
        }
        proof {
            assert(out@ =~= self.vars());
        }
        Some(out)
    }
}

} // verus!
