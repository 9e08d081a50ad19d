use vstd::prelude::*;
use crate::value::{has_key, FilterError, Value};

verus! {

/// The evaluation state a filter may touch: variable bindings, and the
/// diagnostic records that an embedding program writes out.
#[derive(Debug)]
pub struct Context {
    pub vars: Vec<(String, Value)>,
    pub diagnostics: Vec<(Value, String)>,
}

impl Context {
    /// A context with no bindings and no diagnostics.
    pub fn new() -> (r: Context)
        ensures
            r.vars@.len() == 0,
            r.diagnostics@.len() == 0,
    {
        Context { vars: Vec::new(), diagnostics: Vec::new() }
    }

    /// Binds `name` to `value`. A name is bound at most once: binding it again
    /// fails and leaves the context as it was.
    pub fn set_var(&mut self, name: String, value: Value) -> (r: Result<(), FilterError>)
        ensures
            has_key(old(self).vars@, name@) ==> r == Err::<(), FilterError>(
                FilterError::ContextBindingFailure(name),
            ) && *final(self) == *old(self),
            !has_key(old(self).vars@, name@) ==> r is Ok && final(self).vars@ == old(
                self,
            ).vars@.push((name, value)) && final(self).diagnostics == old(self).diagnostics,
    {
        let mut i: usize = 0;
        while i < self.vars.len()
            invariant
                i <= self.vars@.len(),
                forall|j: int| 0 <= j < i ==> (#[trigger] self.vars@[j]).0@ != name@,
            decreases self.vars@.len() - i,
        {
            if self.vars[i].0 == name {
                return Err(FilterError::ContextBindingFailure(name));
            }
            i = i + 1;
        }
        self.vars.push((name, value));
        Ok(())
    }
}

} // verus!
