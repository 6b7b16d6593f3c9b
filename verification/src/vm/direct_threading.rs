//! The direct-threaded executor under its own name.
//!
//! It encodes the program with the same jump table and runs the same handlers
//! as [`NVM::run`]; the two share one implementation.
use vstd::prelude::*;

use crate::vm::err::VMError;
use crate::vm::executer::{first_encode_error, run_in_bounds};
use crate::vm::semantics::{float_free, outcome, run_from, STEP_LIMIT};
use crate::vm::{always_answers, answered_by, FloatQuery, NVM};

verus! {

impl NVM {
    /// Runs the program with the direct-threaded executor, asking `fpu` the
    /// floating-point questions; see [`NVM::run`].
    pub fn direct_threading_execute<F: Fn(FloatQuery) -> u64>(&mut self, fpu: &F) -> (r: Result<
        (),
        VMError,
    >)
        requires
            first_encode_error(old(self).program@) is None ==> forall|answers: Seq<(FloatQuery, u64)>|
                #[trigger] run_in_bounds(
                    old(self).program@,
                    old(self).state(),
                    0,
                    STEP_LIMIT as nat,
                    answers,
                ),
            always_answers(*fpu),
        ensures
            final(self).program@ == old(self).program@,
            match first_encode_error(old(self).program@) {
                Some(e) => r == Err::<(), VMError>(VMError { kind: e }) && final(self).state()
                    == old(self).state(),
                None => exists|answers: Seq<(FloatQuery, u64)>|
                    answered_by(*fpu, answers) && run_from(
                        old(self).program@,
                        old(self).state(),
                        0,
                        STEP_LIMIT as nat,
                        answers,
                    ) == Some((final(self).state(), outcome(r))),
            },
            first_encode_error(old(self).program@) is None && float_free(old(self).program@)
                ==> run_from(
                old(self).program@,
                old(self).state(),
                0,
                STEP_LIMIT as nat,
                Seq::empty(),
            ) == Some((final(self).state(), outcome(r))),
    {
        self.run(fpu)
    }
}

} // verus!
