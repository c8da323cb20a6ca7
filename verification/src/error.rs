//! What can go wrong when resources are borrowed and systems are run.

use std::error::Error;
use std::fmt::Write;
use vstd::prelude::*;

verus! {

/// An error of the caller's own, carried through without being looked at: a
/// boxed trait object of `std::error::Error`, which is opaque here.
#[verifier::external_body]
#[derive(Debug)]
pub struct UserError {
    inner: Box<dyn Error + Send>,
}

/// `Box::new` and the coercion to a `std::error::Error` trait object:
/// nothing is claimed of the result, which only the caller can read again.
#[verifier::external_body]
fn box_error<E: Error + Send + 'static>(error: E) -> UserError {
    UserError { inner: Box::new(error) }
}

/// `std::fmt::Write` for `String`, with the boxed error's own
/// `std::fmt::Display`: the text that the error writes, whatever that is,
/// cut short where the error's `Display` gives up.
#[verifier::external_body]
fn error_text(error: &UserError) -> String {
    let mut text = String::new();
    let _ = write!(text, "{}", error.inner);
    text
}

impl UserError {
    /// Wraps an error of the caller's own type.
    pub fn new<E: Error + Send + 'static>(error: E) -> UserError {
        box_error(error)
    }

    /// The text with which the error describes itself.
    pub fn message(&self) -> String {
        error_text(self)
    }
}

/// The errors that borrowing a resource, building a dispatcher or running a
/// system can report.
#[derive(Debug)]
pub enum EcsError {
    /// The world holds no resource of the requested type.
    NotInitialized,
    /// The resource is borrowed in a way that excludes the requested borrow.
    AlreadyBorrowed,
    /// A system asks for one resource twice, at least once exclusively, so no
    /// stage can ever hold it.
    SelfConflict,
    /// One or more systems of a stage failed; their errors, in stage order.
    DispatcherExecutionFailed(Vec<EcsError>),
    /// An error that a system's own function reported.
    SystemError(UserError),
}

/// What running a system yields.
pub type SystemResult = Result<(), EcsError>;

/// The errors among `results`, in order.
pub open spec fn failures(results: Seq<SystemResult>) -> Seq<EcsError>
    decreases results.len(),
{
    if results.len() == 0 {
        Seq::empty()
    } else {
        let rest = failures(results.drop_last());
        match results.last() {
            Ok(_) => rest,
            Err(e) => rest.push(e),
        }
    }
}

/// Gathers the errors among the results of one stage, keeping their order.
pub fn collect_failures(results: Vec<SystemResult>) -> (errors: Vec<EcsError>)
    ensures
        errors@ == failures(results@),
{
    let mut errors: Vec<EcsError> = Vec::new();
    let ghost all = results@;
    for result in it: results
        invariant
            it.seq() == all,
            errors@ == failures(all.take(it.index() as int)),
    {
        proof {
            let done = it.index() as int;
            assert(all.take(done + 1).drop_last() == all.take(done));
            assert(all.take(done + 1).last() == result);
        }
        match result {
            Ok(_) => {},
            Err(e) => {
                errors.push(e);
            },
        }
    }
    proof {
        assert(all.take(all.len() as int) == all);
    }
    errors
}

/// Folds the errors of one stage into the stage's own result: success when
/// there is none, otherwise the aggregate that carries them all.
pub fn stage_outcome(errors: Vec<EcsError>) -> (outcome: SystemResult)
    ensures
        errors@.len() == 0 ==> outcome is Ok,
        errors@.len() > 0 ==> outcome == Err::<(), EcsError>(
            EcsError::DispatcherExecutionFailed(errors),
        ),
{
    if errors.len() == 0 {
        Ok(())
    } else {
        Err(EcsError::DispatcherExecutionFailed(errors))
    }
}

} // verus!
