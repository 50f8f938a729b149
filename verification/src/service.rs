use crate::context::{ContextModel, ServiceContext};
use vstd::prelude::*;

verus! {

/// One unit of work of a pipeline: it takes an input and the shared store,
/// and gives an output or a stage-local error.
pub trait BasicService: Send + Sync {
    type Input: Send + Sync;

    type Output: Send + Sync;

    type Error: Send + Sync;

    /// The outcomes that a call may have: `result` and the store `after`,
    /// for `input` and the store `before`.
    ///
    /// An implementation that leaves this as it is admits every outcome,
    /// and so promises nothing.
    open spec fn call_spec(
        &self,
        input: Self::Input,
        before: ContextModel,
        result: Result<Self::Output, Self::Error>,
        after: ContextModel,
    ) -> bool {
        true
    }

    /// Runs the service once. It may read and write `context`, and it
    /// reports failure through its error; it does not retry.
    fn call(&self, input: Self::Input, context: &mut ServiceContext) -> (result: Result<
        Self::Output,
        Self::Error,
    >)
        ensures
            self.call_spec(input, old(context)@, result, final(context)@),
    ;
}

} // verus!
