use crate::context::{ContextModel, ServiceContext};
use crate::service::BasicService;
use vstd::prelude::*;

verus! {

/// `converted` is what the conversion of `error` into `E2` may return.
pub open spec fn converts<E1, E2: From<E1>>(error: E1, converted: E2) -> bool {
    call_ensures(E2::from, (error,), converted)
}

/// `From<T> for T` of std, the conversion of a type into itself: it returns
/// its argument unchanged.
pub assume_specification<Same>[ <Same as std::convert::From<Same>>::from ](value: Same) -> (same:
    Same)
    ensures
        same == value,
;

/// What a link of a chain makes of its head's result: a success goes on
/// unchanged, a failure is converted into the error type of the tail.
pub open spec fn handed_over<Y, E1, E2: From<E1>>(head: Result<Y, E1>, step: Result<Y, E2>) -> bool {
    match head {
        Ok(output) => step == Ok::<Y, E2>(output),
        Err(error) => step is Err && converts(error, step->Err_0),
    }
}

/// Decides how a link goes on after its head: `Ok` carries the input of the
/// tail, `Err` the converted error with which the whole chain ends.
pub fn hand_over<Y, E1, E2: From<E1>>(head: Result<Y, E1>) -> (step: Result<Y, E2>)
    ensures
        handed_over(head, step),
{
    match head {
        Ok(output) => Ok(output),
        Err(error) => Err(E2::from(error)),
    }
}

/// A chain of services, run in order on one shared store. A chain is a
/// single service, or a pair of a head and a tail whose input is the
/// head's output and whose error every error of the head converts into.
pub trait ServiceChainExecutor: Send + Sync + 'static {
    type Input;

    type Output;

    type Error: Send + Sync;

    /// The outcomes that a run of the chain may have: `result` and the
    /// store `after`, for `input` and the store `before`.
    ///
    /// An implementation that leaves this as it is admits every outcome,
    /// and so promises nothing.
    open spec fn execute_spec(
        &self,
        input: Self::Input,
        before: ContextModel,
        result: Result<Self::Output, Self::Error>,
        after: ContextModel,
    ) -> bool {
        true
    }

    /// Runs the chain once on `input`.
    fn execute(&self, input: Self::Input, context: &mut ServiceContext) -> (result: Result<
        Self::Output,
        Self::Error,
    >)
        ensures
            self.execute_spec(input, old(context)@, result, final(context)@),
    ;
}

/// How a link goes on from one outcome of its head, the result `head` and
/// the store `between`. After a success the tail runs on the output and on
/// `between`, and its outcome is the link's. After a failure nothing runs:
/// the store stays as it is, and the result is the converted error.
pub open spec fn goes_on<Head, Tail>(
    tail: Tail,
    head: Result<Head::Output, Head::Error>,
    between: ContextModel,
    result: Result<Tail::Output, Tail::Error>,
    after: ContextModel,
) -> bool where
    Head: ServiceChainExecutor,
    Tail: ServiceChainExecutor<Input = Head::Output>,
    Tail::Error: From<Head::Error>,
 {
    match head {
        Ok(output) => tail.execute_spec(output, between, result, after),
        Err(error) => after == between && result is Err && converts(error, result->Err_0),
    }
}

impl<S> ServiceChainExecutor for S where S: BasicService + 'static {
    type Input = S::Input;

    type Output = S::Output;

    type Error = S::Error;

    /// A single stage does what its service does.
    open spec fn execute_spec(
        &self,
        input: Self::Input,
        before: ContextModel,
        result: Result<Self::Output, Self::Error>,
        after: ContextModel,
    ) -> bool {
        self.call_spec(input, before, result, after)
    }

    fn execute(&self, input: Self::Input, context: &mut ServiceContext) -> (result: Result<
        Self::Output,
        Self::Error,
    >) {
        self.call(input, context)
    }
}

impl<Head, Tail> ServiceChainExecutor for (Head, Tail) where
    Head: ServiceChainExecutor,
    Tail: ServiceChainExecutor<Input = Head::Output>,
    Tail::Error: From<Head::Error>,
 {
    type Input = Head::Input;

    type Output = Tail::Output;

    type Error = Tail::Error;

    /// The head runs on the input, and the link goes on from its outcome.
    open spec fn execute_spec(
        &self,
        input: Self::Input,
        before: ContextModel,
        result: Result<Self::Output, Self::Error>,
        after: ContextModel,
    ) -> bool {
        exists|head: Result<Head::Output, Head::Error>, between: ContextModel|
            #[trigger] self.0.execute_spec(input, before, head, between) && goes_on::<Head, Tail>(
                self.1,
                head,
                between,
                result,
                after,
            )
    }

    fn execute(&self, input: Self::Input, context: &mut ServiceContext) -> (result: Result<
        Self::Output,
        Self::Error,
    >) {
        let head = self.0.execute(input, context);
        let ghost head_result = head;
        let ghost between = context@;
        let result = match hand_over::<Head::Output, Head::Error, Tail::Error>(head) {
            Ok(output) => self.1.execute(output, context),
            Err(error) => Err(error),
        };
        assert(self.0.execute_spec(input, old(context)@, head_result, between));
        result
    }
}

} // verus!
