use crate::chain::ServiceChainExecutor;
use crate::context::{ContextModel, ServiceContext};
use vstd::prelude::*;

verus! {

/// A chain bound to the store that all its runs share.
pub struct ServiceProcessor<Chain: ServiceChainExecutor> {
    chain: Chain,
    context: ServiceContext,
}

impl<Chain: ServiceChainExecutor> ServiceProcessor<Chain> {
    /// The chain that the processor runs.
    pub closed spec fn chain(&self) -> Chain {
        self.chain
    }

    /// What the processor's store holds.
    pub closed spec fn context(&self) -> ContextModel {
        self.context@
    }

    /// Binds `chain` to `context`.
    pub fn new(chain: Chain, context: ServiceContext) -> (processor: Self)
        ensures
            processor.chain() == chain,
            processor.context() == context@,
    {
        ServiceProcessor { chain, context }
    }

    /// Runs the chain once on `input`, on the store as the earlier runs
    /// left it. The chain stays as it is.
    pub fn execute(&mut self, input: Chain::Input) -> (result: Result<Chain::Output, Chain::Error>)
        ensures
            final(self).chain() == old(self).chain(),
            old(self).chain().execute_spec(
                input,
                old(self).context(),
                result,
                final(self).context(),
            ),
    {
        self.chain.execute(input, &mut self.context)
    }
}

} // verus!
