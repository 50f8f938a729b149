use crate::chain::{converts, goes_on, ServiceChainExecutor};
use crate::context::{lookup, ContextModel};
use crate::service::BasicService;
use crate::value::{ContextValue, StoredValue};
use vstd::prelude::*;

verus! {

/// A value that was stored under a key is read back from under that key as
/// the type it was stored as, and as no other type.
pub proof fn lemma_read_after_insert<T: ContextValue, U: ContextValue>(
    before: ContextModel,
    key: Seq<char>,
    value: T,
)
    ensures
        lookup::<T>(before.insert(key, value.stored()), key) == Some(value),
        U::kind() != T::kind() ==> lookup::<U>(before.insert(key, value.stored()), key) is None,
{
    value.held_of_stored();
    T::held_matches_kind(value.stored());
    U::held_matches_kind(value.stored());
}

/// Of two inserts under one key the second replaces the first, value and
/// type: the store is as if the first had never been made.
pub proof fn lemma_last_insert_wins<T: ContextValue, U: ContextValue>(
    before: ContextModel,
    key: Seq<char>,
    first: T,
    second: U,
)
    ensures
        before.insert(key, first.stored()).insert(key, second.stored()) == before.insert(
            key,
            second.stored(),
        ),
        lookup::<U>(before.insert(key, first.stored()).insert(key, second.stored()), key) == Some(
            second,
        ),
        T::kind() != U::kind() ==> lookup::<T>(
            before.insert(key, first.stored()).insert(key, second.stored()),
            key,
        ) is None,
{
    assert(before.insert(key, first.stored()).insert(key, second.stored()) =~= before.insert(
        key,
        second.stored(),
    ));
    lemma_read_after_insert::<U, T>(before, key, second);
}

/// An insert under one key leaves what is read from under every other key
/// as it was.
pub proof fn lemma_other_keys_untouched<T: ContextValue, U: ContextValue>(
    before: ContextModel,
    key: Seq<char>,
    value: T,
    other: Seq<char>,
)
    requires
        other != key,
    ensures
        lookup::<U>(before.insert(key, value.stored()), other) == lookup::<U>(before, other),
{
}

/// The store after `writes`, pairs of a key and a stored value, were made
/// one after the other in the order of the sequence.
pub open spec fn after_writes(
    before: ContextModel,
    writes: Seq<(Seq<char>, StoredValue)>,
) -> ContextModel
    decreases writes.len(),
{
    if writes.len() == 0 {
        before
    } else {
        after_writes(before, writes.drop_last()).insert(writes.last().0, writes.last().1)
    }
}

/// Whether one of `writes` went to `key`.
pub open spec fn written_to(writes: Seq<(Seq<char>, StoredValue)>, key: Seq<char>) -> bool {
    exists|i: int| 0 <= i < writes.len() && (#[trigger] writes[i]).0 == key
}

/// In whatever order writes are made one after the other, a key that any of
/// them went to ends up with the value of one of them, whole, and a key
/// that none of them went to keeps what it had.
pub proof fn lemma_writes_leave_written_values(
    before: ContextModel,
    writes: Seq<(Seq<char>, StoredValue)>,
    key: Seq<char>,
)
    ensures
        written_to(writes, key) ==> {
            &&& after_writes(before, writes).dom().contains(key)
            &&& exists|i: int|
                0 <= i < writes.len() && (#[trigger] writes[i]).0 == key && after_writes(
                    before,
                    writes,
                )[key] == writes[i].1
        },
        !written_to(writes, key) ==> {
            &&& after_writes(before, writes).dom().contains(key) <==> before.dom().contains(key)
            &&& before.dom().contains(key) ==> after_writes(before, writes)[key] == before[key]
        },
    decreases writes.len(),
{
    if writes.len() > 0 {
        let earlier = writes.drop_last();
        let last = writes.len() - 1;
        lemma_writes_leave_written_values(before, earlier, key);
        if writes[last].0 == key {
        } else if written_to(writes, key) {
            let i = choose|i: int| 0 <= i < writes.len() && (#[trigger] writes[i]).0 == key;
            assert(earlier[i].0 == key);
            let chosen = choose|j: int|
                0 <= j < earlier.len() && (#[trigger] earlier[j]).0 == key && after_writes(
                    before,
                    earlier,
                )[key] == earlier[j].1;
            assert(writes[chosen].0 == key);
        } else {
            assert forall|i: int| 0 <= i < earlier.len() implies (#[trigger] earlier[i]).0
                != key by {
                assert(writes[i].0 != key);
            }
        }
    }
}

/// An outcome of the head and what the link makes of it give an outcome of
/// the link.
proof fn lemma_link_from_parts<Head, Tail>(
    chain: (Head, Tail),
    input: Head::Input,
    before: ContextModel,
    head: Result<Head::Output, Head::Error>,
    between: ContextModel,
    result: Result<Tail::Output, Tail::Error>,
    after: ContextModel,
) where
    Head: ServiceChainExecutor,
    Tail: ServiceChainExecutor<Input = Head::Output>,
    Tail::Error: From<Head::Error>,

    requires
        chain.0.execute_spec(input, before, head, between),
        goes_on::<Head, Tail>(chain.1, head, between, result, after),
    ensures
        chain.execute_spec(input, before, result, after),
{
}

/// Every outcome of a link comes from an outcome of its head.
proof fn lemma_link_parts<Head, Tail>(
    chain: (Head, Tail),
    input: Head::Input,
    before: ContextModel,
    result: Result<Tail::Output, Tail::Error>,
    after: ContextModel,
) -> (parts: (Result<Head::Output, Head::Error>, ContextModel)) where
    Head: ServiceChainExecutor,
    Tail: ServiceChainExecutor<Input = Head::Output>,
    Tail::Error: From<Head::Error>,

    requires
        chain.execute_spec(input, before, result, after),
    ensures
        chain.0.execute_spec(input, before, parts.0, parts.1),
        goes_on::<Head, Tail>(chain.1, parts.0, parts.1, result, after),
{
    choose|head: Result<Head::Output, Head::Error>, between: ContextModel|
        #[trigger] chain.0.execute_spec(input, before, head, between) && goes_on::<Head, Tail>(
            chain.1,
            head,
            between,
            result,
            after,
        )
}

/// A chain of one stage does exactly what its service does.
pub proof fn lemma_single_stage<S>(
    service: S,
    input: S::Input,
    before: ContextModel,
    result: Result<S::Output, S::Error>,
    after: ContextModel,
) where S: BasicService + 'static
    ensures
        service.execute_spec(input, before, result, after) <==> service.call_spec(
            input,
            before,
            result,
            after,
        ),
{
}

/// Where the head can only fail, the chain ends with a conversion of the
/// head's error and with the store as the head left it: the tail has no
/// part in the outcome.
pub proof fn lemma_fail_fast<Head, Tail>(
    chain: (Head, Tail),
    input: Head::Input,
    before: ContextModel,
    result: Result<Tail::Output, Tail::Error>,
    after: ContextModel,
) where
    Head: ServiceChainExecutor,
    Tail: ServiceChainExecutor<Input = Head::Output>,
    Tail::Error: From<Head::Error>,

    requires
        forall|output: Head::Output, between: ContextModel|
            !#[trigger] chain.0.execute_spec(input, before, Ok(output), between),
    ensures
        chain.execute_spec(input, before, result, after) <==> exists|error: Head::Error|
            #[trigger] chain.0.execute_spec(input, before, Err(error), after) && result is Err
                && converts(error, result->Err_0),
{
    if chain.execute_spec(input, before, result, after) {
        let (head, between) = lemma_link_parts(chain, input, before, result, after);
        match head {
            Ok(output) => {
                assert(chain.0.execute_spec(input, before, Ok(output), between));
            },
            Err(error) => {
                assert(chain.0.execute_spec(input, before, Err(error), after));
            },
        }
    }
    if exists|error: Head::Error|
        #[trigger] chain.0.execute_spec(input, before, Err(error), after) && result is Err
            && converts(error, result->Err_0) {
        let error = choose|error: Head::Error|
            #[trigger] chain.0.execute_spec(input, before, Err(error), after) && result is Err
                && converts(error, result->Err_0);
        lemma_link_from_parts(chain, input, before, Err(error), after, result, after);
    }
}

/// Where the head's one outcome is the output `output` and the store
/// `between`, the chain does exactly what the tail does on `output` and
/// `between`.
pub proof fn lemma_success_continues<Head, Tail>(
    chain: (Head, Tail),
    input: Head::Input,
    before: ContextModel,
    output: Head::Output,
    between: ContextModel,
    result: Result<Tail::Output, Tail::Error>,
    after: ContextModel,
) where
    Head: ServiceChainExecutor,
    Tail: ServiceChainExecutor<Input = Head::Output>,
    Tail::Error: From<Head::Error>,

    requires
        forall|head: Result<Head::Output, Head::Error>, store: ContextModel|
            #[trigger] chain.0.execute_spec(input, before, head, store) <==> head == Ok::<
                Head::Output,
                Head::Error,
            >(output) && store == between,
    ensures
        chain.execute_spec(input, before, result, after) <==> chain.1.execute_spec(
            output,
            between,
            result,
            after,
        ),
{
    if chain.execute_spec(input, before, result, after) {
        let (head, store) = lemma_link_parts(chain, input, before, result, after);
    }
    if chain.1.execute_spec(output, between, result, after) {
        lemma_link_from_parts(chain, input, before, Ok(output), between, result, after);
    }
}

/// Between stages that share an error type, an error is converted into
/// itself: a failure of the head is the failure of the chain, unchanged.
pub proof fn lemma_shared_error_unchanged<E>(error: E, converted: E)
    requires
        converts::<E, E>(error, converted),
    ensures
        converted == error,
{
}

/// Nesting to the left and nesting to the right give the same chain, as far
/// as its outcomes go, where converting an error of the first stage into
/// the last error type directly is the same as converting it by way of the
/// second stage's error type.
pub proof fn lemma_nesting_is_associative<A, B, C>(
    a: A,
    b: B,
    c: C,
    input: A::Input,
    before: ContextModel,
    result: Result<C::Output, C::Error>,
    after: ContextModel,
) where
    A: ServiceChainExecutor,
    B: ServiceChainExecutor<Input = A::Output>,
    C: ServiceChainExecutor<Input = B::Output>,
    B::Error: From<A::Error>,
    C::Error: From<B::Error> + From<A::Error>,

    requires
        forall|first: A::Error, last: C::Error| #[trigger]
            converts::<A::Error, C::Error>(first, last) <==> exists|middle: B::Error|
                #[trigger] converts::<A::Error, B::Error>(first, middle) && converts::<
                    B::Error,
                    C::Error,
                >(middle, last),
    ensures
        ((a, b), c).execute_spec(input, before, result, after) <==> (a, (b, c)).execute_spec(
            input,
            before,
            result,
            after,
        ),
{
    if ((a, b), c).execute_spec(input, before, result, after) {
        let (second, store_b) = lemma_link_parts(((a, b), c), input, before, result, after);
        let (first, store_a) = lemma_link_parts((a, b), input, before, second, store_b);
        match first {
            Ok(output) => {
                lemma_link_from_parts((b, c), output, store_a, second, store_b, result, after);
            },
            Err(error) => {
                assert(converts::<A::Error, B::Error>(error, second->Err_0));
                assert(converts::<A::Error, C::Error>(error, result->Err_0));
            },
        }
        lemma_link_from_parts((a, (b, c)), input, before, first, store_a, result, after);
    }
    if (a, (b, c)).execute_spec(input, before, result, after) {
        let (first, store_a) = lemma_link_parts((a, (b, c)), input, before, result, after);
        match first {
            Ok(output) => {
                let (second, store_b) = lemma_link_parts(
                    (b, c),
                    output,
                    store_a,
                    result,
                    after,
                );
                lemma_link_from_parts((a, b), input, before, first, store_a, second, store_b);
                lemma_link_from_parts(((a, b), c), input, before, second, store_b, result, after);
            },
            Err(error) => {
                let middle = choose|middle: B::Error|
                    #[trigger] converts::<A::Error, B::Error>(error, middle) && converts::<
                        B::Error,
                        C::Error,
                    >(middle, result->Err_0);
                let second = Err::<B::Output, B::Error>(middle);
                lemma_link_from_parts((a, b), input, before, first, store_a, second, store_a);
                lemma_link_from_parts(((a, b), c), input, before, second, store_a, result, after);
            },
        }
    }
}

} // verus!
