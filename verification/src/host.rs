//! The Soroban host types that lending records carry, and the host
//! operations that the lending logic performs on them.
//!
//! Nothing here is proved: each item states what the `soroban_sdk` source
//! shows of the function it stands for.

use vstd::prelude::*;

verus! {

/// A Soroban address (an account or a contract), opaque to the proofs.
#[verifier::external_type_specification]
#[verifier::external_body]
pub struct ExAddress(soroban_sdk::Address);

/// The Soroban environment handle, opaque to the proofs.
#[verifier::external_type_specification]
#[verifier::external_body]
pub struct ExEnv(soroban_sdk::Env);

/// A host-side vector, opaque to the proofs; what one holds is named by
/// [`loan_id_list`].
#[verifier::external_type_specification]
#[verifier::external_body]
#[verifier::reject_recursive_types(T)]
pub struct ExVec<T>(soroban_sdk::Vec<T>);

/// `Address::clone` is derived in `soroban_sdk`: it copies the environment
/// handle (a reference-counted pointer) and the host object handle, so the
/// copy is the same value.
pub assume_specification[<soroban_sdk::Address as Clone>::clone](
    address: &soroban_sdk::Address,
) -> (copy: soroban_sdk::Address)
    ensures
        copy == *address,
;

/// The loan ids that a host vector holds, front to back.
pub uninterp spec fn loan_id_list(ids: soroban_sdk::Vec<u64>) -> Seq<u64>;

/// `soroban_sdk::Vec::new`: the host creates a vector with no items.
#[verifier::external_body]
pub(crate) fn new_loan_id_list(env: &soroban_sdk::Env) -> (ids: soroban_sdk::Vec<u64>)
    ensures
        loan_id_list(ids) == Seq::<u64>::empty(),
{
    soroban_sdk::Vec::new(env)
}

/// `soroban_sdk::Vec::push_back`: the host appends the item at the back,
/// leaving the items before it as they were.
#[verifier::external_body]
pub(crate) fn push_loan_id(ids: &mut soroban_sdk::Vec<u64>, loan_id: u64)
    ensures
        loan_id_list(*final(ids)) == loan_id_list(*old(ids)).push(loan_id),
{
    ids.push_back(loan_id)
}

/// The addresses that a host vector holds, front to back.
pub uninterp spec fn token_list(tokens: soroban_sdk::Vec<soroban_sdk::Address>) -> Seq<
    soroban_sdk::Address,
>;

/// `soroban_sdk::Vec::new`: the host creates a vector with no items.
#[verifier::external_body]
pub(crate) fn new_token_list(env: &soroban_sdk::Env) -> (tokens: soroban_sdk::Vec<
    soroban_sdk::Address,
>)
    ensures
        token_list(tokens) == Seq::<soroban_sdk::Address>::empty(),
{
    soroban_sdk::Vec::new(env)
}

/// `soroban_sdk::Vec::push_back`: the host appends the item at the back,
/// leaving the items before it as they were.
#[verifier::external_body]
pub(crate) fn push_token(
    tokens: &mut soroban_sdk::Vec<soroban_sdk::Address>,
    token: soroban_sdk::Address,
)
    ensures
        token_list(*final(tokens)) == token_list(*old(tokens)).push(token),
{
    tokens.push_back(token)
}

} // verus!
