//! A custodial asset component: one stateful unit that holds publicly-visible
//! fungible tokens, non-fungible items and confidentially-amounted tokens, and
//! mediates deposits, withdrawals and minting through a fee-metered protocol.
//!
//! Withdrawal-class operations charge a flat fee in the plain-value resource.
//! Confidential value is held as a set of commitments; a withdrawal must be
//! authorized by an externally constructed proof that the engine checks for
//! presence of its inputs, algebraic conservation and range validity before
//! the vault's commitment set is mutated.

use vstd::prelude::*;

mod bucket;
mod component;
mod confidential;
mod errors;
mod resource;
mod vault;

pub use bucket::ids_of;
pub use bucket::Bucket;
pub use bucket::NftItem;
pub use component::count_successes;
pub use component::lemma_counter_monotonic;
pub use component::method_access;
pub use component::spec_method_access;
pub use component::AccessRule;
pub use component::MethodName;
pub use component::Monerokon;
pub use confidential::csum;
pub use confidential::lemma_no_double_spend;
pub use confidential::post_withdraw_set;
pub use confidential::withdraw_accepted;
pub use confidential::Commitment;
pub use confidential::ConfidentialOutputStatement;
pub use confidential::ConfidentialWithdrawProof;
pub use errors::CustodyError;
pub use resource::fee_resource;
pub use resource::spec_fee_resource;
pub use resource::ResourceIdentity;
pub use resource::ResourceKind;
pub use resource::ResourceRegistry;
pub use resource::FEE_RESOURCE_ID;
pub use vault::Vault;
pub use vault::VaultContents;

verus! {

/// Flat fee, in units of the plain-value resource, that every
/// withdrawal-class call must pay.
pub const FEE: u64 = 10;

} // verus!
