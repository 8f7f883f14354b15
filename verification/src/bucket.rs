//! Buckets: transient, single-owner carriers of value in motion.

use vstd::prelude::*;

use crate::confidential::Commitment;

verus! {

/// One minted non-fungible item: a unique identifier with opaque metadata.
#[derive(Clone, Debug, PartialEq, Eq)]
pub struct NftItem {
    pub id: u64,
    pub metadata: String,
}

/// The identifiers of a sequence of items, in order.
pub open spec fn ids_of(items: Seq<NftItem>) -> Seq<u64> {
    items.map_values(|it: NftItem| it.id)
}

/// A transient, single-owner carrier of value extracted from or destined
/// for a vault.  A bucket inherits the visibility class of the resource it
/// was drawn from and carries a plain amount, items or commitments
/// accordingly.  A confidential-class bucket may additionally carry a
/// revealed plain amount, which is how fees can be paid out of confidential
/// holdings.
#[derive(Clone, Debug, PartialEq, Eq)]
pub enum Bucket {
    Fungible { amount: u64 },
    NonFungible { items: Vec<NftItem> },
    Confidential { revealed: u64, commitments: Vec<Commitment> },
}

impl Bucket {
    /// The bucket's plain (publicly visible) amount.  Hidden value and
    /// indivisible items do not show up here.
    pub open spec fn spec_amount(&self) -> u64 {
        match self {
            Bucket::Fungible { amount } => *amount,
            Bucket::NonFungible { .. } => 0,
            Bucket::Confidential { revealed, .. } => *revealed,
        }
    }

    /// The items the bucket carries (empty for the other classes).
    pub open spec fn spec_items(&self) -> Seq<NftItem> {
        match self {
            Bucket::NonFungible { items } => items@,
            _ => Seq::empty(),
        }
    }

    /// The commitments the bucket carries (empty for the other classes).
    pub open spec fn spec_commitments(&self) -> Seq<Commitment> {
        match self {
            Bucket::Confidential { commitments, .. } => commitments@,
            _ => Seq::empty(),
        }
    }

    /// Whether the bucket carries any confidential commitments.
    pub open spec fn spec_has_hidden_value(&self) -> bool {
        self.spec_commitments().len() > 0
    }

    /// Whether the bucket can pay a fee at all: it carries scalar value, not
    /// indivisible items.  A fee must moreover carry no hidden value, which
    /// the withdrawal operations check at run time.
    pub open spec fn is_fee_class(&self) -> bool {
        !(self is NonFungible)
    }

    /// The bucket's plain amount.
    pub fn amount(&self) -> (r: u64)
        ensures
            r == self.spec_amount(),
    {
        match self {
            Bucket::Fungible { amount } => *amount,
            Bucket::NonFungible { .. } => 0,
            Bucket::Confidential { revealed, .. } => *revealed,
        }
    }

    /// True exactly when the bucket carries no confidential commitments.
    pub fn contains_no_confidential_funds(&self) -> (r: bool)
        ensures
            r == !self.spec_has_hidden_value(),
    {
        match self {
            Bucket::Confidential { commitments, .. } => commitments.len() == 0,
            _ => true,
        }
    }
}

} // verus!
