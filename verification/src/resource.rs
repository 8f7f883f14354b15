//! Resource identities and the resource registry capability.
//!
//! The registry is the external service that creates resource identities and
//! authorizes minting.  Here it is modeled as an injected capability with the
//! narrow interface this core consumes: `create_resource` and the three
//! `mint` entry points, each returning a bucket of freshly minted value.

use vstd::prelude::*;

use crate::bucket::{Bucket, NftItem};
use crate::confidential::ConfidentialOutputStatement;

verus! {

/// Visibility class of a resource: how its value is represented.
#[derive(Clone, Copy, Debug, PartialEq, Eq, Structural)]
pub enum ResourceKind {
    Public,
    NonFungible,
    Confidential,
}

/// Opaque handle naming one resource class.  Created once by the registry
/// and immutable thereafter.
#[derive(Clone, Copy, Debug, PartialEq, Eq, Structural)]
pub struct ResourceIdentity {
    pub id: u64,
    pub kind: ResourceKind,
}

/// Identifier of the designated plain-value resource in which fees are
/// paid.  It pre-exists every component; the registry never hands it out
/// again.
pub const FEE_RESOURCE_ID: u64 = 0;

/// The designated plain-value fee resource.
pub open spec fn spec_fee_resource() -> ResourceIdentity {
    ResourceIdentity { id: FEE_RESOURCE_ID, kind: ResourceKind::Public }
}

/// The designated plain-value resource that fees are paid in.
pub fn fee_resource() -> (r: ResourceIdentity)
    ensures
        r == spec_fee_resource(),
{
    ResourceIdentity { id: FEE_RESOURCE_ID, kind: ResourceKind::Public }
}

/// The resource registry capability.  `next_id` is the next unissued
/// identity; every identity it hands out is fresh.
#[derive(Clone, Copy, Debug, PartialEq, Eq, Structural)]
pub struct ResourceRegistry {
    pub next_id: u64,
}

impl ResourceRegistry {
    /// A registry that has issued nothing yet.  Identity 0 is reserved for
    /// the designated fee resource.
    pub fn new() -> (r: ResourceRegistry)
        ensures
            r.next_id == 1,
    {
        ResourceRegistry { next_id: 1 }
    }

    /// Create a fresh resource identity of the given visibility class.
    pub fn create_resource(&mut self, kind: ResourceKind) -> (r: ResourceIdentity)
        requires
            old(self).next_id < u64::MAX,
        ensures
            r == (ResourceIdentity { id: old(self).next_id, kind }),
            final(self).next_id == old(self).next_id + 1,
    {
        let id = self.next_id;
        self.next_id = self.next_id + 1;
        ResourceIdentity { id, kind }
    }

    /// Mint new units of a public resource.  Minting authority is enforced
    /// by the hosting environment, not here.
    pub fn mint_fungible(&self, resource: ResourceIdentity, amount: u64) -> (r: Bucket)
        requires
            resource.kind == ResourceKind::Public,
        ensures
            r == (Bucket::Fungible { amount }),
    {
        Bucket::Fungible { amount }
    }

    /// Mint one new unique item with attached opaque metadata.  Uniqueness
    /// against the resource's universe is the caller's check: the custody
    /// component holds every minted item, so it checks its own vault.
    pub fn mint_non_fungible(
        &self,
        resource: ResourceIdentity,
        item_id: u64,
        metadata: String,
    ) -> (r: Bucket)
        requires
            resource.kind == ResourceKind::NonFungible,
        ensures
            r matches Bucket::NonFungible { items } && items@ =~= seq![
                NftItem { id: item_id, metadata },
            ],
    {
        let items = vec![NftItem { id: item_id, metadata }];
        Bucket::NonFungible { items }
    }

    /// Mint new confidential value per a validated output statement.  The
    /// registry rejects a statement whose range proof does not check out,
    /// so only validated statements reach this call.
    pub fn mint_confidential(
        &self,
        resource: ResourceIdentity,
        statement: ConfidentialOutputStatement,
    ) -> (r: Bucket)
        requires
            resource.kind == ResourceKind::Confidential,
            statement.range_ok,
        ensures
            r matches Bucket::Confidential { revealed, commitments } && revealed == 0
                && commitments@ =~= seq![statement.commitment],
    {
        let commitments = vec![statement.commitment];
        Bucket::Confidential { revealed: 0, commitments }
    }
}

} // verus!
