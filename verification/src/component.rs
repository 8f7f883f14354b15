//! The custody component: the orchestrating state machine that owns the fee
//! vault and the asset vaults and enforces the fee-metered withdrawal
//! protocol.
//!
//! Ordering policy for withdrawal-class calls: every precondition (fee
//! purity, fee floor, balance sufficiency or proof validity) is validated
//! before any mutation, and then the fee deposit, the counter increment and
//! the value withdrawal are committed together as one atomic step.  A failed
//! call therefore never deposits the fee and never changes any vault.

use vstd::prelude::*;

use crate::bucket::{ids_of, Bucket, NftItem};
use crate::confidential::{
    csum, post_withdraw_set, withdraw_accepted, Commitment, ConfidentialOutputStatement,
    ConfidentialWithdrawProof,
};
use crate::errors::CustodyError;
use crate::resource::{
    fee_resource, spec_fee_resource, ResourceIdentity, ResourceKind, ResourceRegistry,
};
use crate::vault::Vault;
use crate::FEE;

verus! {

/// The methods of the custody component, for access-policy enumeration.
#[derive(Clone, Copy, Debug, PartialEq, Eq, Structural)]
pub enum MethodName {
    Withdraw,
    WithdrawConfidential,
    GetBalance,
    MintFungible,
    MintNonFungible,
    MintConfidential,
    Counter,
    Increase,
}

/// Who may call a method of the component.
#[derive(Clone, Copy, Debug, PartialEq, Eq, Structural)]
pub enum AccessRule {
    /// Any caller may attempt the method; it is gated by the fee and proof
    /// checks, not by identity.
    AllowAll,
    /// Only the owner or admin capability may call the method.
    Restricted,
}

/// The component's access policy: withdrawal-class methods are open to
/// every caller, everything else is restricted to the owner.
pub open spec fn spec_method_access(m: MethodName) -> AccessRule {
    if m == MethodName::Withdraw || m == MethodName::WithdrawConfidential {
        AccessRule::AllowAll
    } else {
        AccessRule::Restricted
    }
}

/// The access rule attached to a method at construction.
pub fn method_access(m: MethodName) -> (r: AccessRule)
    ensures
        r == spec_method_access(m),
        r == AccessRule::AllowAll <==> (m == MethodName::Withdraw || m
            == MethodName::WithdrawConfidential),
{
    match m {
        MethodName::Withdraw => AccessRule::AllowAll,
        MethodName::WithdrawConfidential => AccessRule::AllowAll,
        _ => AccessRule::Restricted,
    }
}

/// The number of successful outcomes in a run of calls.
pub open spec fn count_successes(outcomes: Seq<bool>) -> int
    decreases outcomes.len(),
{
    if outcomes.len() == 0 {
        0
    } else {
        count_successes(outcomes.drop_last()) + if outcomes.last() {
            1int
        } else {
            0int
        }
    }
}

/// Counter monotonicity: across any run of withdrawal-class calls — where,
/// as the withdrawal contracts ensure, each successful call advances the
/// counter by exactly one and each failed call leaves it unchanged — the
/// final counter reading equals the initial one plus the number of
/// successful calls.
pub proof fn lemma_counter_monotonic(counters: Seq<u32>, outcomes: Seq<bool>)
    requires
        counters.len() == outcomes.len() + 1,
        forall|i: int|
            #![trigger outcomes[i]]
            0 <= i < outcomes.len() ==> counters[i + 1] as int == counters[i] as int + if outcomes[i] {
                1int
            } else {
                0int
            },
    ensures
        counters.last() as int == counters.first() as int + count_successes(outcomes),
    decreases outcomes.len(),
{
    if outcomes.len() > 0 {
        let c2 = counters.drop_last();
        let o2 = outcomes.drop_last();
        assert forall|i: int|
            #![trigger o2[i]]
            0 <= i < o2.len() implies c2[i + 1] as int == c2[i] as int + if o2[i] {
            1int
        } else {
            0int
        } by {
            assert(o2[i] == outcomes[i]);
            assert(c2[i] == counters[i]);
            assert(c2[i + 1] == counters[i + 1]);
        }
        lemma_counter_monotonic(c2, o2);
        assert(c2.last() == counters[counters.len() - 2]);
        assert(c2.first() == counters.first());
        let n = outcomes.len() - 1;
        assert(outcomes[n] == outcomes.last());
        assert(counters[n + 1] as int == counters[n] as int + if outcomes[n] {
            1int
        } else {
            0int
        });
    }
}

/// The custody component: one fee vault, one vault per asset class, and an
/// audit counter that advances once per successful withdrawal-class call.
pub struct Monerokon {
    pub counter: u32,
    pub supply_vault: Vault,
    pub fee_vault: Vault,
    pub nft_vault: Vault,
    pub confidential_vault: Vault,
}

impl Monerokon {
    /// Well-formed: each vault is well-formed and holds the asset class it
    /// was constructed for, and the fee vault is bound to the designated
    /// plain-value fee resource.
    pub open spec fn wf(&self) -> bool {
        &&& self.supply_vault.wf() && self.supply_vault.contents is Fungible
        &&& self.fee_vault.wf() && self.fee_vault.contents is Fungible
            && self.fee_vault.resource == spec_fee_resource()
        &&& self.nft_vault.wf() && self.nft_vault.contents is NonFungible
        &&& self.confidential_vault.wf() && self.confidential_vault.contents is Confidential
    }

    /// The plain supply balance.
    pub open spec fn spec_supply_balance(&self) -> u64 {
        self.supply_vault.spec_balance()
    }

    /// The accumulated fee balance.
    pub open spec fn spec_fee_balance(&self) -> u64 {
        self.fee_vault.spec_balance()
    }

    /// The non-fungible items held.
    pub open spec fn spec_items(&self) -> Seq<NftItem> {
        self.nft_vault.spec_items()
    }

    /// The identifiers of the non-fungible items held.
    pub open spec fn spec_item_ids(&self) -> Seq<u64> {
        self.nft_vault.spec_item_ids()
    }

    /// The commitment set of the confidential vault.
    pub open spec fn spec_commitments(&self) -> Seq<Commitment> {
        self.confidential_vault.spec_commitments()
    }

    /// Construct the component: request three fresh resource identities
    /// from the registry, seed one vault per identity with the supplied
    /// initial value, create an empty fee vault bound to the designated
    /// plain-value resource, and start the counter at zero.  Construction
    /// is rejected with `ConstructionError`, leaving the registry
    /// untouched, exactly when the initial confidential supply statement
    /// fails validation.
    pub fn new(
        registry: &mut ResourceRegistry,
        initial_supply: u64,
        initial_confidential_supply: ConfidentialOutputStatement,
        initial_nft_items: Vec<NftItem>,
    ) -> (r: Result<Monerokon, CustodyError>)
        requires
            old(registry).next_id + 3 <= u64::MAX,
            ids_of(initial_nft_items@).no_duplicates(),
        ensures
            r is Ok <==> initial_confidential_supply.range_ok,
            r is Err ==> *final(registry) == *old(registry) && r == Err::<Monerokon, CustodyError>(
                CustodyError::ConstructionError,
            ),
            r matches Ok(c) ==> {
                &&& c.wf()
                &&& c.counter == 0
                &&& c.spec_supply_balance() == initial_supply
                &&& c.spec_fee_balance() == 0
                &&& c.spec_items() == initial_nft_items@
                &&& c.spec_commitments() == seq![initial_confidential_supply.commitment]
                &&& c.supply_vault.resource == (ResourceIdentity {
                    id: old(registry).next_id,
                    kind: ResourceKind::Public,
                })
                &&& c.nft_vault.resource == (ResourceIdentity {
                    id: (old(registry).next_id + 1) as u64,
                    kind: ResourceKind::NonFungible,
                })
                &&& c.confidential_vault.resource == (ResourceIdentity {
                    id: (old(registry).next_id + 2) as u64,
                    kind: ResourceKind::Confidential,
                })
                &&& final(registry).next_id == old(registry).next_id + 3
            },
    {
        if !initial_confidential_supply.range_ok {
            return Err(CustodyError::ConstructionError);
        }

        let supply_resource = registry.create_resource(ResourceKind::Public);
        let nft_resource = registry.create_resource(ResourceKind::NonFungible);
        let confidential_resource = registry.create_resource(ResourceKind::Confidential);

        let ghost items0 = initial_nft_items@;
        let mut supply_vault = Vault::new_empty(supply_resource);
        supply_vault.deposit(Bucket::Fungible { amount: initial_supply });

        let mut nft_vault = Vault::new_empty(nft_resource);
        nft_vault.deposit(Bucket::NonFungible { items: initial_nft_items });
        proof {
            assert(nft_vault.spec_items() =~= items0);
        }

        let mut confidential_vault = Vault::new_empty(confidential_resource);
        let seed = registry.mint_confidential(confidential_resource, initial_confidential_supply);
        confidential_vault.deposit(seed);
        proof {
            assert(confidential_vault.spec_commitments() =~= seq![
                initial_confidential_supply.commitment,
            ]);
        }

        Ok(
            Monerokon {
                counter: 0,
                supply_vault,
                fee_vault: Vault::new_empty(fee_resource()),
                nft_vault,
                confidential_vault,
            },
        )
    }

    /// The plain supply balance.  No side effects; always succeeds.
    pub fn get_balance(&self) -> (r: u64)
        ensures
            r == self.spec_supply_balance(),
    {
        self.supply_vault.balance()
    }

    /// The accumulated fee balance.
    pub fn fee_balance(&self) -> (r: u64)
        ensures
            r == self.spec_fee_balance(),
    {
        self.fee_vault.balance()
    }

    /// The commitments currently held by the confidential vault.
    /// Commitments are public data; only the amounts they encode are
    /// hidden.
    pub fn confidential_commitments(&self) -> (r: &Vec<Commitment>)
        requires
            self.wf(),
        ensures
            r@ == self.spec_commitments(),
    {
        self.confidential_vault.commitments()
    }

    /// Withdraw a plain amount against a flat fee.
    ///
    /// Conservation: on success the supply balance drops by exactly
    /// `amount`, the fee balance grows by exactly the fee's plain amount,
    /// and a bucket of exactly `amount` is returned.  A fee below the floor
    /// is rejected (`InsufficientFee`), an amount above the balance is
    /// rejected (`InsufficientBalance`); either rejection returns the fee
    /// to the caller and changes nothing.
    pub fn withdraw(&mut self, fee: Bucket, amount: u64) -> (r: Result<Bucket, CustodyError>)
        requires
            old(self).wf(),
            fee.is_fee_class(),
            !fee.spec_has_hidden_value(),
            (fee.spec_amount() >= FEE && amount <= old(self).spec_supply_balance())
                ==> (old(self).counter < u32::MAX && old(self).spec_fee_balance()
                + fee.spec_amount() <= u64::MAX),
        ensures
            final(self).wf(),
            r is Ok <==> (fee.spec_amount() >= FEE && amount <= old(self).spec_supply_balance()),
            fee.spec_amount() < FEE ==> (*final(self) == *old(self) && r == Err::<
                Bucket,
                CustodyError,
            >(CustodyError::InsufficientFee)),
            (fee.spec_amount() >= FEE && amount > old(self).spec_supply_balance())
                ==> (*final(self) == *old(self) && r == Err::<Bucket, CustodyError>(
                CustodyError::InsufficientBalance,
            )),
            r is Ok ==> {
                &&& final(self).spec_supply_balance() == old(self).spec_supply_balance() - amount
                &&& final(self).spec_fee_balance() == old(self).spec_fee_balance()
                    + fee.spec_amount()
                &&& final(self).counter == old(self).counter + 1
                &&& final(self).nft_vault == old(self).nft_vault
                &&& final(self).confidential_vault == old(self).confidential_vault
                &&& final(self).supply_vault.resource == old(self).supply_vault.resource
                &&& final(self).fee_vault.resource == old(self).fee_vault.resource
                &&& r == Ok::<Bucket, CustodyError>(Bucket::Fungible { amount })
            },
    {
        // validate every precondition before mutating anything
        let fee_amount = fee.amount();
        if fee_amount < FEE {
            return Err(CustodyError::InsufficientFee);
        }
        if amount > self.supply_vault.balance() {
            return Err(CustodyError::InsufficientBalance);
        }
        // commit: fee deposit, counter, supply withdrawal
        self.fee_vault.deposit(Bucket::Fungible { amount: fee_amount });
        self.counter = self.counter + 1;
        self.supply_vault.withdraw(amount)
    }

    /// Withdraw confidential value against a flat fee and a withdraw proof.
    ///
    /// The fee bucket must carry no hidden value (`FeeContainsHiddenValue`
    /// otherwise, whatever its plain amount) and must meet the fee floor
    /// (`InsufficientFee`).  The proof is then checked in full by the
    /// transfer engine (`InvalidWithdrawProof` on any failure).  Any
    /// rejection returns the fee to the caller and changes nothing.  On
    /// success the consumed input commitments are replaced by the proof's
    /// residual, hidden value is conserved in the commitment domain, and
    /// the output commitment leaves in the returned bucket.
    pub fn withdraw_confidential(&mut self, fee: Bucket, p: &ConfidentialWithdrawProof) -> (r:
        Result<Bucket, CustodyError>)
        requires
            old(self).wf(),
            fee.is_fee_class(),
            (!fee.spec_has_hidden_value() && fee.spec_amount() >= FEE && withdraw_accepted(
                old(self).spec_commitments(),
                *p,
            )) ==> (old(self).counter < u32::MAX && old(self).spec_fee_balance()
                + fee.spec_amount() <= u64::MAX),
        ensures
            final(self).wf(),
            r is Ok <==> (!fee.spec_has_hidden_value() && fee.spec_amount() >= FEE
                && withdraw_accepted(old(self).spec_commitments(), *p)),
            fee.spec_has_hidden_value() ==> (*final(self) == *old(self) && r == Err::<
                Bucket,
                CustodyError,
            >(CustodyError::FeeContainsHiddenValue)),
            (!fee.spec_has_hidden_value() && fee.spec_amount() < FEE)
                ==> (*final(self) == *old(self) && r == Err::<Bucket, CustodyError>(
                CustodyError::InsufficientFee,
            )),
            (!fee.spec_has_hidden_value() && fee.spec_amount() >= FEE && !withdraw_accepted(
                old(self).spec_commitments(),
                *p,
            )) ==> (*final(self) == *old(self) && r == Err::<Bucket, CustodyError>(
                CustodyError::InvalidWithdrawProof,
            )),
            r is Ok ==> {
                &&& final(self).spec_fee_balance() == old(self).spec_fee_balance()
                    + fee.spec_amount()
                &&& final(self).counter == old(self).counter + 1
                &&& final(self).supply_vault == old(self).supply_vault
                &&& final(self).nft_vault == old(self).nft_vault
                &&& final(self).fee_vault.resource == old(self).fee_vault.resource
                &&& final(self).confidential_vault.resource
                    == old(self).confidential_vault.resource
                &&& post_withdraw_set(
                    old(self).spec_commitments(),
                    final(self).spec_commitments(),
                    *p,
                )
                &&& csum(final(self).spec_commitments()) + p.output.elem == csum(
                    old(self).spec_commitments(),
                )
                &&& (r matches Ok(b) && b.spec_amount() == 0 && b.spec_commitments() == seq![
                    p.output,
                ])
            },
    {
        // validate every precondition before mutating anything; the
        // engine itself mutates the confidential vault only after its own
        // checks have all passed
        if !fee.contains_no_confidential_funds() {
            return Err(CustodyError::FeeContainsHiddenValue);
        }
        let fee_amount = fee.amount();
        if fee_amount < FEE {
            return Err(CustodyError::InsufficientFee);
        }
        match self.confidential_vault.withdraw_confidential(p) {
            Ok(bucket) => {
                self.fee_vault.deposit(Bucket::Fungible { amount: fee_amount });
                self.counter = self.counter + 1;
                Ok(bucket)
            },
            Err(e) => Err(e),
        }
    }

    /// Mint new public supply via the registry and deposit it into the
    /// supply vault.  No fee; restricted to the owner, with minting
    /// authority enforced by the hosting environment's access control.
    pub fn mint_fungible(&mut self, registry: &ResourceRegistry, amount: u64)
        requires
            old(self).wf(),
            old(self).spec_supply_balance() + amount <= u64::MAX,
        ensures
            final(self).wf(),
            final(self).spec_supply_balance() == old(self).spec_supply_balance() + amount,
            final(self).counter == old(self).counter,
            final(self).fee_vault == old(self).fee_vault,
            final(self).nft_vault == old(self).nft_vault,
            final(self).confidential_vault == old(self).confidential_vault,
            final(self).supply_vault.resource == old(self).supply_vault.resource,
    {
        let bucket = registry.mint_fungible(self.supply_vault.resource, amount);
        self.supply_vault.deposit(bucket);
    }

    /// Mint one new unique item with attached opaque metadata and deposit
    /// it into the non-fungible vault.  Fails with `DuplicateItemId`,
    /// changing nothing, exactly when the identifier already exists in the
    /// vault's resource universe.
    pub fn mint_non_fungible(
        &mut self,
        registry: &ResourceRegistry,
        item_id: u64,
        metadata: String,
    ) -> (r: Result<(), CustodyError>)
        requires
            old(self).wf(),
        ensures
            final(self).wf(),
            r is Ok <==> !old(self).spec_item_ids().contains(item_id),
            r is Err ==> (*final(self) == *old(self) && r == Err::<(), CustodyError>(
                CustodyError::DuplicateItemId,
            )),
            r is Ok ==> {
                &&& final(self).spec_items() == old(self).spec_items().push(
                    NftItem { id: item_id, metadata },
                )
                &&& final(self).counter == old(self).counter
                &&& final(self).supply_vault == old(self).supply_vault
                &&& final(self).fee_vault == old(self).fee_vault
                &&& final(self).confidential_vault == old(self).confidential_vault
                &&& final(self).nft_vault.resource == old(self).nft_vault.resource
            },
    {
        if self.nft_vault.has_item(item_id) {
            return Err(CustodyError::DuplicateItemId);
        }
        let ghost items0 = self.spec_items();
        let bucket = registry.mint_non_fungible(self.nft_vault.resource, item_id, metadata);
        self.nft_vault.deposit(bucket);
        proof {
            assert(self.spec_items() =~= items0.push(
                NftItem { id: item_id, metadata: metadata },
            ));
        }
        Ok(())
    }

    /// Mint new confidential value per a validated statement and deposit
    /// the resulting commitment into the confidential vault.  No plaintext
    /// amount is observed.  The registry rejects a statement whose range
    /// proof fails, and a commitment identical to one already held cannot
    /// be materialized a second time, so both are required of the caller.
    pub fn mint_confidential(
        &mut self,
        registry: &ResourceRegistry,
        statement: ConfidentialOutputStatement,
    )
        requires
            old(self).wf(),
            statement.range_ok,
            !old(self).spec_commitments().contains(statement.commitment),
        ensures
            final(self).wf(),
            final(self).spec_commitments() == old(self).spec_commitments().push(
                statement.commitment,
            ),
            final(self).counter == old(self).counter,
            final(self).supply_vault == old(self).supply_vault,
            final(self).fee_vault == old(self).fee_vault,
            final(self).nft_vault == old(self).nft_vault,
            final(self).confidential_vault.resource == old(self).confidential_vault.resource,
    {
        let ghost commitments0 = self.spec_commitments();
        let bucket = registry.mint_confidential(self.confidential_vault.resource, statement);
        self.confidential_vault.deposit(bucket);
        proof {
            assert(self.spec_commitments() =~= commitments0.push(statement.commitment));
        }
    }

    /// The audit counter.
    pub fn counter(&self) -> (r: u32)
        ensures
            r == self.counter,
    {
        self.counter
    }

    /// Advance the audit counter by one.  Restricted to the owner;
    /// unrelated to value transfer.
    pub fn increase(&mut self)
        requires
            old(self).counter < u32::MAX,
        ensures
            final(self).counter == old(self).counter + 1,
            final(self).supply_vault == old(self).supply_vault,
            final(self).fee_vault == old(self).fee_vault,
            final(self).nft_vault == old(self).nft_vault,
            final(self).confidential_vault == old(self).confidential_vault,
    {
        self.counter = self.counter + 1;
    }
}

} // verus!
