//! Vaults: persistent containers bound to one resource identity, and the
//! confidential transfer engine that mediates confidential withdrawals.

use vstd::prelude::*;

use crate::bucket::{ids_of, Bucket, NftItem};
use crate::confidential::{
    csum, lemma_csum_push, lemma_csum_take_succ, lemma_push_contains, lemma_remove_unique,
    lemma_take_succ, post_withdraw_set, withdraw_accepted, Commitment, ConfidentialWithdrawProof,
};
use crate::errors::CustodyError;
use crate::resource::{ResourceIdentity, ResourceKind};

verus! {

/// What a vault holds, by visibility class of its resource.
#[derive(Clone, Debug, PartialEq, Eq)]
pub enum VaultContents {
    Fungible { amount: u64 },
    NonFungible { items: Vec<NftItem> },
    Confidential { commitments: Vec<Commitment> },
}

impl VaultContents {
    /// The plain scalar balance (zero for the other classes).
    pub open spec fn spec_balance(&self) -> u64 {
        match self {
            VaultContents::Fungible { amount } => *amount,
            _ => 0,
        }
    }

    /// The items held (empty for the other classes).
    pub open spec fn spec_items(&self) -> Seq<NftItem> {
        match self {
            VaultContents::NonFungible { items } => items@,
            _ => Seq::empty(),
        }
    }

    /// The commitment set held (empty for the other classes).
    pub open spec fn spec_commitments(&self) -> Seq<Commitment> {
        match self {
            VaultContents::Confidential { commitments } => commitments@,
            _ => Seq::empty(),
        }
    }

    /// Borrow the commitment set of confidential contents.
    fn commitments_ref(&self) -> (r: &Vec<Commitment>)
        requires
            self is Confidential,
        ensures
            r@ == self.spec_commitments(),
    {
        match self {
            VaultContents::Confidential { commitments } => commitments,
            _ => vstd::pervasive::unreached(),
        }
    }

    /// Borrow the item list of non-fungible contents.
    fn items_ref(&self) -> (r: &Vec<NftItem>)
        requires
            self is NonFungible,
        ensures
            r@ == self.spec_items(),
    {
        match self {
            VaultContents::NonFungible { items } => items,
            _ => vstd::pervasive::unreached(),
        }
    }
}

/// Persistent container owning zero or more units of exactly one resource.
/// The resident resource identity never changes after construction, and the
/// holdings are mutated only through the deposit and withdraw operations
/// below.
#[derive(Clone, Debug, PartialEq, Eq)]
pub struct Vault {
    pub resource: ResourceIdentity,
    pub contents: VaultContents,
}

/// Duplicate-free sequences stay duplicate-free under concatenation with a
/// disjoint duplicate-free sequence.
proof fn lemma_no_dup_concat<T>(a: Seq<T>, b: Seq<T>)
    requires
        a.no_duplicates(),
        b.no_duplicates(),
        forall|i: int| 0 <= i < b.len() ==> !a.contains(b[i]),
    ensures
        (a + b).no_duplicates(),
{
    assert forall|i: int, j: int|
        0 <= i < (a + b).len() && 0 <= j < (a + b).len() && i != j implies (a + b)[i] != (a
        + b)[j] by {
        if i < a.len() && j >= a.len() {
            assert(a.contains(a[i]));
            if (a + b)[i] == (a + b)[j] {
                assert(a.contains(b[j - a.len()]));
            }
        } else if i >= a.len() && j < a.len() {
            assert(a.contains(a[j]));
            if (a + b)[i] == (a + b)[j] {
                assert(a.contains(b[i - a.len()]));
            }
        }
    }
}

/// Item identifiers distribute over concatenation.
proof fn lemma_ids_of_concat(a: Seq<NftItem>, b: Seq<NftItem>)
    ensures
        ids_of(a + b) =~= ids_of(a) + ids_of(b),
{
    assert forall|i: int| 0 <= i < (a + b).len() implies ids_of(a + b)[i] == (ids_of(a) + ids_of(
        b,
    ))[i] by {
        if i < a.len() {
            assert((a + b)[i] == a[i]);
        } else {
            assert((a + b)[i] == b[i - a.len()]);
        }
    }
}

/// A duplicate-free sequence stays duplicate-free when an absent element is
/// pushed.
proof fn lemma_push_no_dup(s: Seq<Commitment>, x: Commitment)
    requires
        s.no_duplicates(),
        !s.contains(x),
    ensures
        s.push(x).no_duplicates(),
{
    assert forall|i: int, j: int|
        0 <= i < s.push(x).len() && 0 <= j < s.push(x).len() && i != j implies s.push(x)[i]
        != s.push(x)[j] by {
        if i < s.len() && j < s.len() {
        } else if j == s.len() {
            if s[i] == x {
                assert(s.contains(s[i]));
            }
        } else {
            if s[j] == x {
                assert(s.contains(s[j]));
            }
        }
    }
}

/// Linear search for a commitment.
fn find_commitment(v: &Vec<Commitment>, c: Commitment) -> (r: Option<usize>)
    ensures
        r matches Some(k) ==> k < v@.len() && v@[k as int] == c,
        r is None ==> !v@.contains(c),
{
    let mut k: usize = 0;
    while k < v.len()
        invariant
            k <= v@.len(),
            forall|i: int| 0 <= i < k ==> v@[i] != c,
        decreases v@.len() - k,
    {
        if v[k] == c {
            return Some(k);
        }
        k += 1;
    }
    None
}

impl Vault {
    /// Well-formed: the contents match the resource's visibility class, and
    /// item identifiers and commitments are sets (no duplicates).
    pub open spec fn wf(&self) -> bool {
        match self.contents {
            VaultContents::Fungible { amount } => self.resource.kind == ResourceKind::Public,
            VaultContents::NonFungible { items } => self.resource.kind == ResourceKind::NonFungible
                && ids_of(items@).no_duplicates(),
            VaultContents::Confidential { commitments } => self.resource.kind
                == ResourceKind::Confidential && commitments@.no_duplicates(),
        }
    }

    /// The plain scalar balance (zero for the other classes).
    pub open spec fn spec_balance(&self) -> u64 {
        self.contents.spec_balance()
    }

    /// The items held (empty for the other classes).
    pub open spec fn spec_items(&self) -> Seq<NftItem> {
        self.contents.spec_items()
    }

    /// The identifiers of the items held.
    pub open spec fn spec_item_ids(&self) -> Seq<u64> {
        ids_of(self.spec_items())
    }

    /// The commitment set held (empty for the other classes).
    pub open spec fn spec_commitments(&self) -> Seq<Commitment> {
        self.contents.spec_commitments()
    }

    /// An empty vault bound to `resource`.
    pub fn new_empty(resource: ResourceIdentity) -> (r: Vault)
        ensures
            r.wf(),
            r.resource == resource,
            r.spec_balance() == 0,
            r.spec_items() == Seq::<NftItem>::empty(),
            r.spec_commitments() == Seq::<Commitment>::empty(),
            resource.kind == ResourceKind::Public ==> r.contents is Fungible,
            resource.kind == ResourceKind::NonFungible ==> r.contents is NonFungible,
            resource.kind == ResourceKind::Confidential ==> r.contents is Confidential,
    {
        let contents = match resource.kind {
            ResourceKind::Public => VaultContents::Fungible { amount: 0 },
            ResourceKind::NonFungible => VaultContents::NonFungible { items: Vec::new() },
            ResourceKind::Confidential => VaultContents::Confidential { commitments: Vec::new() },
        };
        Vault { resource, contents }
    }

    /// The plain balance.
    pub fn balance(&self) -> (r: u64)
        ensures
            r == self.spec_balance(),
    {
        match &self.contents {
            VaultContents::Fungible { amount } => *amount,
            _ => 0,
        }
    }

    /// Borrow the commitment set of a confidential vault.  Commitments are
    /// public data; only the amounts they encode are hidden.
    pub fn commitments(&self) -> (r: &Vec<Commitment>)
        requires
            self.contents is Confidential,
        ensures
            r@ == self.spec_commitments(),
    {
        self.contents.commitments_ref()
    }

    /// Whether a non-fungible item with identifier `item_id` is present.
    pub fn has_item(&self, item_id: u64) -> (r: bool)
        requires
            self.contents is NonFungible,
        ensures
            r == self.spec_item_ids().contains(item_id),
    {
        let items = self.contents.items_ref();
        let mut i: usize = 0;
        while i < items.len()
            invariant
                i <= items@.len(),
                items@ == self.spec_items(),
                forall|k: int| 0 <= k < i ==> items@[k].id != item_id,
            decreases items@.len() - i,
        {
            if items[i].id == item_id {
                assert(self.spec_item_ids()[i as int] == item_id);
                return true;
            }
            i += 1;
        }
        assert forall|k: int| 0 <= k < self.spec_item_ids().len() implies self.spec_item_ids()[k]
            != item_id by {
            assert(items@[k].id != item_id);
        }
        false
    }

    /// Whether `b` can be deposited: it matches the vault's visibility
    /// class, the plain balance does not overflow, and item identifiers and
    /// commitments stay sets.  A confidential deposit carries no revealed
    /// amount: revealed value lives in plain vaults.
    pub open spec fn can_deposit(self, b: Bucket) -> bool {
        match (self.contents, b) {
            (VaultContents::Fungible { amount }, Bucket::Fungible { amount: deposit_amount }) => {
                amount + deposit_amount <= u64::MAX
            },
            (
                VaultContents::NonFungible { items },
                Bucket::NonFungible { items: new_items },
            ) => {
                ids_of(new_items@).no_duplicates() && (forall|i: int|
                    0 <= i < new_items@.len() ==> !ids_of(items@).contains(new_items@[i].id))
            },
            (
                VaultContents::Confidential { commitments },
                Bucket::Confidential { revealed, commitments: new_commitments },
            ) => {
                revealed == 0 && new_commitments@.no_duplicates() && (forall|i: int|
                    0 <= i < new_commitments@.len() ==> !commitments@.contains(
                        new_commitments@[i],
                    ))
            },
            _ => false,
        }
    }

    /// Deposit a bucket.  The vault keeps its resource and visibility
    /// class; the bucket's plain amount, items and commitments are all
    /// absorbed.
    pub fn deposit(&mut self, b: Bucket)
        requires
            old(self).wf(),
            old(self).can_deposit(b),
        ensures
            final(self).wf(),
            final(self).resource == old(self).resource,
            final(self).contents is Fungible == old(self).contents is Fungible,
            final(self).contents is NonFungible == old(self).contents is NonFungible,
            final(self).contents is Confidential == old(self).contents is Confidential,
            final(self).spec_balance() == old(self).spec_balance() + b.spec_amount(),
            final(self).spec_items() == old(self).spec_items() + b.spec_items(),
            final(self).spec_commitments() == old(self).spec_commitments() + b.spec_commitments(),
    {
        match (&mut self.contents, b) {
            (VaultContents::Fungible { amount }, Bucket::Fungible { amount: deposit_amount }) => {
                *amount = *amount + deposit_amount;
                proof {
                    assert(self.spec_items() =~= old(self).spec_items() + Seq::<
                        NftItem,
                    >::empty());
                    assert(self.spec_commitments() =~= old(self).spec_commitments() + Seq::<
                        Commitment,
                    >::empty());
                }
            },
            (
                VaultContents::NonFungible { items },
                Bucket::NonFungible { items: mut new_items },
            ) => {
                proof {
                    lemma_ids_of_concat(items@, new_items@);
                    assert forall|i: int|
                        0 <= i < ids_of(new_items@).len() implies !ids_of(items@).contains(
                        ids_of(new_items@)[i],
                    ) by {
                        assert(ids_of(new_items@)[i] == new_items@[i].id);
                    }
                    lemma_no_dup_concat(ids_of(items@), ids_of(new_items@));
                }
                items.append(&mut new_items);
                proof {
                    assert(self.spec_commitments() =~= old(self).spec_commitments() + Seq::<
                        Commitment,
                    >::empty());
                }
            },
            (
                VaultContents::Confidential { commitments },
                Bucket::Confidential { revealed: _, commitments: mut new_commitments },
            ) => {
                proof {
                    lemma_no_dup_concat(commitments@, new_commitments@);
                }
                commitments.append(&mut new_commitments);
                proof {
                    assert(self.spec_items() =~= old(self).spec_items() + Seq::<
                        NftItem,
                    >::empty());
                }
            },
            _ => {
                proof {
                    assert(false);
                }
            },
        }
    }

    /// Withdraw a plain amount.  Fails with `InsufficientBalance`, leaving
    /// the vault untouched, exactly when the balance is too small.
    pub fn withdraw(&mut self, amount: u64) -> (r: Result<Bucket, CustodyError>)
        requires
            old(self).wf(),
            old(self).contents is Fungible,
        ensures
            final(self).wf(),
            final(self).resource == old(self).resource,
            final(self).contents is Fungible,
            r is Ok <==> amount <= old(self).spec_balance(),
            amount <= old(self).spec_balance() ==> final(self).spec_balance() == old(
                self,
            ).spec_balance() - amount && r == Ok::<Bucket, CustodyError>(
                Bucket::Fungible { amount },
            ),
            amount > old(self).spec_balance() ==> *final(self) == *old(self) && r == Err::<
                Bucket,
                CustodyError,
            >(CustodyError::InsufficientBalance),
    {
        match &mut self.contents {
            VaultContents::Fungible { amount: balance } => {
                if amount <= *balance {
                    *balance = *balance - amount;
                    Ok(Bucket::Fungible { amount })
                } else {
                    Err(CustodyError::InsufficientBalance)
                }
            },
            _ => vstd::pervasive::unreached(),
        }
    }

    /// Confidential withdrawal: the transfer engine.  The proof is checked
    /// in full — range verdict, inputs distinct and present, algebraic
    /// conservation, residual freshness — before any mutation; on success
    /// the consumed inputs are atomically replaced by the residual and the
    /// output commitment leaves in a bucket.  Every failure returns
    /// `InvalidWithdrawProof` (pass/fail only, nothing about the attempted
    /// amount leaks) and leaves the vault untouched.
    pub fn withdraw_confidential(&mut self, p: &ConfidentialWithdrawProof) -> (r: Result<
        Bucket,
        CustodyError,
    >)
        requires
            old(self).wf(),
            old(self).contents is Confidential,
        ensures
            final(self).wf(),
            final(self).resource == old(self).resource,
            final(self).contents is Confidential,
            r is Ok <==> withdraw_accepted(old(self).spec_commitments(), *p),
            !withdraw_accepted(old(self).spec_commitments(), *p) ==> *final(self) == *old(self)
                && r == Err::<Bucket, CustodyError>(CustodyError::InvalidWithdrawProof),
            withdraw_accepted(old(self).spec_commitments(), *p) ==> post_withdraw_set(
                old(self).spec_commitments(),
                final(self).spec_commitments(),
                *p,
            ),
            withdraw_accepted(old(self).spec_commitments(), *p) ==> csum(
                final(self).spec_commitments(),
            ) + p.output.elem == csum(old(self).spec_commitments()),
            withdraw_accepted(old(self).spec_commitments(), *p) ==> (r matches Ok(b)
                && b.spec_amount() == 0 && b.spec_commitments() =~= seq![p.output]),
    {
        let ghost vault0 = self.spec_commitments();

        if !p.range_ok {
            return Err(CustodyError::InvalidWithdrawProof);
        }

        // working copy of the commitment set; the vault itself is not
        // touched until every check has passed
        let current = self.contents.commitments_ref();
        let mut work: Vec<Commitment> = Vec::new();
        let mut i: usize = 0;
        while i < current.len()
            invariant
                i <= current@.len(),
                work@ =~= current@.take(i as int),
            decreases current@.len() - i,
        {
            work.push(current[i]);
            i += 1;
        }
        proof {
            assert(current@.take(current@.len() as int) =~= current@);
            assert(work@ == vault0);
        }

        // consume each input exactly once
        let mut j: usize = 0;
        while j < p.inputs.len()
            invariant
                j <= p.inputs@.len(),
                vault0 == old(self).spec_commitments(),
                *self == *old(self),
                old(self).wf(),
                old(self).contents is Confidential,
                vault0.no_duplicates(),
                p.range_ok,
                work@.no_duplicates(),
                forall|c: Commitment|
                    #[trigger] work@.contains(c) <==> (vault0.contains(c) && !p.inputs@.take(
                        j as int,
                    ).contains(c)),
                csum(work@) == csum(vault0) - csum(p.inputs@.take(j as int)),
                p.inputs@.take(j as int).no_duplicates(),
                forall|k2: int| 0 <= k2 < j ==> vault0.contains(#[trigger] p.inputs@[k2]),
            decreases p.inputs@.len() - j,
        {
            let target = p.inputs[j];
            let ghost jj = j as int;
            let ghost work_before = work@;
            match find_commitment(&work, target) {
                Some(k) => {
                    proof {
                        assert(work_before.contains(target));
                        assert(vault0.contains(target) && !p.inputs@.take(jj).contains(target));
                        lemma_remove_unique(work_before, k as int);
                        lemma_csum_take_succ(p.inputs@, jj);
                        lemma_take_succ(p.inputs@, jj);
                        lemma_push_no_dup(p.inputs@.take(jj), target);
                    }
                    work.remove(k);
                    j += 1;
                    proof {
                        assert(work@ == work_before.remove(k as int));
                        assert(p.inputs@.take(jj + 1) == p.inputs@.take(jj).push(target));
                        assert(j as int == jj + 1);
                        assert forall|c: Commitment|
                            #[trigger] work@.contains(c) <==> (vault0.contains(c)
                                && !p.inputs@.take(j as int).contains(c)) by {
                            lemma_push_contains(p.inputs@.take(jj), target, c);
                            assert(work_before.contains(c) <==> (vault0.contains(c)
                                && !p.inputs@.take(jj).contains(c)));
                            assert(work@.contains(c) <==> (work_before.contains(c) && c
                                != work_before[k as int]));
                        }
                        assert(csum(work@) == csum(work_before) - target.elem);
                        assert(csum(p.inputs@.take(j as int)) == csum(p.inputs@.take(jj))
                            + target.elem);
                        assert(p.inputs@.take(j as int).no_duplicates());
                        assert forall|k2: int| 0 <= k2 < j implies vault0.contains(
                            #[trigger] p.inputs@[k2],
                        ) by {
                            if k2 == jj {
                                assert(vault0.contains(target));
                            }
                        }
                    }
                },
                None => {
                    proof {
                        if withdraw_accepted(vault0, *p) {
                            assert(vault0.contains(p.inputs@[jj]));
                            if p.inputs@.take(jj).contains(p.inputs@[jj]) {
                                let i0 = choose|i0: int|
                                    0 <= i0 < jj && p.inputs@.take(jj)[i0] == p.inputs@[jj];
                                assert(p.inputs@[i0] == p.inputs@[jj]);
                                assert(false);
                            }
                            assert(work@.contains(p.inputs@[jj]));
                            assert(false);
                        }
                    }
                    return Err(CustodyError::InvalidWithdrawProof);
                },
            }
        }
        proof {
            assert(p.inputs@.take(p.inputs@.len() as int) =~= p.inputs@);
        }

        // algebraic conservation: output plus residual must equal the sum
        // of the consumed inputs
        let mut acc: u128 = 0;
        let mut t: usize = 0;
        while t < p.inputs.len()
            invariant
                t <= p.inputs@.len(),
                acc as int == csum(p.inputs@.take(t as int)),
                acc <= (t as u128) * 0xffff_ffff_ffff_ffffu128,
            decreases p.inputs@.len() - t,
        {
            proof {
                lemma_csum_take_succ(p.inputs@, t as int);
            }
            acc = acc + (p.inputs[t].elem as u128);
            t += 1;
        }
        if (p.output.elem as u128) + (p.residual.elem as u128) != acc {
            proof {
                assert(p.inputs@.take(p.inputs@.len() as int) =~= p.inputs@);
                assert(acc as int == csum(p.inputs@));
            }
            return Err(CustodyError::InvalidWithdrawProof);
        }

        // the residual must not collide with a commitment that remains
        match find_commitment(&work, p.residual) {
            Some(k) => {
                proof {
                    assert(work@[k as int] == p.residual);
                    assert(work@.contains(p.residual));
                    assert(p.inputs@.take(p.inputs@.len() as int) =~= p.inputs@);
                    assert(vault0.contains(p.residual) && !p.inputs@.contains(p.residual));
                }
                return Err(CustodyError::InvalidWithdrawProof);
            },
            None => {},
        }

        let ghost work1 = work@;
        proof {
            assert(p.inputs@.take(p.inputs@.len() as int) =~= p.inputs@);
            assert(withdraw_accepted(vault0, *p));
            lemma_push_no_dup(work1, p.residual);
            lemma_csum_push(work1, p.residual);
        }
        work.push(p.residual);
        self.contents = VaultContents::Confidential { commitments: work };
        proof {
            assert(self.spec_commitments() == work1.push(p.residual));
            assert forall|c: Commitment|
                self.spec_commitments().contains(c) <==> ((vault0.contains(c)
                    && !p.inputs@.contains(c)) || c == p.residual) by {
                lemma_push_contains(work1, p.residual, c);
                assert(work1.contains(c) <==> (vault0.contains(c) && !p.inputs@.take(
                    p.inputs@.len() as int,
                ).contains(c)));
            }
        }
        let out = vec![p.output];
        proof {
            assert(out@ =~= seq![p.output]);
        }
        Ok(Bucket::Confidential { revealed: 0, commitments: out })
    }
}

} // verus!
