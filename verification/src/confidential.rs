//! Confidential value: commitments, output statements, withdraw proofs and
//! the acceptance predicate of the confidential transfer engine.
//!
//! Amounts are hidden behind commitments.  This core never reads a committed
//! amount; it moves commitments between vaults and buckets and checks the
//! engine's algebraic relations over them.  The commitment domain is modeled
//! additively: the element carried by a commitment adds homomorphically, so
//! conservation of hidden value is an exact equation over elements, checked
//! without ever producing a plaintext amount for any single commitment.

use vstd::prelude::*;

verus! {

/// A value commitment: the cryptographic encoding of one hidden amount, as
/// an element of the engine's additive commitment domain.
#[derive(Clone, Copy, Debug, PartialEq, Eq, Structural)]
pub struct Commitment {
    pub elem: u64,
}

/// Externally supplied description of one new commitment, used to seed or
/// mint confidential value.  `range_ok` records the verdict of the
/// statement's attached well-formedness proof (the committed value is in
/// range); the cryptographic check itself happens outside this core.
#[derive(Clone, Copy, Debug, PartialEq, Eq, Structural)]
pub struct ConfidentialOutputStatement {
    pub commitment: Commitment,
    pub range_ok: bool,
}

/// Externally supplied proof authorizing a confidential withdrawal: the
/// presenter asks to consume `inputs` from a vault, take `output` away in a
/// bucket and leave `residual` behind as change.  `range_ok` records the
/// verdict of the proof's range / non-negativity component, checked by
/// cryptography outside this core; everything else the engine checks itself.
#[derive(Clone, Debug, PartialEq, Eq)]
pub struct ConfidentialWithdrawProof {
    pub inputs: Vec<Commitment>,
    pub output: Commitment,
    pub residual: Commitment,
    pub range_ok: bool,
}

/// Sum, in the commitment domain, of a sequence of commitments.
pub open spec fn csum(s: Seq<Commitment>) -> int
    decreases s.len(),
{
    if s.len() == 0 {
        0
    } else {
        csum(s.drop_last()) + s.last().elem
    }
}

/// Exactly when the confidential transfer engine accepts `p` against a vault
/// holding the commitment set `vault`: the range component checks out, the
/// inputs are distinct and all present in the vault, output plus residual
/// conserve the consumed value, and the residual commitment is fresh with
/// respect to the commitments that remain after the inputs are consumed.
pub open spec fn withdraw_accepted(vault: Seq<Commitment>, p: ConfidentialWithdrawProof) -> bool {
    &&& p.range_ok
    &&& p.inputs@.no_duplicates()
    &&& (forall|i: int| 0 <= i < p.inputs@.len() ==> vault.contains(p.inputs@[i]))
    &&& p.output.elem + p.residual.elem == csum(p.inputs@)
    &&& !(vault.contains(p.residual) && !p.inputs@.contains(p.residual))
}

/// The commitment set a successful withdrawal leaves behind, described
/// element-wise: the consumed inputs are gone, the residual has appeared,
/// and nothing else changed.
pub open spec fn post_withdraw_set(
    before: Seq<Commitment>,
    after: Seq<Commitment>,
    p: ConfidentialWithdrawProof,
) -> bool {
    forall|c: Commitment|
        after.contains(c) <==> ((before.contains(c) && !p.inputs@.contains(c)) || c
            == p.residual)
}

/// Membership in a pushed sequence.
pub proof fn lemma_push_contains(s: Seq<Commitment>, x: Commitment, c: Commitment)
    ensures
        s.push(x).contains(c) <==> (s.contains(c) || c == x),
{
    if s.contains(c) {
        let i = choose|i: int| 0 <= i < s.len() && s[i] == c;
        assert(s.push(x)[i] == c);
    }
    if c == x {
        assert(s.push(x)[s.len() as int] == c);
    }
    if s.push(x).contains(c) {
        let i = choose|i: int| 0 <= i < s.push(x).len() && s.push(x)[i] == c;
        if i < s.len() {
            assert(s[i] == c);
        }
    }
}

/// Taking one more element appends exactly that element.
pub proof fn lemma_take_succ(s: Seq<Commitment>, j: int)
    requires
        0 <= j < s.len(),
    ensures
        s.take(j + 1) =~= s.take(j).push(s[j]),
{
}

/// `csum` over the one-longer prefix.
pub proof fn lemma_csum_take_succ(s: Seq<Commitment>, j: int)
    requires
        0 <= j < s.len(),
    ensures
        csum(s.take(j + 1)) == csum(s.take(j)) + s[j].elem,
{
    assert(s.take(j + 1).drop_last() =~= s.take(j));
    assert(s.take(j + 1).last() == s[j]);
}

/// `csum` over a push.
pub proof fn lemma_csum_push(s: Seq<Commitment>, x: Commitment)
    ensures
        csum(s.push(x)) == csum(s) + x.elem,
{
    assert(s.push(x).drop_last() =~= s);
    assert(s.push(x).last() == x);
}

/// Removing one element subtracts exactly its contribution from the sum.
pub proof fn lemma_csum_remove(s: Seq<Commitment>, k: int)
    requires
        0 <= k < s.len(),
    ensures
        csum(s.remove(k)) == csum(s) - s[k].elem,
    decreases s.len(),
{
    if k == s.len() - 1 {
        assert(s.remove(k) =~= s.drop_last());
    } else {
        assert(s.remove(k).drop_last() =~= s.drop_last().remove(k));
        assert(s.remove(k).last() == s.last());
        lemma_csum_remove(s.drop_last(), k);
        assert(s.drop_last()[k] == s[k]);
    }
}

/// Removing the only occurrence of an element from a duplicate-free
/// sequence: the result is still duplicate-free, contains everything else,
/// and its sum lost exactly the removed element's contribution.
pub proof fn lemma_remove_unique(s: Seq<Commitment>, k: int)
    requires
        0 <= k < s.len(),
        s.no_duplicates(),
    ensures
        s.remove(k).no_duplicates(),
        forall|c: Commitment| s.remove(k).contains(c) <==> (s.contains(c) && c != s[k]),
        csum(s.remove(k)) == csum(s) - s[k].elem,
{
    lemma_csum_remove(s, k);
    let r = s.remove(k);
    assert(forall|i: int|
        0 <= i < r.len() ==> r[i] == (if i < k {
            s[i]
        } else {
            s[i + 1]
        }));
    assert forall|c: Commitment| r.contains(c) implies (s.contains(c) && c != s[k]) by {
        let i = choose|i: int| 0 <= i < r.len() && r[i] == c;
        if i < k {
            assert(s[i] == c);
        } else {
            assert(s[i + 1] == c);
        }
    }
    assert forall|c: Commitment| s.contains(c) && c != s[k] implies r.contains(c) by {
        let i = choose|i: int| 0 <= i < s.len() && s[i] == c;
        if i < k {
            assert(r[i] == c);
        } else {
            assert(i != k);
            assert(r[i - 1] == c);
        }
    }
}

/// No double-spend: a proof that the engine accepted cannot be accepted
/// again against the commitment set that the same withdrawal produced.  The
/// one exception is the degenerate proof whose input set is exactly its own
/// residual: it moves no net value (its output commits the identity
/// element), and replaying it reproduces the same vault state.
pub proof fn lemma_no_double_spend(
    before: Seq<Commitment>,
    after: Seq<Commitment>,
    p: ConfidentialWithdrawProof,
)
    requires
        withdraw_accepted(before, p),
        post_withdraw_set(before, after, p),
        !(p.inputs@.len() == 1 && p.inputs@[0] == p.residual),
    ensures
        !withdraw_accepted(after, p),
{
    assert(after.contains(p.residual));
    if p.inputs@.len() == 0 {
        // the residual now sits in the vault but is not among the inputs, so
        // the freshness clause fails on replay
        assert(!p.inputs@.contains(p.residual));
    } else {
        if forall|i: int| 0 <= i < p.inputs@.len() ==> p.inputs@[i] == p.residual {
            assert(p.inputs@[0] == p.residual);
            if p.inputs@.len() >= 2 {
                assert(p.inputs@[0] == p.inputs@[1]);
                assert(false);
            }
            assert(false);
        }
        let i = choose|i: int| 0 <= i < p.inputs@.len() && p.inputs@[i] != p.residual;
        assert(p.inputs@.contains(p.inputs@[i]));
        assert(!after.contains(p.inputs@[i]));
    }
}

} // verus!
