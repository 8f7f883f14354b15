use monerokon::{
    Bucket, Commitment, ConfidentialOutputStatement, ConfidentialWithdrawProof, CustodyError,
    Monerokon, ResourceRegistry,
};

fn component_with_commitments(elems: &[u64]) -> Monerokon {
    let mut registry = ResourceRegistry::new();
    let first = ConfidentialOutputStatement { commitment: Commitment { elem: elems[0] }, range_ok: true };
    let mut c = Monerokon::new(&mut registry, 1000, first, Vec::new()).unwrap();
    for &e in &elems[1..] {
        let s = ConfidentialOutputStatement { commitment: Commitment { elem: e }, range_ok: true };
        c.mint_confidential(&registry, s);
    }
    c
}

fn proof_of(inputs: &[u64], output: u64, residual: u64) -> ConfidentialWithdrawProof {
    ConfidentialWithdrawProof {
        inputs: inputs.iter().map(|&e| Commitment { elem: e }).collect(),
        output: Commitment { elem: output },
        residual: Commitment { elem: residual },
        range_ok: true,
    }
}

fn plain_fee(amount: u64) -> Bucket {
    Bucket::Fungible { amount }
}

#[test]
fn confidential_withdraw_conserves_value() {
    let mut c = component_with_commitments(&[100]);
    let p = proof_of(&[100], 30, 70);
    let before: u64 = c.confidential_commitments().iter().map(|cm| cm.elem).sum();

    let out = c.withdraw_confidential(plain_fee(10), &p).unwrap();
    match out {
        Bucket::Confidential { revealed, commitments } => {
            assert_eq!(revealed, 0);
            assert_eq!(commitments, vec![Commitment { elem: 30 }]);
        }
        _ => panic!("expected a confidential bucket"),
    }
    let held = c.confidential_commitments();
    assert_eq!(held.as_slice(), &[Commitment { elem: 70 }]);
    // conservation in the commitment domain
    let after: u64 = held.iter().map(|cm| cm.elem).sum();
    assert_eq!(after + 30, before);
    assert_eq!(c.fee_balance(), 10);
    assert_eq!(c.counter(), 1);
}

#[test]
fn confidential_withdraw_multiple_inputs() {
    let mut c = component_with_commitments(&[40, 60, 5]);
    let p = proof_of(&[40, 60], 99, 1);
    let out = c.withdraw_confidential(plain_fee(12), &p);
    assert!(out.is_ok());
    let held = c.confidential_commitments();
    assert_eq!(held.as_slice(), &[Commitment { elem: 5 }, Commitment { elem: 1 }]);
}

#[test]
fn replayed_proof_is_rejected() {
    let mut c = component_with_commitments(&[100]);
    let p = proof_of(&[100], 30, 70);
    assert!(c.withdraw_confidential(plain_fee(10), &p).is_ok());

    let replay = c.withdraw_confidential(plain_fee(10), &p);
    assert_eq!(replay, Err(CustodyError::InvalidWithdrawProof));
    // the failed replay deposited no fee and left the vault alone
    assert_eq!(c.fee_balance(), 10);
    assert_eq!(c.counter(), 1);
    assert_eq!(c.confidential_commitments().as_slice(), &[Commitment { elem: 70 }]);
}

#[test]
fn confidential_fee_floor() {
    let mut c = component_with_commitments(&[100]);
    let p = proof_of(&[100], 30, 70);
    let out = c.withdraw_confidential(plain_fee(9), &p);
    assert_eq!(out, Err(CustodyError::InsufficientFee));
    assert_eq!(c.fee_balance(), 0);
    assert_eq!(c.counter(), 0);
    assert_eq!(c.confidential_commitments().len(), 1);
}

#[test]
fn hidden_fee_rejected_regardless_of_amount() {
    let mut c = component_with_commitments(&[100]);
    let p = proof_of(&[100], 30, 70);
    // plain amount far above the floor, but one commitment rides along
    let fee = Bucket::Confidential {
        revealed: 1_000_000,
        commitments: vec![Commitment { elem: 123 }],
    };
    let out = c.withdraw_confidential(fee, &p);
    assert_eq!(out, Err(CustodyError::FeeContainsHiddenValue));
    assert_eq!(c.fee_balance(), 0);
    assert_eq!(c.counter(), 0);
}

#[test]
fn commitment_free_confidential_fee_accepted() {
    // a fee paid in revealed funds out of a confidential-class bucket
    let mut c = component_with_commitments(&[100]);
    let p = proof_of(&[100], 30, 70);
    let fee = Bucket::Confidential { revealed: 10, commitments: Vec::new() };
    let out = c.withdraw_confidential(fee, &p);
    assert!(out.is_ok());
    assert_eq!(c.fee_balance(), 10);
}

#[test]
fn proof_with_absent_input_rejected() {
    let mut c = component_with_commitments(&[100]);
    let p = proof_of(&[99], 30, 69);
    let out = c.withdraw_confidential(plain_fee(10), &p);
    assert_eq!(out, Err(CustodyError::InvalidWithdrawProof));
    assert_eq!(c.confidential_commitments().as_slice(), &[Commitment { elem: 100 }]);
}

#[test]
fn proof_with_duplicate_inputs_rejected() {
    let mut c = component_with_commitments(&[100]);
    // tries to consume the same commitment twice
    let p = proof_of(&[100, 100], 150, 50);
    let out = c.withdraw_confidential(plain_fee(10), &p);
    assert_eq!(out, Err(CustodyError::InvalidWithdrawProof));
}

#[test]
fn proof_violating_conservation_rejected() {
    let mut c = component_with_commitments(&[100]);
    let p = proof_of(&[100], 30, 71);
    let out = c.withdraw_confidential(plain_fee(10), &p);
    assert_eq!(out, Err(CustodyError::InvalidWithdrawProof));
}

#[test]
fn proof_with_failed_range_check_rejected() {
    let mut c = component_with_commitments(&[100]);
    let mut p = proof_of(&[100], 30, 70);
    p.range_ok = false;
    let out = c.withdraw_confidential(plain_fee(10), &p);
    assert_eq!(out, Err(CustodyError::InvalidWithdrawProof));
}

#[test]
fn proof_with_colliding_residual_rejected() {
    let mut c = component_with_commitments(&[100, 60]);
    // the residual would duplicate a commitment that stays in the vault
    let p = proof_of(&[100], 40, 60);
    let out = c.withdraw_confidential(plain_fee(10), &p);
    assert_eq!(out, Err(CustodyError::InvalidWithdrawProof));
    assert_eq!(c.confidential_commitments().len(), 2);
}
