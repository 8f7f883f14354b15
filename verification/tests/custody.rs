use monerokon::{
    fee_resource, method_access, AccessRule, Bucket, Commitment, ConfidentialOutputStatement,
    CustodyError, MethodName, Monerokon, NftItem, ResourceKind, ResourceRegistry, FEE,
    FEE_RESOURCE_ID,
};

fn valid_statement(elem: u64) -> ConfidentialOutputStatement {
    ConfidentialOutputStatement { commitment: Commitment { elem }, range_ok: true }
}

fn fresh_component(initial_supply: u64) -> Monerokon {
    let mut registry = ResourceRegistry::new();
    Monerokon::new(&mut registry, initial_supply, valid_statement(100), Vec::new()).unwrap()
}

#[test]
fn construct_and_withdraw_scenario() {
    let mut c = fresh_component(1000);
    assert_eq!(c.get_balance(), 1000);
    assert_eq!(c.fee_balance(), 0);
    assert_eq!(c.counter(), 0);

    let out = c.withdraw(Bucket::Fungible { amount: 10 }, 200);
    assert_eq!(out, Ok(Bucket::Fungible { amount: 200 }));
    assert_eq!(c.get_balance(), 800);
    assert_eq!(c.fee_balance(), 10);
    assert_eq!(c.counter(), 1);
}

#[test]
fn insufficient_fee_changes_nothing() {
    let mut c = fresh_component(1000);
    let out = c.withdraw(Bucket::Fungible { amount: 10 }, 200);
    assert!(out.is_ok());

    let out2 = c.withdraw(Bucket::Fungible { amount: 5 }, 100);
    assert_eq!(out2, Err(CustodyError::InsufficientFee));
    assert_eq!(c.get_balance(), 800);
    assert_eq!(c.fee_balance(), 10);
    assert_eq!(c.counter(), 1);
}

#[test]
fn fee_exactly_at_floor_is_accepted() {
    let mut c = fresh_component(50);
    assert_eq!(FEE, 10);
    let out = c.withdraw(Bucket::Fungible { amount: FEE }, 50);
    assert_eq!(out, Ok(Bucket::Fungible { amount: 50 }));
    assert_eq!(c.get_balance(), 0);
}

#[test]
fn insufficient_balance_rejects_fee_too() {
    // chosen ordering policy: every precondition is validated before any
    // mutation, so a balance failure leaves the fee undeposited and the
    // counter unchanged
    let mut c = fresh_component(100);
    let out = c.withdraw(Bucket::Fungible { amount: 10 }, 101);
    assert_eq!(out, Err(CustodyError::InsufficientBalance));
    assert_eq!(c.get_balance(), 100);
    assert_eq!(c.fee_balance(), 0);
    assert_eq!(c.counter(), 0);
}

#[test]
fn withdraw_whole_balance() {
    let mut c = fresh_component(100);
    let out = c.withdraw(Bucket::Fungible { amount: 25 }, 100);
    assert_eq!(out, Ok(Bucket::Fungible { amount: 100 }));
    assert_eq!(c.get_balance(), 0);
    assert_eq!(c.fee_balance(), 25);
}

#[test]
fn withdraw_zero_amount() {
    let mut c = fresh_component(0);
    let out = c.withdraw(Bucket::Fungible { amount: 10 }, 0);
    assert_eq!(out, Ok(Bucket::Fungible { amount: 0 }));
    assert_eq!(c.get_balance(), 0);
    assert_eq!(c.fee_balance(), 10);
    assert_eq!(c.counter(), 1);
}

#[test]
fn construction_rejected_statement() {
    let mut registry = ResourceRegistry::new();
    let bad = ConfidentialOutputStatement { commitment: Commitment { elem: 7 }, range_ok: false };
    let r = Monerokon::new(&mut registry, 10, bad, Vec::new());
    assert!(matches!(r, Err(CustodyError::ConstructionError)));
    // a rejected construction leaves the registry untouched
    assert_eq!(registry.next_id, 1);
}

#[test]
fn construction_seeds_nft_vault() {
    let mut registry = ResourceRegistry::new();
    let items = vec![
        NftItem { id: 1, metadata: String::new() },
        NftItem { id: 2, metadata: String::new() },
    ];
    let c = Monerokon::new(&mut registry, 0, valid_statement(3), items).unwrap();
    assert!(c.nft_vault.has_item(1));
    assert!(c.nft_vault.has_item(2));
    assert!(!c.nft_vault.has_item(3));
    assert_eq!(registry.next_id, 4);
}

#[test]
fn mint_fungible_increases_supply() {
    let registry = ResourceRegistry::new();
    let mut c = fresh_component(5);
    c.mint_fungible(&registry, 37);
    assert_eq!(c.get_balance(), 42);
    assert_eq!(c.counter(), 0);
}

#[test]
fn duplicate_item_id_rejected() {
    let registry = ResourceRegistry::new();
    let mut c = fresh_component(0);
    let first = c.mint_non_fungible(&registry, 3, String::from("beep-boop"));
    assert_eq!(first, Ok(()));
    let second = c.mint_non_fungible(&registry, 3, String::from("beep-boop"));
    assert_eq!(second, Err(CustodyError::DuplicateItemId));
    assert!(c.nft_vault.has_item(3));
}

#[test]
fn mint_confidential_adds_commitment() {
    let registry = ResourceRegistry::new();
    let mut c = fresh_component(0);
    c.mint_confidential(&registry, valid_statement(77));
    let held = c.confidential_commitments();
    assert_eq!(held.len(), 2);
    assert_eq!(held[0], Commitment { elem: 100 });
    assert_eq!(held[1], Commitment { elem: 77 });
}

#[test]
fn counter_accessor_and_increase() {
    let mut c = fresh_component(0);
    assert_eq!(c.counter(), 0);
    c.increase();
    c.increase();
    assert_eq!(c.counter(), 2);
}

#[test]
fn counter_counts_only_successes() {
    let mut c = fresh_component(300);
    let mut expected: u32 = 0;
    assert!(c.withdraw(Bucket::Fungible { amount: 10 }, 100).is_ok());
    expected += 1;
    assert!(c.withdraw(Bucket::Fungible { amount: 9 }, 10).is_err());
    assert!(c.withdraw(Bucket::Fungible { amount: 10 }, 1000).is_err());
    assert!(c.withdraw(Bucket::Fungible { amount: 10 }, 200).is_ok());
    expected += 1;
    assert_eq!(c.counter(), expected);
}

#[test]
fn access_policy_enumeration() {
    assert_eq!(method_access(MethodName::Withdraw), AccessRule::AllowAll);
    assert_eq!(method_access(MethodName::WithdrawConfidential), AccessRule::AllowAll);
    assert_eq!(method_access(MethodName::GetBalance), AccessRule::Restricted);
    assert_eq!(method_access(MethodName::MintFungible), AccessRule::Restricted);
    assert_eq!(method_access(MethodName::MintNonFungible), AccessRule::Restricted);
    assert_eq!(method_access(MethodName::MintConfidential), AccessRule::Restricted);
    assert_eq!(method_access(MethodName::Counter), AccessRule::Restricted);
    assert_eq!(method_access(MethodName::Increase), AccessRule::Restricted);
}

#[test]
fn fee_resource_is_public_and_reserved() {
    let r = fee_resource();
    assert_eq!(r.id, FEE_RESOURCE_ID);
    assert_eq!(r.kind, ResourceKind::Public);
    // the registry never hands the reserved identity out
    let mut registry = ResourceRegistry::new();
    let created = registry.create_resource(ResourceKind::Public);
    assert_ne!(created.id, FEE_RESOURCE_ID);
}

#[test]
fn error_descriptions_are_nonempty() {
    let all = [
        CustodyError::ConstructionError,
        CustodyError::InsufficientFee,
        CustodyError::FeeContainsHiddenValue,
        CustodyError::InsufficientBalance,
        CustodyError::InvalidWithdrawProof,
        CustodyError::DuplicateItemId,
    ];
    for e in all {
        assert!(!e.describe().is_empty());
    }
}

#[test]
fn bucket_amount_by_class() {
    assert_eq!(Bucket::Fungible { amount: 7 }.amount(), 7);
    assert_eq!(
        Bucket::NonFungible { items: vec![NftItem { id: 1, metadata: String::new() }] }.amount(),
        0
    );
    let b = Bucket::Confidential { revealed: 9, commitments: vec![Commitment { elem: 4 }] };
    assert_eq!(b.amount(), 9);
    assert!(!b.contains_no_confidential_funds());
    assert!(Bucket::Confidential { revealed: 9, commitments: Vec::new() }
        .contains_no_confidential_funds());
}
