use nnsdao::disburse::Amount;
use nnsdao::disburse::DisburseService;
use nnsdao::disburse::Disbursement;
use nnsdao::types::Principal;

fn disbursement(tag: &str, amount: u64) -> Disbursement {
    Disbursement {
        canister: tag.to_string(),
        token_idf: "tok".to_string(),
        from_subaccount: None,
        to: Principal { id: 42 },
        to_subaccount: None,
        amount: Amount::NDP(amount),
        try_num: 0,
    }
}

#[test]
fn subaccount_counter_yields_distinct_values() {
    let mut service = DisburseService::default();
    let mut seen = Vec::new();
    for _ in 0..5 {
        let num = service.get_new_subaccount_num();
        assert!(num >= 1);
        assert!(!seen.contains(&num));
        seen.push(num);
    }
    assert_eq!(seen, vec![1, 2, 3, 4, 5]);
}

#[test]
fn subaccount_counter_wraps_from_max_to_one_never_zero() {
    let mut service = DisburseService::default();
    service.subaccount_num = u128::MAX;
    let num = service.get_new_subaccount_num();
    assert_eq!(num, 1);
    assert_ne!(num, 0);
    assert_eq!(service.get_new_subaccount_num(), 2);
}

#[test]
fn transaction_subaccounts_encode_counter_and_differ() {
    let mut service = DisburseService::default();
    let first = service.get_transaction_subaccount();
    assert_eq!(first.0.len(), 32);
    let mut expected = vec![0u8; 32];
    expected[31] = 1;
    assert_eq!(first.0, expected);
    let second = service.get_transaction_subaccount();
    assert_eq!(second.0[31], 2);
    assert_ne!(first.0, second.0);
}

#[test]
fn transaction_subaccount_encodes_big_endian_tail() {
    let mut service = DisburseService::default();
    service.subaccount_num = 0x0102;
    let sub = service.get_transaction_subaccount();
    // counter is now 0x0103, written big-endian into the last 16 bytes
    assert_eq!(sub.0[30], 0x01);
    assert_eq!(sub.0[31], 0x03);
    assert!(sub.0[..30].iter().all(|&b| b == 0));
}

#[test]
fn drains_deliver_in_stack_order() {
    // three items added, two successful drains: the two most recently
    // added items go out first, one stays pending.
    let mut service = DisburseService::default();
    service.add_disbursement(disbursement("d1", 1));
    service.add_disbursement(disbursement("d2", 2));
    service.add_disbursement(disbursement("d3", 3));
    let first = service.begin_pending_disbursement().unwrap();
    assert_eq!(first.canister, "d3");
    service.finish_pending_disbursement(first, true);
    let second = service.begin_pending_disbursement().unwrap();
    assert_eq!(second.canister, "d2");
    service.finish_pending_disbursement(second, true);
    assert_eq!(service.disbursements_queue.len(), 1);
    assert_eq!(service.disbursements_queue[0].canister, "d1");
    assert!(service.failed_disbursements.is_empty());
    assert!(!service.disbursements_process_lock);
}

#[test]
fn held_lock_blocks_both_drains() {
    let mut service = DisburseService::default();
    service.add_disbursement(disbursement("d1", 1));
    service.add_disbursement(disbursement("d2", 2));
    let inflight = service.begin_pending_disbursement().unwrap();
    assert!(service.begin_pending_disbursement().is_none());
    assert!(service.begin_failed_disbursement().is_none());
    service.finish_pending_disbursement(inflight, true);
    assert!(service.begin_pending_disbursement().is_some());
}

#[test]
fn failed_delivery_requeues_with_bumped_retry_counter() {
    let mut service = DisburseService::default();
    service.add_disbursement(disbursement("d1", 1));
    let item = service.begin_pending_disbursement().unwrap();
    service.finish_pending_disbursement(item, false);
    assert!(service.disbursements_queue.is_empty());
    assert_eq!(service.failed_disbursements.len(), 1);
    assert_eq!(service.failed_disbursements[0].try_num, 1);
    let retry = service.begin_failed_disbursement().unwrap();
    assert_eq!(retry.try_num, 1);
    service.finish_failed_disbursement(retry, false);
    assert_eq!(service.failed_disbursements.len(), 1);
    assert_eq!(service.failed_disbursements[0].try_num, 2);
    let retry2 = service.begin_failed_disbursement().unwrap();
    service.finish_failed_disbursement(retry2, true);
    assert!(service.failed_disbursements.is_empty());
}

#[test]
fn empty_backlogs_yield_no_work() {
    let mut service = DisburseService::default();
    assert!(service.begin_pending_disbursement().is_none());
    assert!(service.begin_failed_disbursement().is_none());
    assert!(!service.disbursements_process_lock);
}

#[test]
fn amount_renders_with_currency_tag() {
    assert_eq!(Amount::NDP(5).describe(), "NDP:5");
    assert_eq!(Amount::ICP(1234567890).describe(), "ICP:1234567890");
    assert_eq!(Amount::NDP(0).describe(), "NDP:0");
}
