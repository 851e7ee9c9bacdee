use near_ibc::deposit::{check_wasm_storage, refund_deposit, ExtraDepositCost, MINIMUM_DEPOSIT_FOR_DELEVER_MSG, minimum_deposit_for_messages};

#[test]
fn extra_deposit_cost_reads_back() {
    let zero = ExtraDepositCost::reset();
    assert_eq!(zero, vec![0u8; 16]);
    assert_eq!(ExtraDepositCost::get(Some(&zero)).0, 0);
    assert_eq!(ExtraDepositCost::get(None).0, 0);
    let once = ExtraDepositCost::add(Some(&zero), 300);
    let twice = ExtraDepositCost::add(Some(&once), 5);
    assert_eq!(ExtraDepositCost::get(Some(&twice)).0, 305);
    assert_eq!(ExtraDepositCost::add(None, 1), 1u128.to_le_bytes().to_vec());
}

#[test]
fn refund_takes_storage_and_extra_cost() {
    assert_eq!(refund_deposit(100, 0, 10, 10, 1), Some(100));
    assert_eq!(refund_deposit(100, 30, 10, 10, 1), Some(70));
    assert_eq!(refund_deposit(100, 30, 15, 10, 2), Some(60));
    assert_eq!(refund_deposit(100, 90, 15, 10, 2), None);
    assert_eq!(refund_deposit(0, 0, 15, 10, 0), None);
    assert_eq!(refund_deposit(0, 0, 5, 10, 3), Some(0));
}

#[test]
fn deliver_deposit_scales_with_messages() {
    assert_eq!(minimum_deposit_for_messages(3), 3 * MINIMUM_DEPOSIT_FOR_DELEVER_MSG);
}

#[test]
fn wasm_storage_check() {
    assert_eq!(check_wasm_storage(100, 50, 60, 2, 0), Ok(()));
    assert_eq!(check_wasm_storage(100, 60, 50, 2, 220), Ok(()));
    assert_eq!(check_wasm_storage(100, 60, 50, 2, 200), Err(20));
}
