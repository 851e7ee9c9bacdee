use near_ibc::accounts::{
    assert_ancestor_account, assert_grandparent_account, assert_parent_account, assert_root_account, assert_sub_account,
    get_escrow_factory_contract_id, get_grandparent_account_id, get_token_factory_contract_id, AccessError,
};
use near_ibc::text::{count_char, ends_with, find_nth_char, same_text, text_after_nth, text_before_nth, text_split_part};

#[test]
fn root_account_is_last_two_parts() {
    assert!(assert_root_account("a.b.near-ibc.near", "near-ibc.near").is_ok());
    assert!(assert_root_account("near-ibc.near", "near-ibc.near").is_ok());
    assert!(matches!(assert_root_account("a.b.near-ibc.near", "b.near-ibc.near"), Err(AccessError::NotRootAccount)));
}

#[test]
fn parent_and_grandparent_accounts() {
    assert!(assert_parent_account("tok.tf.transfer.near", "tf.transfer.near").is_ok());
    assert!(matches!(assert_parent_account("tok.tf.transfer.near", "transfer.near"), Err(AccessError::NotParentAccount)));
    assert!(assert_grandparent_account("tok.tf.transfer.near", "transfer.near").is_ok());
    assert!(matches!(assert_grandparent_account("tf.transfer.near", "near"), Err(AccessError::NotGrandparentAccount)));
    assert_eq!(get_grandparent_account_id("tok.tf.transfer.near").unwrap(), "transfer.near".to_string());
    assert!(matches!(get_grandparent_account_id("tf.transfer.near"), Err(AccessError::NoGrandparentAccount)));
}

#[test]
fn sub_and_ancestor_accounts() {
    assert!(assert_sub_account("near-ibc.near", "channel-0.ef.transfer.near-ibc.near").is_ok());
    assert!(matches!(assert_sub_account("near-ibc.near", "xnear-ibc.near"), Err(AccessError::NotSubAccount)));
    assert!(assert_ancestor_account("tf.transfer.near-ibc.near", "near-ibc.near").is_ok());
    assert!(matches!(assert_ancestor_account("tf.transfer.near-ibc.near", "ibc.near"), Err(AccessError::NotAncestorAccount)));
}

#[test]
fn factory_account_ids() {
    assert_eq!(get_token_factory_contract_id("near-ibc.testnet"), Some("tf.transfer.near-ibc.testnet".to_string()));
    assert_eq!(get_escrow_factory_contract_id("near-ibc.testnet"), Some("ef.transfer.near-ibc.testnet".to_string()));
    assert_eq!(get_token_factory_contract_id(&"x".repeat(53)), None);
    assert_eq!(get_escrow_factory_contract_id(&"x".repeat(52)), Some(format!("ef.transfer.{}", "x".repeat(52))));
    assert_eq!(AccessError::NotParentAccount.message(), "ERR_ONLY_PARENT_ACCOUNT_CAN_CALL_THIS_METHOD");
}

#[test]
fn text_helpers() {
    assert_eq!(count_char("a.b.c", '.'), 2);
    assert_eq!(find_nth_char("a.b.c", '.', 1), Some(3));
    assert_eq!(find_nth_char("a.b.c", '.', 2), None);
    assert_eq!(text_after_nth("a.b.c", '.', 0), Some("b.c".to_string()));
    assert_eq!(text_before_nth("a.b.c", '.', 1), Some("a.b".to_string()));
    assert_eq!(text_before_nth("abc", '.', 0), None);
    assert!(ends_with("abc.near", ".near"));
    assert!(!ends_with("near", ".near"));
    assert!(same_text("x", "x"));
    assert!(!same_text("x", "y"));
    assert_eq!(text_split_part("transfer/channel-0/transfer/channel-1", '/', 1), Some("channel-0".to_string()));
    assert_eq!(text_split_part("transfer/channel-0", '/', 0), Some("transfer".to_string()));
    assert_eq!(text_split_part("transfer/channel-0", '/', 1), Some("channel-0".to_string()));
    assert_eq!(text_split_part("transfer", '/', 1), None);
    assert_eq!(text_split_part("a//b", '/', 1), Some("".to_string()));
}
