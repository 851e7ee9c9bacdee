use near_ibc::types::{CoinsError, TransferringCoins};

fn coins(trace_path: &str, base_denom: &str, amount: &str) -> TransferringCoins {
    TransferringCoins { trace_path: trace_path.to_string(), base_denom: base_denom.to_string(), amount: amount.to_string() }
}

#[test]
fn coins_that_parse() {
    assert_eq!(coins("", "usdt", "100").check(), Ok(()));
    assert_eq!(coins("transfer/channel-0", "uatom", "0").check(), Ok(()));
    assert_eq!(coins("transfer/channel-0", "uatom", "").check(), Ok(()));
    let max = "115792089237316195423570985008687907853269984665640564039457584007913129639935";
    assert_eq!(coins("", "usdt", max).check(), Ok(()));
}

#[test]
fn coins_that_do_not_parse() {
    assert_eq!(coins("transfer", "usdt", "1").check(), Err(CoinsError::InvalidTracePath));
    assert_eq!(coins("transfer", " ", "x").check(), Err(CoinsError::InvalidTracePath));
    assert_eq!(coins("", " \t", "1").check(), Err(CoinsError::InvalidBaseDenom));
    assert_eq!(coins("", "usdt", "12a").check(), Err(CoinsError::InvalidAmount));
    assert_eq!(coins("", "usdt", "-1").check(), Err(CoinsError::InvalidAmount));
    let over = "115792089237316195423570985008687907853269984665640564039457584007913129639936";
    assert_eq!(coins("", "usdt", over).check(), Err(CoinsError::InvalidAmount));
    assert_eq!(CoinsError::InvalidAmount.message(), "ERR_INVALID_AMOUNT");
}
