use stockr::cli::{is_numeric, is_valid_port, is_valid_symbol, Args};

#[test]
fn short_alphabetic_symbols_are_valid() {
    assert!(is_valid_symbol("AAPL"));
    assert!(is_valid_symbol("f"));
    assert!(is_valid_symbol("msft"));
}

#[test]
fn long_or_non_alphabetic_symbols_are_invalid() {
    assert!(!is_valid_symbol("GOOGL")); // five letters: too long
    assert!(!is_valid_symbol("AB1"));
    assert!(!is_valid_symbol(""));
    assert!(!is_valid_symbol("A B"));
    assert!(!is_valid_symbol("A-B"));
}

#[test]
fn numeric_means_digits_only() {
    assert!(is_numeric("12345"));
    assert!(is_numeric("0"));
    assert!(is_numeric("")); // no character breaks the rule
    assert!(!is_numeric("12a"));
    assert!(!is_numeric("-1"));
    assert!(!is_numeric("1 2"));
}

#[test]
fn ports_up_to_65535_are_valid() {
    assert!(is_valid_port("0"));
    assert!(is_valid_port("8080"));
    assert!(is_valid_port("65535"));
    assert!(!is_valid_port("65536"));
    assert!(!is_valid_port("70000"));
    assert!(!is_valid_port("8080a"));
}

#[test]
fn overlong_ports_are_rejected_without_a_crash() {
    assert!(!is_valid_port("999999999999999999999999999999"));
    assert!(!is_valid_port("18446744073709551616")); // one past u64
}

#[test]
fn leading_zeros_read_as_the_same_value() {
    assert!(is_valid_port("00080"));
    assert!(is_valid_port("000000000000000000000000000001"));
}

#[test]
fn args_hold_symbol_and_port() {
    let args = Args { symbol: String::from("AAPL"), port: Some(8080) };
    assert_eq!(args.symbol, "AAPL");
    assert_eq!(args.port, Some(8080));
    let defaulted = Args { symbol: args.symbol.clone(), port: None };
    assert!(defaulted.port.is_none());
}
