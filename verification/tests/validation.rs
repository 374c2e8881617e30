use coin_transfer::validation::TransactionRequest;
use coin_transfer::validation::ValidationError;
use coin_transfer::validation::charset_valid;
use coin_transfer::validation::parse_amount_token;
use coin_transfer::validation::validate;

#[test]
fn accepts_plain_amount_token() {
    let req = validate("1000BTC", "1A1zP1eP5QGefi2DMPTfTL5SLmv7DivfNa").unwrap();
    assert_eq!(req.amount(), 1000);
    assert_eq!(req.denomination(), "BTC");
    assert_eq!(req.destination(), "1A1zP1eP5QGefi2DMPTfTL5SLmv7DivfNa");
}

#[test]
fn accepts_token_with_dash_group() {
    let req = validate("1000ERC-20", "ethA1zP1eP5QGefi2DMPTfTL5SLmv7DivfNa").unwrap();
    assert_eq!(req.amount(), 1000);
    assert_eq!(req.denomination(), "ERC-20");
    assert_eq!(req.destination(), "ethA1zP1eP5QGefi2DMPTfTL5SLmv7DivfNa");
}

#[test]
fn rejects_digits_without_letters() {
    assert_eq!(
        validate("1000234", "anyaddress").unwrap_err(),
        ValidationError::MalformedAmountToken
    );
}

#[test]
fn rejects_trailing_invalid_character() {
    assert_eq!(
        validate("239btc!", "anyaddress").unwrap_err(),
        ValidationError::MalformedAmountToken
    );
}

#[test]
fn rejects_address_with_invalid_character() {
    assert_eq!(
        validate("239btc", "aQef!i2b").unwrap_err(),
        ValidationError::InvalidAddress
    );
}

#[test]
fn rejects_empty_amount_token() {
    assert_eq!(
        validate("", "anyaddress").unwrap_err(),
        ValidationError::MalformedAmountToken
    );
}

#[test]
fn rejects_letters_without_digits() {
    assert_eq!(
        validate("btc", "anyaddress").unwrap_err(),
        ValidationError::MalformedAmountToken
    );
}

#[test]
fn rejects_trailing_dash() {
    assert_eq!(
        validate("100btc-", "anyaddress").unwrap_err(),
        ValidationError::MalformedAmountToken
    );
}

#[test]
fn rejects_dash_group_with_letters() {
    assert_eq!(
        validate("100btc-x1", "anyaddress").unwrap_err(),
        ValidationError::MalformedAmountToken
    );
}

#[test]
fn accepts_several_dash_groups() {
    let req = validate("7tok-1-23-456", "addr").unwrap();
    assert_eq!(req.amount(), 7);
    assert_eq!(req.denomination(), "tok-1-23-456");
}

#[test]
fn rejects_empty_address() {
    assert_eq!(
        validate("239btc", "").unwrap_err(),
        ValidationError::InvalidAddress
    );
}

#[test]
fn decomposes_zero_amount_but_rejects_the_request() {
    let (amount, token) = parse_amount_token("0btc").unwrap();
    assert_eq!(amount, 0);
    assert_eq!(token, "btc");
    assert_eq!(
        validate("0btc", "anyaddress").unwrap_err(),
        ValidationError::ZeroAmount
    );
}

#[test]
fn accepts_largest_amount() {
    let (amount, token) = parse_amount_token("18446744073709551615uosmo").unwrap();
    assert_eq!(amount, u64::MAX);
    assert_eq!(token, "uosmo");
}

#[test]
fn rejects_amount_beyond_u64() {
    assert_eq!(
        parse_amount_token("18446744073709551616uosmo").unwrap_err(),
        ValidationError::AmountOutOfRange
    );
    assert_eq!(
        validate("99999999999999999999btc", "anyaddress").unwrap_err(),
        ValidationError::AmountOutOfRange
    );
}

#[test]
fn parse_keeps_leading_zeros_value() {
    let (amount, token) = parse_amount_token("000110uosmo").unwrap();
    assert_eq!(amount, 110);
    assert_eq!(token, "uosmo");
}

#[test]
fn separated_fields_accepted() {
    let req = TransactionRequest::new(110, "uosmo".to_owned(), "osmo1dest".to_owned()).unwrap();
    assert_eq!(req.amount(), 110);
    assert_eq!(req.denomination(), "uosmo");
    assert_eq!(req.destination(), "osmo1dest");
}

#[test]
fn separated_fields_reject_bad_token() {
    assert_eq!(
        TransactionRequest::new(5, "bad token!".to_owned(), "addr".to_owned()).unwrap_err(),
        ValidationError::InvalidTokenCharset
    );
    assert_eq!(
        TransactionRequest::new(5, "".to_owned(), "addr".to_owned()).unwrap_err(),
        ValidationError::InvalidTokenCharset
    );
}

#[test]
fn separated_fields_reject_zero_before_charsets() {
    assert_eq!(
        TransactionRequest::new(0, "bad token!".to_owned(), "addr".to_owned()).unwrap_err(),
        ValidationError::ZeroAmount
    );
}

#[test]
fn charset_check_matches_definition() {
    assert!(charset_valid("AZaz09-_"));
    assert!(!charset_valid(""));
    assert!(!charset_valid("with space"));
    assert!(!charset_valid("q!"));
    assert!(!charset_valid("héllo"));
}

#[test]
fn validation_is_deterministic() {
    let a = validate("110uosmo", "osmo1dest");
    let b = validate("110uosmo", "osmo1dest");
    match (a, b) {
        (Ok(ra), Ok(rb)) => {
            assert_eq!(ra.amount(), rb.amount());
            assert_eq!(ra.denomination(), rb.denomination());
            assert_eq!(ra.destination(), rb.destination());
        }
        _ => panic!("both validations must succeed"),
    }
    let e1 = validate("239btc!", "addr");
    let e2 = validate("239btc!", "addr");
    assert_eq!(e1.unwrap_err(), e2.unwrap_err());
}

#[test]
fn error_messages_name_the_field() {
    assert!(ValidationError::MalformedAmountToken
        .message()
        .contains("amount/token"));
    assert!(ValidationError::InvalidAddress.message().contains("address"));
    assert!(ValidationError::ZeroAmount.message().contains("zero"));
    assert!(ValidationError::AmountOutOfRange.message().contains("large"));
    assert!(ValidationError::InvalidTokenCharset.message().contains("token"));
}
