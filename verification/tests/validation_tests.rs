//! Tests of symbol validation, numeric input parsing, and the error
//! recovery strategy picker.

use stock_trading::validation::{
    ErrorRecoveryManager, InputParser, OrderError, OrderValidator, ParseError, RecoveryStrategy,
    SymbolError, SymbolValidator,
};

#[test]
fn test_quantity_validation() {
    let validator = OrderValidator::new();

    // Valid quantities
    assert!(validator.validate_quantity(1).is_ok());
    assert!(validator.validate_quantity(100).is_ok());
    assert!(validator.validate_quantity(1000).is_ok());

    // Invalid quantities
    assert!(validator.validate_quantity(0).is_err());
    assert!(validator.validate_quantity(10_000_000).is_err());
}

#[test]
fn test_price_bounds() {
    let validator = OrderValidator::new();
    // prices are hundredths: one hundredth up to a million units
    assert_eq!(validator.validate_price(1050).unwrap(), 1050);
    assert_eq!(validator.validate_price(1).unwrap(), 1);
    assert_eq!(validator.validate_price(100_000).unwrap(), 100_000);
    assert_eq!(
        validator.validate_price(0),
        Err(OrderError::PriceBelowMinimum)
    );
    assert_eq!(
        validator.validate_price(100_000_001),
        Err(OrderError::PriceAboveMaximum)
    );
}

#[test]
fn test_order_kinds_and_value() {
    let validator = OrderValidator::new();
    assert_eq!(validator.validate_limit_order(Some(1050)).unwrap(), 1050);
    assert_eq!(
        validator.validate_limit_order(None),
        Err(OrderError::PriceRequired)
    );
    assert!(validator.validate_market_order(None).is_ok());
    assert_eq!(
        validator.validate_market_order(Some(1050)),
        Err(OrderError::PriceNotAccepted)
    );

    // a buy stop sits above the market, a sell stop below it
    assert_eq!(validator.validate_stop_price(1100, 1000, true).unwrap(), 1100);
    assert_eq!(
        validator.validate_stop_price(900, 1000, true),
        Err(OrderError::StopNotAboveMarket)
    );
    assert_eq!(validator.validate_stop_price(900, 1000, false).unwrap(), 900);
    assert_eq!(
        validator.validate_stop_price(1100, 1000, false),
        Err(OrderError::StopNotBelowMarket)
    );

    // 100 shares at 150.00 is a value of 15,000.00
    assert_eq!(
        validator.validate_order_value(100, 15000, 2_000_000).unwrap(),
        1_500_000
    );
    assert_eq!(
        validator.validate_order_value(100, 15000, 1_000_000),
        Err(OrderError::ValueAboveMaximum)
    );
}

#[test]
fn test_symbol_validation() {
    let validator = SymbolValidator::new();

    // Valid symbols
    assert!(validator.validate_symbol("AAPL").is_ok());
    assert!(validator.validate_symbol("GOOGL").is_ok());
    assert!(validator.validate_symbol("A").is_ok());

    // Invalid symbols
    assert!(validator.validate_symbol("").is_err());
    assert!(validator.validate_symbol("TOOLONG").is_err());
    assert!(validator.validate_symbol("123").is_err());
    assert!(validator.validate_symbol("AA$PL").is_err());
}

#[test]
fn test_symbol_suggestions() {
    let validator = SymbolValidator::new();

    let suggestions = validator.suggest_corrections(" aapl ");
    assert!(suggestions.contains(&"AAPL".to_string()));

    let suggestions = validator.suggest_corrections("AA$PL");
    assert!(suggestions.iter().any(|s| !s.contains('$')));
}

#[test]
fn test_symbol_normalisation() {
    let validator = SymbolValidator::new();
    assert_eq!(validator.validate_symbol(" aapl ").unwrap(), "AAPL");
    assert_eq!(validator.validate_symbol("msft").unwrap(), "MSFT");
}

#[test]
fn test_symbol_error_kinds() {
    let validator = SymbolValidator::new();
    assert_eq!(
        validator.validate_symbol("   "),
        Err(SymbolError::EmptySymbol)
    );
    assert_eq!(
        validator.validate_symbol("TOOLONG"),
        Err(SymbolError::TooLong)
    );
    assert_eq!(
        validator.validate_symbol("AA$PL"),
        Err(SymbolError::InvalidCharacter)
    );
    assert_eq!(
        validator.validate_symbol("123"),
        Err(SymbolError::MustStartWithLetter)
    );

    let strict = SymbolValidator::with_config(2, 6, false, false);
    assert_eq!(strict.validate_symbol("A"), Err(SymbolError::TooShort));
    assert_eq!(
        strict.validate_symbol("AB1"),
        Err(SymbolError::NumberNotAllowed)
    );
    assert!(strict.validate_symbol("ABCDEF").is_ok());
}

#[test]
fn test_quantity_parsing() {
    assert_eq!(InputParser::parse_quantity("100").unwrap(), 100);
    assert_eq!(InputParser::parse_quantity("1,000").unwrap(), 1000);
    assert_eq!(InputParser::parse_quantity(" 50 ").unwrap(), 50);

    assert_eq!(
        InputParser::parse_quantity(""),
        Err(ParseError::EmptyInput)
    );
    assert_eq!(
        InputParser::parse_quantity("   "),
        Err(ParseError::EmptyInput)
    );
    assert_eq!(InputParser::parse_quantity("abc"), Err(ParseError::NoDigits));
    assert_eq!(
        InputParser::parse_quantity("99999999999999999999999"),
        Err(ParseError::TooLarge)
    );
    // stray text is tolerated, digits read in order
    assert_eq!(InputParser::parse_quantity("about 120 shares").unwrap(), 120);
}

#[test]
fn test_recovery_strategies() {
    let mut manager = ErrorRecoveryManager::new(3);
    assert_eq!(manager.get_retry_count(), 0);

    assert_eq!(
        manager.determine_strategy("Network unreachable"),
        RecoveryStrategy::RetryWithCachedData
    );
    assert_eq!(manager.get_retry_count(), 1);

    assert_eq!(
        manager.determine_strategy("could not PARSE the response"),
        RecoveryStrategy::PromptUserForCorrection
    );
    assert_eq!(
        manager.determine_strategy("symbol not found"),
        RecoveryStrategy::FallbackToAlternative
    );
    assert_eq!(
        manager.determine_strategy("something odd"),
        RecoveryStrategy::RetryWithDefaultValue
    );
    assert_eq!(manager.get_retry_count(), 2);

    manager.determine_strategy("connection lost");
    assert_eq!(manager.get_retry_count(), 3);
    // budget spent: everything prompts now
    assert_eq!(
        manager.determine_strategy("network down"),
        RecoveryStrategy::PromptUserForCorrection
    );

    manager.reset();
    assert_eq!(manager.get_retry_count(), 0);
    assert_eq!(
        manager.determine_strategy("network down"),
        RecoveryStrategy::RetryWithCachedData
    );
}
