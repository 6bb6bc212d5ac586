//! Tests of the theme color rules.

use stock_trading::theme::{ColorError, TradingThemeColors};

#[test]
fn test_theme_colors_validation() {
    assert!(TradingThemeColors::validate_color("#ff0000").is_ok());
    assert!(TradingThemeColors::validate_color("#00ff00ff").is_ok()); // With alpha
    assert!(TradingThemeColors::validate_color("ff0000").is_err()); // Missing #
    assert!(TradingThemeColors::validate_color("#ff00").is_err()); // Too short
    assert!(TradingThemeColors::validate_color("#gggggg").is_err()); // Invalid hex
}

#[test]
fn test_theme_colors_setters() {
    let mut colors = TradingThemeColors::default();

    assert!(colors.set_positive_color("#00ff00".to_string()).is_ok());
    assert!(colors.set_negative_color("#ff0000".to_string()).is_ok());
    assert!(colors.set_neutral_color("#808080".to_string()).is_ok());
    assert!(colors.set_grid_color("#404040".to_string()).is_ok());

    // Invalid colors should fail
    assert!(colors.set_positive_color("invalid".to_string()).is_err());
}

#[test]
fn test_theme_color_error_kinds() {
    assert_eq!(
        TradingThemeColors::validate_color("ff0000"),
        Err(ColorError::BadFormat)
    );
    assert_eq!(
        TradingThemeColors::validate_color("#zz0000"),
        Err(ColorError::BadHexDigit)
    );
    let mut colors = TradingThemeColors::default();
    assert!(colors.set_chart_background(Some("#112233".to_string())).is_ok());
    assert_eq!(colors.chart_background, Some("#112233".to_string()));
    assert!(colors.set_chart_background(None).is_ok());
    assert_eq!(colors.chart_background, None);
    assert!(colors
        .set_chart_background(Some("oops".to_string()))
        .is_err());
}
