//! Colors of the price display, with the rule every color string must
//! satisfy: a number sign followed by six or eight hexadecimal digits.

use vstd::prelude::*;

use crate::strutil::{char_is_hex, is_ascii_hex_char};

verus! {

/// Why a color string was refused.
#[derive(Clone, Copy, Debug, PartialEq, Eq, Structural)]
pub enum ColorError {
    BadFormat,
    BadHexDigit,
}

/// A number sign and six or eight hexadecimal digits.
pub open spec fn color_valid(s: Seq<char>) -> bool {
    &&& s.len() == 7 || s.len() == 9
    &&& s.len() > 0 && s[0] == '#'
    &&& forall|i: int| 1 <= i < s.len() ==> is_ascii_hex_char(#[trigger] s[i])
}

/// The colors of gains, losses, unchanged prices and the chart grid.
#[derive(Clone, Debug)]
pub struct TradingThemeColors {
    pub positive_color: String,
    pub negative_color: String,
    pub neutral_color: String,
    pub chart_background: Option<String>,
    pub grid_color: String,
}

impl Default for TradingThemeColors {
    /// Green gains, red losses, gray neutral, a dark grid, no explicit
    /// chart background.
    fn default() -> (r: TradingThemeColors)
        ensures
            r.positive_color@ == "#00ff00"@,
            r.negative_color@ == "#ff0000"@,
            r.neutral_color@ == "#808080"@,
            r.chart_background is None,
            r.grid_color@ == "#404040"@,
    {
        TradingThemeColors {
            positive_color: String::from_str("#00ff00"),
            negative_color: String::from_str("#ff0000"),
            neutral_color: String::from_str("#808080"),
            chart_background: None,
            grid_color: String::from_str("#404040"),
        }
    }
}

impl TradingThemeColors {
    /// Check a color string: one number sign, then exactly six or
    /// eight hexadecimal digits.
    pub fn validate_color(color: &str) -> (r: Result<(), ColorError>)
        ensures
            r is Ok <==> color_valid(color@),
            r == Err::<(), ColorError>(ColorError::BadFormat) <==> !(color@.len() == 7
                || color@.len() == 9) || color@.len() == 0 || color@[0] != '#',
            r == Err::<(), ColorError>(ColorError::BadHexDigit) <==> (color@.len() == 7
                || color@.len() == 9) && color@[0] == '#' && (exists|i: int|
                1 <= i < color@.len() && !is_ascii_hex_char(#[trigger] color@[i])),
    {
        let n = color.unicode_len();
        if n != 7 && n != 9 {
            return Err(ColorError::BadFormat);
        }
        if color.get_char(0) != '#' {
            return Err(ColorError::BadFormat);
        }
        let mut i: usize = 1;
        while i < n
            invariant
                n == color@.len(),
                n == 7 || n == 9,
                color@[0] == '#',
                1 <= i <= n,
                forall|k: int| 1 <= k < i ==> is_ascii_hex_char(#[trigger] color@[k]),
            decreases n - i,
        {
            if !char_is_hex(color.get_char(i)) {
                return Err(ColorError::BadHexDigit);
            }
            i = i + 1;
        }
        Ok(())
    }

    /// Set the gain color after validating it.
    pub fn set_positive_color(&mut self, color: String) -> (r: Result<(), ColorError>)
        ensures
            r is Ok <==> color_valid(color@),
            r is Ok ==> *final(self) == (TradingThemeColors { positive_color: color, ..*old(self) }),
            r is Err ==> *final(self) == *old(self),
    {
        if let Err(e) = TradingThemeColors::validate_color(color.as_str()) {
            return Err(e);
        }
        self.positive_color = color;
        Ok(())
    }

    /// Set the loss color after validating it.
    pub fn set_negative_color(&mut self, color: String) -> (r: Result<(), ColorError>)
        ensures
            r is Ok <==> color_valid(color@),
            r is Ok ==> *final(self) == (TradingThemeColors { negative_color: color, ..*old(self) }),
            r is Err ==> *final(self) == *old(self),
    {
        if let Err(e) = TradingThemeColors::validate_color(color.as_str()) {
            return Err(e);
        }
        self.negative_color = color;
        Ok(())
    }

    /// Set the unchanged-price color after validating it.
    pub fn set_neutral_color(&mut self, color: String) -> (r: Result<(), ColorError>)
        ensures
            r is Ok <==> color_valid(color@),
            r is Ok ==> *final(self) == (TradingThemeColors { neutral_color: color, ..*old(self) }),
            r is Err ==> *final(self) == *old(self),
    {
        if let Err(e) = TradingThemeColors::validate_color(color.as_str()) {
            return Err(e);
        }
        self.neutral_color = color;
        Ok(())
    }

    /// Set the grid color after validating it.
    pub fn set_grid_color(&mut self, color: String) -> (r: Result<(), ColorError>)
        ensures
            r is Ok <==> color_valid(color@),
            r is Ok ==> *final(self) == (TradingThemeColors { grid_color: color, ..*old(self) }),
            r is Err ==> *final(self) == *old(self),
    {
        if let Err(e) = TradingThemeColors::validate_color(color.as_str()) {
            return Err(e);
        }
        self.grid_color = color;
        Ok(())
    }

    /// Set or clear the chart background, validating a given color.
    pub fn set_chart_background(&mut self, color: Option<String>) -> (r: Result<(), ColorError>)
        ensures
            r is Ok <==> match color {
                Some(c) => color_valid(c@),
                None => true,
            },
            r is Ok ==> *final(self) == (TradingThemeColors {
                chart_background: color,
                ..*old(self)
            }),
            r is Err ==> *final(self) == *old(self),
    {
        if let Some(c) = &color {
            if let Err(e) = TradingThemeColors::validate_color(c.as_str()) {
                return Err(e);
            }
        }
        self.chart_background = color;
        Ok(())
    }
}

} // verus!
