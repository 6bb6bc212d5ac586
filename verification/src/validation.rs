//! Input validation with recovery: stock-symbol validation with
//! suggested corrections, tolerant parsing of numeric input, and the
//! strategy picker for recoverable errors.

use vstd::prelude::*;

use crate::strutil::{
    ascii_upper_char, char_is_alnum, char_is_alpha, char_is_digit, char_is_space, char_upper,
    contains_ci, digit_value, is_ascii_alnum_char, is_ascii_alpha_char, is_ascii_digit_char,
    is_ascii_space_char, push_char, str_contains_ci, str_eq, upper_seq,
};

verus! {

/// Why a symbol was refused.
#[derive(Clone, Copy, Debug, PartialEq, Eq, Structural)]
pub enum SymbolError {
    EmptySymbol,
    TooShort,
    TooLong,
    NumberNotAllowed,
    InvalidCharacter,
    MustStartWithLetter,
}

/// Why a numeric input could not be parsed.
#[derive(Clone, Copy, Debug, PartialEq, Eq, Structural)]
pub enum ParseError {
    EmptyInput,
    NoDigits,
    TooLarge,
}

/// The input without leading ASCII whitespace.
pub open spec fn trim_start_spec(s: Seq<char>) -> Seq<char>
    decreases s.len(),
{
    if s.len() > 0 && is_ascii_space_char(s[0]) {
        trim_start_spec(s.drop_first())
    } else {
        s
    }
}

/// The input without trailing ASCII whitespace.
pub open spec fn trim_end_spec(s: Seq<char>) -> Seq<char>
    decreases s.len(),
{
    if s.len() > 0 && is_ascii_space_char(s.last()) {
        trim_end_spec(s.drop_last())
    } else {
        s
    }
}

/// The input without surrounding ASCII whitespace.
pub open spec fn trim_spec(s: Seq<char>) -> Seq<char> {
    trim_end_spec(trim_start_spec(s))
}

proof fn lemma_trim_start(s: Seq<char>, k: int)
    requires
        0 <= k <= s.len(),
        forall|i: int| 0 <= i < k ==> is_ascii_space_char(#[trigger] s[i]),
        k < s.len() ==> !is_ascii_space_char(s[k]),
    ensures
        trim_start_spec(s) == s.subrange(k, s.len() as int),
    decreases k,
{
    if k == 0 {
        if s.len() > 0 && is_ascii_space_char(s[0]) {
            assert(false);
        }
        assert(s.subrange(0, s.len() as int) =~= s);
    } else {
        assert(is_ascii_space_char(s[0]));
        let d = s.drop_first();
        assert forall|i: int| 0 <= i < k - 1 implies is_ascii_space_char(#[trigger] d[i]) by {
            assert(d[i] == s[i + 1]);
        }
        lemma_trim_start(d, k - 1);
        assert(d.subrange(k - 1, d.len() as int) =~= s.subrange(k, s.len() as int));
    }
}

proof fn lemma_trim_end(s: Seq<char>, k: int)
    requires
        0 <= k <= s.len(),
        forall|i: int| k <= i < s.len() ==> is_ascii_space_char(#[trigger] s[i]),
        k > 0 ==> !is_ascii_space_char(s[k - 1]),
    ensures
        trim_end_spec(s) == s.subrange(0, k),
    decreases s.len() - k,
{
    if k == s.len() {
        if s.len() > 0 && is_ascii_space_char(s.last()) {
            assert(false);
        }
        assert(s.subrange(0, s.len() as int) =~= s);
    } else {
        assert(is_ascii_space_char(s.last()));
        let d = s.drop_last();
        assert forall|i: int| k <= i < d.len() implies is_ascii_space_char(#[trigger] d[i]) by {
            assert(d[i] == s[i]);
        }
        lemma_trim_end(d, k);
        assert(d.subrange(0, k) =~= s.subrange(0, k));
    }
}

/// Whether a character of the (upper-cased) symbol fails the rules.
pub open spec fn symbol_char_fails(c: char, allow_numbers: bool, allow_special: bool) -> bool {
    !is_ascii_alpha_char(c) && ((is_ascii_digit_char(c) && !allow_numbers) || (
    !is_ascii_alnum_char(c) && !allow_special))
}

/// The error a failing character draws.
pub open spec fn symbol_char_error(c: char, allow_numbers: bool) -> SymbolError {
    if is_ascii_digit_char(c) && !allow_numbers {
        SymbolError::NumberNotAllowed
    } else {
        SymbolError::InvalidCharacter
    }
}

/// Validates stock symbols: length bounds, allowed characters, and a
/// leading letter, after trimming and upper-casing the input.
pub struct SymbolValidator {
    pub valid_exchanges: Vec<String>,
    pub min_symbol_length: usize,
    pub max_symbol_length: usize,
    pub allow_numbers: bool,
    pub allow_special_chars: bool,
}

impl SymbolValidator {
    /// The default rules of US listings: one to five characters,
    /// digits allowed, special characters not.
    pub fn new() -> (r: SymbolValidator)
        ensures
            r.min_symbol_length == 1,
            r.max_symbol_length == 5,
            r.allow_numbers,
            !r.allow_special_chars,
            r.valid_exchanges@.len() == 3,
    {
        let mut valid_exchanges: Vec<String> = Vec::new();
        valid_exchanges.push(String::from_str("NYSE"));
        valid_exchanges.push(String::from_str("NASDAQ"));
        valid_exchanges.push(String::from_str("AMEX"));
        SymbolValidator {
            valid_exchanges,
            min_symbol_length: 1,
            max_symbol_length: 5,
            allow_numbers: true,
            allow_special_chars: false,
        }
    }

    /// A validator with custom length bounds and character rules.
    pub fn with_config(
        min_length: usize,
        max_length: usize,
        allow_numbers: bool,
        allow_special_chars: bool,
    ) -> (r: SymbolValidator)
        ensures
            r.min_symbol_length == min_length,
            r.max_symbol_length == max_length,
            r.allow_numbers == allow_numbers,
            r.allow_special_chars == allow_special_chars,
            r.valid_exchanges@.len() == 0,
    {
        SymbolValidator {
            valid_exchanges: Vec::new(),
            min_symbol_length: min_length,
            max_symbol_length: max_length,
            allow_numbers,
            allow_special_chars,
        }
    }

    /// The validation outcome as a predicate over the trimmed,
    /// upper-cased symbol.
    pub open spec fn symbol_ok(self, u: Seq<char>) -> bool {
        &&& u.len() > 0
        &&& self.min_symbol_length <= u.len() <= self.max_symbol_length
        &&& forall|i: int|
            0 <= i < u.len() ==> !symbol_char_fails(
                #[trigger] u[i],
                self.allow_numbers,
                self.allow_special_chars,
            )
        &&& u.len() > 0 ==> is_ascii_alpha_char(u[0])
    }

    /// Trim and upper-case the symbol, then check it: the length must
    /// lie within the bounds, every character must be allowed, and the
    /// first must be a letter. Returns the normalised symbol.
    pub fn validate_symbol(&self, symbol: &str) -> (r: Result<String, SymbolError>)
        ensures
            ({
                let u = upper_seq(trim_spec(symbol@));
                &&& r == Err::<String, SymbolError>(SymbolError::EmptySymbol) <==> u.len() == 0
                &&& r == Err::<String, SymbolError>(SymbolError::TooShort) <==> 0 < u.len()
                    < self.min_symbol_length
                &&& r == Err::<String, SymbolError>(SymbolError::TooLong) <==> u.len()
                    > self.max_symbol_length && u.len() >= self.min_symbol_length && u.len() > 0
                &&& forall|i: int|
                    0 <= i < u.len() && self.min_symbol_length <= u.len()
                        <= self.max_symbol_length && symbol_char_fails(
                        #[trigger] u[i],
                        self.allow_numbers,
                        self.allow_special_chars,
                    ) && (forall|j: int|
                        0 <= j < i ==> !symbol_char_fails(
                            #[trigger] u[j],
                            self.allow_numbers,
                            self.allow_special_chars,
                        )) ==> r == Err::<String, SymbolError>(
                        symbol_char_error(u[i], self.allow_numbers),
                    )
                &&& r is Ok <==> self.symbol_ok(u)
                &&& r matches Ok(out) ==> out@ == u
            }),
    {
        let n = symbol.unicode_len();
        let mut start: usize = 0;
        while start < n && char_is_space(symbol.get_char(start))
            invariant
                n == symbol@.len(),
                start <= n,
                forall|i: int| 0 <= i < start ==> is_ascii_space_char(#[trigger] symbol@[i]),
            decreases n - start,
        {
            start = start + 1;
        }
        let mut end: usize = n;
        while end > start && char_is_space(symbol.get_char(end - 1))
            invariant
                n == symbol@.len(),
                start <= end <= n,
                forall|i: int| 0 <= i < start ==> is_ascii_space_char(#[trigger] symbol@[i]),
                forall|i: int| end <= i < n ==> is_ascii_space_char(#[trigger] symbol@[i]),
            decreases end,
        {
            end = end - 1;
        }
        proof {
            lemma_trim_start(symbol@, start as int);
            let t = symbol@.subrange(start as int, n as int);
            assert forall|i: int| end - start <= i < t.len() implies is_ascii_space_char(
                #[trigger] t[i],
            ) by {
                assert(t[i] == symbol@[i + start]);
            }
            if end > start {
                assert(t[end - start - 1] == symbol@[end - 1]);
            }
            lemma_trim_end(t, end - start);
            assert(trim_spec(symbol@) =~= symbol@.subrange(start as int, end as int));
        }
        let mut up = String::new();
        let mut k: usize = start;
        while k < end
            invariant
                n == symbol@.len(),
                start <= k <= end <= n,
                up@ == upper_seq(symbol@.subrange(start as int, k as int)),
            decreases end - k,
        {
            proof {
                assert(symbol@.subrange(start as int, k as int + 1) =~= symbol@.subrange(
                    start as int,
                    k as int,
                ).push(symbol@[k as int]));
                assert(upper_seq(symbol@.subrange(start as int, k as int).push(symbol@[k as int]))
                    =~= upper_seq(symbol@.subrange(start as int, k as int)).push(
                    ascii_upper_char(symbol@[k as int]),
                ));
            }
            let c = char_upper(symbol.get_char(k));
            push_char(&mut up, c);
            k = k + 1;
        }
        proof {
            assert(upper_seq(trim_spec(symbol@)) =~= up@);
        }
        let len = end - start;
        if len == 0 {
            return Err(SymbolError::EmptySymbol);
        }
        if len < self.min_symbol_length {
            return Err(SymbolError::TooShort);
        }
        if len > self.max_symbol_length {
            return Err(SymbolError::TooLong);
        }
        let mut j: usize = 0;
        while j < len
            invariant
                up@ == upper_seq(trim_spec(symbol@)),
                up@.len() == len,
                j <= len,
                self.min_symbol_length <= len <= self.max_symbol_length,
                len > 0,
                forall|i: int|
                    0 <= i < j ==> !symbol_char_fails(
                        #[trigger] up@[i],
                        self.allow_numbers,
                        self.allow_special_chars,
                    ),
            decreases len - j,
        {
            let c = up.as_str().get_char(j);
            if !char_is_alpha(c) {
                if char_is_digit(c) && !self.allow_numbers {
                    return Err(SymbolError::NumberNotAllowed);
                }
                if !char_is_alnum(c) && !self.allow_special_chars {
                    return Err(SymbolError::InvalidCharacter);
                }
            }
            j = j + 1;
        }
        if !char_is_alpha(up.as_str().get_char(0)) {
            return Err(SymbolError::MustStartWithLetter);
        }
        Ok(up)
    }

    /// Candidate corrections for an invalid symbol: the trimmed
    /// upper-cased form, the input reduced to letters and digits, and a
    /// truncation to the longest allowed length, each offered only when
    /// it differs from the input and is usable.
    pub fn suggest_corrections(&self, symbol: &str) -> (r: Vec<String>)
        ensures
            r@.map_values(|x: String| x@) == suggestion_list(
                symbol@,
                self.max_symbol_length as nat,
            ),
    {
        let mut r: Vec<String> = Vec::new();
        let n = symbol.unicode_len();

        let cleaned = self.upper_trimmed(symbol);
        if !str_eq(cleaned.as_str(), symbol) && !cleaned.as_str().is_empty() {
            r.push(cleaned);
        }
        let mut alnum = String::new();
        let mut i: usize = 0;
        while i < n
            invariant
                n == symbol@.len(),
                i <= n,
                alnum@ == symbol@.subrange(0, i as int).filter(
                    |c: char| is_ascii_alnum_char(c),
                ),
            decreases n - i,
        {
            proof {
                reveal_with_fuel(Seq::filter, 2);
                let prefix = symbol@.subrange(0, i as int + 1);
                assert(prefix.drop_last() =~= symbol@.subrange(0, i as int));
                assert(prefix.last() == symbol@[i as int]);
            }
            let c = symbol.get_char(i);
            if char_is_alnum(c) {
                push_char(&mut alnum, c);
            }
            i = i + 1;
        }
        proof {
            assert(symbol@.subrange(0, n as int) =~= symbol@);
        }
        let alnum_len = alnum.as_str().unicode_len();
        if !str_eq(alnum.as_str(), symbol) && alnum_len != 0 && alnum_len
            <= self.max_symbol_length {
            let upped = upper_of(alnum.as_str());
            r.push(upped);
        }
        if n > self.max_symbol_length {
            let mut t = String::new();
            let mut k: usize = 0;
            while k < self.max_symbol_length
                invariant
                    n == symbol@.len(),
                    self.max_symbol_length < n,
                    k <= self.max_symbol_length,
                    t@ == upper_seq(symbol@.subrange(0, k as int)),
                decreases self.max_symbol_length - k,
            {
                proof {
                    assert(symbol@.subrange(0, k as int + 1) =~= symbol@.subrange(
                        0,
                        k as int,
                    ).push(symbol@[k as int]));
                    assert(upper_seq(symbol@.subrange(0, k as int).push(symbol@[k as int]))
                        =~= upper_seq(symbol@.subrange(0, k as int)).push(
                        ascii_upper_char(symbol@[k as int]),
                    ));
                }
                let c = char_upper(symbol.get_char(k));
                push_char(&mut t, c);
                k = k + 1;
            }
            if t.as_str().unicode_len() != 0 {
                r.push(t);
            }
        }
        proof {
            assert(r@.map_values(|x: String| x@) =~= suggestion_list(
                symbol@,
                self.max_symbol_length as nat,
            ));
        }
        r
    }

    /// The trimmed, upper-cased form of the input.
    fn upper_trimmed(&self, symbol: &str) -> (r: String)
        ensures
            r@ == upper_seq(trim_spec(symbol@)),
    {
        let n = symbol.unicode_len();
        let mut start: usize = 0;
        while start < n && char_is_space(symbol.get_char(start))
            invariant
                n == symbol@.len(),
                start <= n,
                forall|i: int| 0 <= i < start ==> is_ascii_space_char(#[trigger] symbol@[i]),
            decreases n - start,
        {
            start = start + 1;
        }
        let mut end: usize = n;
        while end > start && char_is_space(symbol.get_char(end - 1))
            invariant
                n == symbol@.len(),
                start <= end <= n,
                forall|i: int| 0 <= i < start ==> is_ascii_space_char(#[trigger] symbol@[i]),
                forall|i: int| end <= i < n ==> is_ascii_space_char(#[trigger] symbol@[i]),
            decreases end,
        {
            end = end - 1;
        }
        proof {
            lemma_trim_start(symbol@, start as int);
            let t = symbol@.subrange(start as int, n as int);
            assert forall|i: int| end - start <= i < t.len() implies is_ascii_space_char(
                #[trigger] t[i],
            ) by {
                assert(t[i] == symbol@[i + start]);
            }
            if end > start {
                assert(t[end - start - 1] == symbol@[end - 1]);
            }
            lemma_trim_end(t, end - start);
            assert(trim_spec(symbol@) =~= symbol@.subrange(start as int, end as int));
        }
        let mut up = String::new();
        let mut k: usize = start;
        while k < end
            invariant
                n == symbol@.len(),
                start <= k <= end <= n,
                up@ == upper_seq(symbol@.subrange(start as int, k as int)),
            decreases end - k,
        {
            proof {
                assert(symbol@.subrange(start as int, k as int + 1) =~= symbol@.subrange(
                    start as int,
                    k as int,
                ).push(symbol@[k as int]));
                assert(upper_seq(symbol@.subrange(start as int, k as int).push(symbol@[k as int]))
                    =~= upper_seq(symbol@.subrange(start as int, k as int)).push(
                    ascii_upper_char(symbol@[k as int]),
                ));
            }
            let c = char_upper(symbol.get_char(k));
            push_char(&mut up, c);
            k = k + 1;
        }
        proof {
            assert(upper_seq(trim_spec(symbol@)) =~= up@);
        }
        up
    }
}

/// The upper-cased form of a string.
fn upper_of(s: &str) -> (r: String)
    ensures
        r@ == upper_seq(s@),
{
    let n = s.unicode_len();
    let mut up = String::new();
    let mut k: usize = 0;
    while k < n
        invariant
            n == s@.len(),
            k <= n,
            up@ == upper_seq(s@.subrange(0, k as int)),
        decreases n - k,
    {
        proof {
            assert(s@.subrange(0, k as int + 1) =~= s@.subrange(0, k as int).push(s@[k as int]));
            assert(upper_seq(s@.subrange(0, k as int).push(s@[k as int])) =~= upper_seq(
                s@.subrange(0, k as int),
            ).push(ascii_upper_char(s@[k as int])));
        }
        let c = char_upper(s.get_char(k));
        push_char(&mut up, c);
        k = k + 1;
    }
    proof {
        assert(s@.subrange(0, n as int) =~= s@);
        assert(up@ =~= upper_seq(s@));
    }
    up
}

/// The suggestions `suggest_corrections` produces, in order.
pub open spec fn suggestion_list(s: Seq<char>, max: nat) -> Seq<Seq<char>> {
    let c1 = upper_seq(trim_spec(s));
    let f = s.filter(|c: char| is_ascii_alnum_char(c));
    let l1: Seq<Seq<char>> = if c1 != s && c1.len() > 0 {
        seq![c1]
    } else {
        Seq::empty()
    };
    let l2: Seq<Seq<char>> = if f != s && f.len() > 0 && f.len() <= max {
        seq![upper_seq(f)]
    } else {
        Seq::empty()
    };
    let l3: Seq<Seq<char>> = if s.len() > max && max > 0 {
        seq![upper_seq(s.subrange(0, max as int))]
    } else {
        Seq::empty()
    };
    l1 + l2 + l3
}

/// Why an order parameter was refused.
#[derive(Clone, Copy, Debug, PartialEq, Eq, Structural)]
pub enum OrderError {
    QuantityBelowMinimum,
    QuantityAboveMaximum,
    PriceBelowMinimum,
    PriceAboveMaximum,
    PriceRequired,
    PriceNotAccepted,
    StopNotAboveMarket,
    StopNotBelowMarket,
    ValueAboveMaximum,
}

/// Validates order parameters. Prices are integer hundredths, so every
/// bound is exact.
pub struct OrderValidator {
    pub min_quantity: u64,
    pub max_quantity: u64,
    /// Least accepted price, in hundredths.
    pub min_price: u64,
    /// Greatest accepted price, in hundredths.
    pub max_price: u64,
}

impl OrderValidator {
    /// Default rules: one share to a million shares, a price from one
    /// hundredth to a million units of currency.
    pub fn new() -> (r: OrderValidator)
        ensures
            r.min_quantity == 1,
            r.max_quantity == 1000000,
            r.min_price == 1,
            r.max_price == 100000000,
    {
        OrderValidator { min_quantity: 1, max_quantity: 1000000, min_price: 1, max_price: 100000000 }
    }

    /// A quantity must lie within the configured bounds.
    pub fn validate_quantity(&self, quantity: u64) -> (r: Result<u64, OrderError>)
        ensures
            quantity < self.min_quantity ==> r == Err::<u64, OrderError>(
                OrderError::QuantityBelowMinimum,
            ),
            quantity >= self.min_quantity && quantity > self.max_quantity ==> r == Err::<
                u64,
                OrderError,
            >(OrderError::QuantityAboveMaximum),
            self.min_quantity <= quantity <= self.max_quantity ==> r == Ok::<u64, OrderError>(
                quantity,
            ),
    {
        if quantity < self.min_quantity {
            return Err(OrderError::QuantityBelowMinimum);
        }
        if quantity > self.max_quantity {
            return Err(OrderError::QuantityAboveMaximum);
        }
        Ok(quantity)
    }

    /// A price must lie within the configured bounds.
    pub fn validate_price(&self, price: u64) -> (r: Result<u64, OrderError>)
        ensures
            price < self.min_price ==> r == Err::<u64, OrderError>(OrderError::PriceBelowMinimum),
            price >= self.min_price && price > self.max_price ==> r == Err::<u64, OrderError>(
                OrderError::PriceAboveMaximum,
            ),
            self.min_price <= price <= self.max_price ==> r == Ok::<u64, OrderError>(price),
    {
        if price < self.min_price {
            return Err(OrderError::PriceBelowMinimum);
        }
        if price > self.max_price {
            return Err(OrderError::PriceAboveMaximum);
        }
        Ok(price)
    }

    /// A limit order must name a price.
    pub fn validate_limit_order(&self, price: Option<u64>) -> (r: Result<u64, OrderError>)
        ensures
            price is None ==> r == Err::<u64, OrderError>(OrderError::PriceRequired),
            price matches Some(p) ==> r == self.price_outcome(p),
    {
        match price {
            Some(p) => self.validate_price(p),
            None => Err(OrderError::PriceRequired),
        }
    }

    /// The outcome `validate_price` gives a price.
    pub open spec fn price_outcome(self, price: u64) -> Result<u64, OrderError> {
        if price < self.min_price {
            Err(OrderError::PriceBelowMinimum)
        } else if price > self.max_price {
            Err(OrderError::PriceAboveMaximum)
        } else {
            Ok(price)
        }
    }

    /// A market order must not name a price.
    pub fn validate_market_order(&self, price: Option<u64>) -> (r: Result<(), OrderError>)
        ensures
            r is Ok <==> price is None,
            price is Some ==> r == Err::<(), OrderError>(OrderError::PriceNotAccepted),
    {
        if price.is_some() {
            return Err(OrderError::PriceNotAccepted);
        }
        Ok(())
    }

    /// A buy stop must sit above the market, a sell stop below it.
    pub fn validate_stop_price(&self, stop_price: u64, current_price: u64, is_buy: bool) -> (r:
        Result<u64, OrderError>)
        ensures
            self.price_outcome(stop_price) is Err ==> r == self.price_outcome(stop_price),
            self.price_outcome(stop_price) is Ok && is_buy && stop_price <= current_price ==> r
                == Err::<u64, OrderError>(OrderError::StopNotAboveMarket),
            self.price_outcome(stop_price) is Ok && !is_buy && stop_price >= current_price ==> r
                == Err::<u64, OrderError>(OrderError::StopNotBelowMarket),
            self.price_outcome(stop_price) is Ok && ((is_buy && stop_price > current_price) || (
            !is_buy && stop_price < current_price)) ==> r == Ok::<u64, OrderError>(stop_price),
    {
        let validated = match self.validate_price(stop_price) {
            Ok(p) => p,
            Err(e) => {
                return Err(e);
            },
        };
        if is_buy && validated <= current_price {
            return Err(OrderError::StopNotAboveMarket);
        }
        if !is_buy && validated >= current_price {
            return Err(OrderError::StopNotBelowMarket);
        }
        Ok(validated)
    }

    /// The order's total value, in hundredths, checked against a cap.
    pub fn validate_order_value(&self, quantity: u64, price: u64, max_order_value: u64) -> (r:
        Result<u64, OrderError>)
        ensures
            quantity < self.min_quantity ==> r == Err::<u64, OrderError>(
                OrderError::QuantityBelowMinimum,
            ),
            quantity >= self.min_quantity && quantity > self.max_quantity ==> r == Err::<
                u64,
                OrderError,
            >(OrderError::QuantityAboveMaximum),
            self.min_quantity <= quantity <= self.max_quantity && self.price_outcome(price) is Err
                ==> r == Err::<u64, OrderError>(self.price_outcome(price)->Err_0),
            self.min_quantity <= quantity <= self.max_quantity && self.price_outcome(price) is Ok
                ==> (if quantity * price > max_order_value {
                r == Err::<u64, OrderError>(OrderError::ValueAboveMaximum)
            } else {
                r == Ok::<u64, OrderError>((quantity * price) as u64)
            }),
    {
        let quantity = match self.validate_quantity(quantity) {
            Ok(q) => q,
            Err(e) => {
                return Err(e);
            },
        };
        let price = match self.validate_price(price) {
            Ok(p) => p,
            Err(e) => {
                return Err(e);
            },
        };
        proof {
            assert((quantity as int) * (price as int) <= (u64::MAX as int) * (
            u64::MAX as int)) by (nonlinear_arith)
                requires
                    quantity <= u64::MAX,
                    price <= u64::MAX,
            ;
        }
        let value: u128 = (quantity as u128) * (price as u128);
        if value > max_order_value as u128 {
            return Err(OrderError::ValueAboveMaximum);
        }
        Ok(value as u64)
    }
}

/// The decimal digits of the input, in order.
pub open spec fn digits_of(s: Seq<char>) -> Seq<char> {
    s.filter(|c: char| is_ascii_digit_char(c))
}

/// The numeric value of a digit string.
pub open spec fn dec_value(s: Seq<char>) -> int
    decreases s.len(),
{
    if s.len() == 0 {
        0
    } else {
        dec_value(s.drop_last()) * 10 + digit_value(s.last())
    }
}

/// Tolerant parsing of numeric user input.
pub struct InputParser;

impl InputParser {
    /// Parse a whole-number quantity, tolerating grouping characters
    /// and stray text: the digits of the input, read in order, give the
    /// value. Empty input, input without digits, and values beyond the
    /// machine range are refused.
    pub fn parse_quantity(input: &str) -> (r: Result<u64, ParseError>)
        ensures
            r == Err::<u64, ParseError>(ParseError::EmptyInput) <==> trim_spec(input@).len() == 0,
            r == Err::<u64, ParseError>(ParseError::NoDigits) <==> trim_spec(input@).len() > 0
                && digits_of(input@).len() == 0,
            r == Err::<u64, ParseError>(ParseError::TooLarge) <==> digits_of(input@).len() > 0
                && dec_value(digits_of(input@)) > u64::MAX,
            r matches Ok(v) ==> digits_of(input@).len() > 0 && v == dec_value(digits_of(input@)),
            r is Ok <==> digits_of(input@).len() > 0 && dec_value(digits_of(input@))
                <= u64::MAX,
    {
        let n = input.unicode_len();
        let mut all_space = true;
        let mut value: u64 = 0;
        let mut overflow = false;
        let mut digit_count: usize = 0;
        let mut i: usize = 0;
        while i < n
            invariant
                n == input@.len(),
                i <= n,
                all_space <==> (forall|k: int|
                    0 <= k < i ==> is_ascii_space_char(#[trigger] input@[k])),
                all_space ==> digit_count == 0,
                digit_count == digits_of(input@.subrange(0, i as int)).len(),
                !overflow ==> value == dec_value(digits_of(input@.subrange(0, i as int))),
                overflow ==> dec_value(digits_of(input@.subrange(0, i as int))) > u64::MAX,
            decreases n - i,
        {
            proof {
                reveal_with_fuel(Seq::filter, 2);
                let prefix = input@.subrange(0, i as int + 1);
                assert(prefix.drop_last() =~= input@.subrange(0, i as int));
                assert(prefix.last() == input@[i as int]);
            }
            let c = input.get_char(i);
            if !char_is_space(c) {
                all_space = false;
            }
            if char_is_digit(c) {
                let ghost before = digits_of(input@.subrange(0, i as int));
                proof {
                    assert(digits_of(input@.subrange(0, i as int + 1)) =~= before.push(
                        input@[i as int],
                    ));
                    assert(digits_of(input@.subrange(0, i as int + 1)).drop_last() =~= before);
                }
                let d = crate::strutil::char_digit_value(c) as u64;
                if !overflow && value <= (u64::MAX - d) / 10 {
                    value = value * 10 + d;
                } else {
                    proof {
                        if !overflow {
                            assert(value * 10 + d > u64::MAX) by (nonlinear_arith)
                                requires
                                    value > (u64::MAX - d) / 10,
                                    d <= 9,
                                    value <= u64::MAX,
                            ;
                        } else {
                            assert(dec_value(before) > u64::MAX);
                            assert(dec_value(before.push(input@[i as int])) == dec_value(before)
                                * 10 + digit_value(input@[i as int]));
                            assert(dec_value(before) * 10 >= dec_value(before)) by (nonlinear_arith)
                                requires
                                    dec_value(before) > 0,
                            ;
                        }
                    }
                    overflow = true;
                }
                digit_count = digit_count + 1;
            }
            i = i + 1;
        }
        proof {
            assert(input@.subrange(0, n as int) =~= input@);
        }
        if all_space || n == 0 {
            proof {
                lemma_all_space_trim(input@);
            }
            return Err(ParseError::EmptyInput);
        }
        proof {
            lemma_trim_len(input@);
        }
        if digit_count == 0 {
            return Err(ParseError::NoDigits);
        }
        if overflow {
            return Err(ParseError::TooLarge);
        }
        Ok(value)
    }
}

/// An input of spaces only trims to nothing.
proof fn lemma_all_space_trim(s: Seq<char>)
    requires
        forall|k: int| 0 <= k < s.len() ==> is_ascii_space_char(#[trigger] s[k]),
    ensures
        trim_spec(s).len() == 0,
    decreases s.len(),
{
    if s.len() > 0 {
        let d = s.drop_first();
        assert forall|k: int| 0 <= k < d.len() implies is_ascii_space_char(#[trigger] d[k]) by {
            assert(d[k] == s[k + 1]);
        }
        lemma_all_space_trim(d);
    } else {
        assert(trim_start_spec(s) == s);
    }
}

/// An input with a non-space character trims to something.
proof fn lemma_trim_len(s: Seq<char>)
    requires
        exists|k: int| 0 <= k < s.len() && !is_ascii_space_char(#[trigger] s[k]),
    ensures
        trim_spec(s).len() > 0,
    decreases s.len(),
{
    let k = choose|k: int| 0 <= k < s.len() && !is_ascii_space_char(#[trigger] s[k]);
    if is_ascii_space_char(s[0]) {
        let d = s.drop_first();
        assert(d[k - 1] == s[k]);
        lemma_trim_len(d);
    } else {
        lemma_trim_end_keeps(trim_start_spec(s));
        assert(trim_start_spec(s) == s);
        assert(!is_ascii_space_char(s[0]));
        lemma_trim_end_nonempty(s);
    }
}

/// Trimming the end keeps a leading non-space character.
proof fn lemma_trim_end_nonempty(s: Seq<char>)
    requires
        s.len() > 0,
        !is_ascii_space_char(s[0]),
    ensures
        trim_end_spec(s).len() > 0,
    decreases s.len(),
{
    if s.len() > 0 && is_ascii_space_char(s.last()) {
        let d = s.drop_last();
        assert(d[0] == s[0]);
        lemma_trim_end_nonempty(d);
    }
}

proof fn lemma_trim_end_keeps(s: Seq<char>)
    ensures
        trim_end_spec(s).len() <= s.len(),
    decreases s.len(),
{
    if s.len() > 0 && is_ascii_space_char(s.last()) {
        lemma_trim_end_keeps(s.drop_last());
    }
}

/// How to recover from an error.
#[derive(Clone, Copy, Debug, PartialEq, Eq, Structural)]
pub enum RecoveryStrategy {
    RetryWithCachedData,
    RetryWithDefaultValue,
    PromptUserForCorrection,
    SkipOperation,
    FallbackToAlternative,
}

/// Picks a recovery strategy from the text of an error, bounded by a
/// retry budget.
pub struct ErrorRecoveryManager {
    pub retry_count: u32,
    pub max_retries: u32,
}

impl ErrorRecoveryManager {
    pub fn new(max_retries: u32) -> (r: ErrorRecoveryManager)
        ensures
            r.retry_count == 0,
            r.max_retries == max_retries,
    {
        ErrorRecoveryManager { retry_count: 0, max_retries }
    }

    /// Pick a strategy for the error text: past the retry budget the
    /// user is asked; network and connection trouble retries on cached
    /// data; parse trouble asks the user; missing or unavailable
    /// resources fall back to an alternative; anything else retries
    /// with a default.
    pub fn determine_strategy(&mut self, error_message: &str) -> (r: RecoveryStrategy)
        ensures
            ({
                let msg = error_message@;
                let network = contains_ci(msg, "network"@) || contains_ci(msg, "connection"@);
                let parse = contains_ci(msg, "parse"@) || contains_ci(msg, "invalid"@);
                let missing = contains_ci(msg, "not found"@) || contains_ci(msg, "unavailable"@);
                if old(self).retry_count >= old(self).max_retries {
                    r == RecoveryStrategy::PromptUserForCorrection && *final(self) == *old(self)
                } else if network {
                    r == RecoveryStrategy::RetryWithCachedData && final(self).retry_count == old(
                        self,
                    ).retry_count + 1 && final(self).max_retries == old(self).max_retries
                } else if parse {
                    r == RecoveryStrategy::PromptUserForCorrection && *final(self) == *old(self)
                } else if missing {
                    r == RecoveryStrategy::FallbackToAlternative && *final(self) == *old(self)
                } else {
                    r == RecoveryStrategy::RetryWithDefaultValue && final(self).retry_count == old(
                        self,
                    ).retry_count + 1 && final(self).max_retries == old(self).max_retries
                }
            }),
    {
        if self.retry_count >= self.max_retries {
            return RecoveryStrategy::PromptUserForCorrection;
        }
        if str_contains_ci(error_message, "network") || str_contains_ci(
            error_message,
            "connection",
        ) {
            self.retry_count = self.retry_count + 1;
            RecoveryStrategy::RetryWithCachedData
        } else if str_contains_ci(error_message, "parse") || str_contains_ci(
            error_message,
            "invalid",
        ) {
            RecoveryStrategy::PromptUserForCorrection
        } else if str_contains_ci(error_message, "not found") || str_contains_ci(
            error_message,
            "unavailable",
        ) {
            RecoveryStrategy::FallbackToAlternative
        } else {
            self.retry_count = self.retry_count + 1;
            RecoveryStrategy::RetryWithDefaultValue
        }
    }

    /// Clear the retry budget.
    pub fn reset(&mut self)
        ensures
            final(self).retry_count == 0,
            final(self).max_retries == old(self).max_retries,
    {
        self.retry_count = 0;
    }

    /// How many retries were consumed.
    pub fn get_retry_count(&self) -> (r: u32)
        ensures
            r == self.retry_count,
    {
        self.retry_count
    }
}

} // verus!
