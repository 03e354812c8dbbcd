//! Prices and the value of collateral.
//!
//! A price arrives as a posted update of the Pyth oracle. The update is held
//! here as plain values; whether it may be used at a given time is decided by
//! the oracle's own rule, and what a deposit is then worth is computed in
//! integers only.

use vstd::prelude::*;
use vstd::arithmetic::div_mod::*;
use vstd::arithmetic::mul::*;
use anchor_lang::prelude::{Clock, Pubkey};
use pyth_solana_receiver_sdk::error::GetPriceError;
use pyth_solana_receiver_sdk::price_update::{
    get_feed_id_from_hex, PriceFeedMessage, PriceUpdateV2, VerificationLevel,
};
use vstd::string::StringSliceAdditionalSpecFns;
use vstd::utf8::{encode_utf8_valid_utf8, is_char_boundary, is_char_boundary_iff_not_is_continuation_byte};
use crate::errors::ErrorCode;
use crate::math::lemma_product_fits;
use crate::state::Asset;

verus! {

/// One whole, for ratios given in basis points.
pub const BASIS_POINTS: u64 = 10_000;

/// How far the signatures under an update were checked.
#[derive(Clone, Copy, Debug, PartialEq, Eq, Structural)]
pub enum Verification {
    Partial { num_signatures: u8 },
    Full,
}

/// A posted price update, as the oracle's account holds it.
#[derive(Clone, Copy, Debug, PartialEq, Eq)]
pub struct PriceUpdate {
    pub verification: Verification,
    pub feed_id: [u8; 32],
    pub price: i64,
    pub conf: u64,
    pub exponent: i32,
    pub publish_time: i64,
}

/// A price: `price * 10^exponent`, give or take `conf * 10^exponent`, as of
/// `publish_time`.
#[derive(Clone, Copy, Debug, PartialEq, Eq, Structural)]
pub struct Price {
    pub price: i64,
    pub conf: u64,
    pub exponent: i32,
    pub publish_time: i64,
}

/// The feeds that price the two assets, and the oldest price that is accepted.
#[derive(Clone, Copy, Debug, PartialEq, Eq)]
pub struct OracleConfig {
    pub sol_usd_feed: [u8; 32],
    pub usdc_usd_feed: [u8; 32],
    /// Seconds; anything above `i64::MAX` counts as `i64::MAX`.
    pub max_age: u64,
}

/// The error type of the oracle's price lookups.
#[verifier::external_type_specification]
#[verifier::external_body]
pub struct ExGetPriceError(GetPriceError);

impl PriceUpdate {
    /// The price this update carries.
    pub open spec fn quote(self) -> Price {
        Price {
            price: self.price,
            conf: self.conf,
            exponent: self.exponent,
            publish_time: self.publish_time,
        }
    }

    /// Whether the update may be used at `now` for `feed_id`: it is fully
    /// verified, it is of that feed, and it is no older than `max_age`.
    pub open spec fn usable(self, feed_id: Seq<u8>, max_age: int, now: int) -> bool {
        &&& self.verification is Full
        &&& self.feed_id@ == feed_id
        &&& self.publish_time + max_age >= now
    }
}

impl OracleConfig {
    /// The feed that prices `asset`.
    pub open spec fn feed_of(self, asset: Asset) -> [u8; 32] {
        match asset {
            Asset::Sol => self.sol_usd_feed,
            Asset::Usdc => self.usdc_usd_feed,
        }
    }

    /// The age limit as it is applied.
    pub open spec fn age_limit(self) -> int {
        if self.max_age > i64::MAX {
            i64::MAX as int
        } else {
            self.max_age as int
        }
    }

    /// The configuration that two feed identifiers written in hexadecimal and
    /// an age limit make up. `None` where either text spells no identifier.
    pub fn from_hex(sol_usd: &str, usdc_usd: &str, max_age: u64) -> (r: Option<OracleConfig>)
        ensures
            match (feed_id_of(sol_usd.spec_bytes()), feed_id_of(usdc_usd.spec_bytes())) {
                (Some(sol), Some(usdc)) => r is Some && r->0.sol_usd_feed@ == sol && r->0.usdc_usd_feed@
                    == usdc && r->0.max_age == max_age,
                _ => r is None,
            },
    {
        match (parse_feed_id(sol_usd), parse_feed_id(usdc_usd)) {
            (Some(sol), Some(usdc)) => Some(
                OracleConfig { sol_usd_feed: sol, usdc_usd_feed: usdc, max_age: max_age },
            ),
            _ => None,
        }
    }

    /// The feed that prices `asset`.
    pub fn feed_for(&self, asset: Asset) -> (r: &[u8; 32])
        ensures
            *r == self.feed_of(asset),
    {
        match asset {
            Asset::Sol => &self.sol_usd_feed,
            Asset::Usdc => &self.usdc_usd_feed,
        }
    }
}

/// The value of one hexadecimal digit given as a byte of text, in either case.
pub open spec fn hex_digit(b: u8) -> Option<u8> {
    if 0x30 <= b <= 0x39 {
        Some((b - 0x30) as u8)
    } else if 0x61 <= b <= 0x66 {
        Some((b - 0x61 + 10) as u8)
    } else if 0x41 <= b <= 0x46 {
        Some((b - 0x41 + 10) as u8)
    } else {
        None
    }
}

/// The thirty-two bytes that sixty-four hexadecimal digits spell, two digits
/// to the byte, the high one first.
pub open spec fn hex_decoded(digits: Seq<u8>) -> Option<Seq<u8>> {
    if digits.len() == 64 && (forall|i: int| 0 <= i < 64 ==> hex_digit(#[trigger] digits[i]) is Some) {
        Some(
            Seq::new(
                32,
                |i: int| (hex_digit(digits[2 * i])->0 * 16 + hex_digit(digits[2 * i + 1])->0) as u8,
            ),
        )
    } else {
        None
    }
}

/// The feed identifier that a text spells, the text given as its bytes:
/// sixty-four hexadecimal digits, alone or after two more bytes, which are
/// meant for `0x` and are not looked at.
pub open spec fn feed_id_of(text: Seq<u8>) -> Option<Seq<u8>> {
    if text.len() == 66 {
        hex_decoded(text.skip(2))
    } else if text.len() == 64 {
        hex_decoded(text)
    } else {
        None
    }
}

/// Calls `get_feed_id_from_hex` of the Pyth receiver SDK.
///
/// Not proved; taken from the SDK's source and from that of the `hex` crate
/// it decodes with: a text of 64 bytes is decoded whole, one of 66 bytes from
/// its third byte on, any other length is refused; decoding succeeds exactly
/// when every byte is a hexadecimal digit of either case, and gives the high
/// digit of each pair first. The SDK cuts a text of 66 bytes at byte two and
/// panics where that splits a character, hence the demand.
#[verifier::external_body]
fn feed_id_from_hex(input: &str) -> (r: Result<[u8; 32], GetPriceError>)
    requires
        input.spec_bytes().len() == 66 ==> is_char_boundary(input.spec_bytes(), 2),
    ensures
        r is Ok <==> feed_id_of(input.spec_bytes()) is Some,
        r matches Ok(id) ==> feed_id_of(input.spec_bytes()) == Some(id@),
{
    get_feed_id_from_hex(input)
}

/// Reads a feed identifier written in hexadecimal, with or without a
/// two-character prefix. `None` where the text does not spell one.
pub fn parse_feed_id(input: &str) -> (r: Option<[u8; 32]>)
    ensures
        match feed_id_of(input.spec_bytes()) {
            Some(id) => r is Some && r->0@ == id,
            None => r is None,
        },
{
    if input.len() == 66 && !input.is_char_boundary(2) {
        proof {
            let bytes = input.spec_bytes();
            encode_utf8_valid_utf8(input@);
            is_char_boundary_iff_not_is_continuation_byte(bytes, 2);
            assert(bytes.skip(2)[0] == bytes[2]);
            assert(hex_digit(bytes.skip(2)[0]) is None);
        }
        return None;
    }
    match feed_id_from_hex(input) {
        Ok(id) => Some(id),
        Err(_) => None,
    }
}

/// Calls `PriceUpdateV2::get_price_no_older_than` of the Pyth receiver SDK on
/// an account holding `update`, with a clock reading `now`.
///
/// Not proved; taken from the SDK's source: the call succeeds exactly when the
/// update is fully verified, carries `feed_id`, and its publish time plus
/// `max_age` (saturating, which for a limit within `i64` is the plain sum) is
/// not before `now`; it then returns the update's price, confidence, exponent
/// and publish time. The SDK converts `max_age` to `i64` and panics where
/// that fails, hence the bound.
#[verifier::external_body]
fn price_no_older_than(update: &PriceUpdate, now: i64, max_age: u64, feed_id: &[u8; 32]) -> (r: Result<
    Price,
    GetPriceError,
>)
    requires
        max_age <= i64::MAX,
    ensures
        r is Ok <==> update.usable(feed_id@, max_age as int, now as int),
        r matches Ok(p) ==> p == update.quote(),
{
    let level = match update.verification {
        Verification::Full => VerificationLevel::Full,
        Verification::Partial { num_signatures } => VerificationLevel::Partial { num_signatures },
    };
    let PriceUpdate { feed_id: id, price, conf, exponent, publish_time, .. } = *update;
    let price_message = PriceFeedMessage { feed_id: id, price, conf, exponent, publish_time, prev_publish_time: 0, ema_price: 0, ema_conf: 0 };
    let account = PriceUpdateV2 { write_authority: Pubkey::default(), verification_level: level, price_message, posted_slot: 0 };
    let clock = Clock { unix_timestamp: now, ..Clock::default() };
    let p = account.get_price_no_older_than(&clock, max_age, feed_id)?;
    Ok(Price { price: p.price, conf: p.conf, exponent: p.exponent, publish_time: p.publish_time })
}

/// The price of `asset` at `now`, or `StalePrice` where the oracle has none
/// to give.
pub open spec fn price_at(config: OracleConfig, update: PriceUpdate, asset: Asset, now: i64) -> Result<
    Price,
    ErrorCode,
> {
    if update.usable(config.feed_of(asset)@, config.age_limit(), now as int) {
        Ok(update.quote())
    } else {
        Err(ErrorCode::StalePrice)
    }
}

/// Asks the oracle for the price of `asset` at `now`. Every refusal of the
/// oracle, whatever its reason, is reported as `StalePrice`.
pub fn oracle_price(config: &OracleConfig, update: &PriceUpdate, asset: Asset, now: i64) -> (r: Result<
    Price,
    ErrorCode,
>)
    ensures
        r == price_at(*config, *update, asset, now),
{
    let limit: u64 = if config.max_age > i64::MAX as u64 {
        i64::MAX as u64
    } else {
        config.max_age
    };
    match price_no_older_than(update, now, limit, config.feed_for(asset)) {
        Ok(p) => Ok(p),
        Err(_) => Err(ErrorCode::StalePrice),
    }
}

/// Ten to the power `n`.
pub open spec fn pow10(n: nat) -> int
    decreases n,
{
    if n == 0 {
        1
    } else {
        10 * pow10((n - 1) as nat)
    }
}

/// `x * 10^exponent`, rounded toward zero where the exponent is negative.
pub open spec fn scaled(x: int, exponent: int) -> int {
    if exponent >= 0 {
        x * pow10(exponent as nat)
    } else {
        x / pow10((-exponent) as nat)
    }
}

/// What a deposit is worth at a price: `deposit * price * 10^exponent`,
/// rounded toward zero. A negative price, or a value that does not fit, is an
/// `ArithmeticOverflow`.
pub open spec fn collateral_value_spec(deposit: u64, price: Price) -> Result<u64, ErrorCode> {
    if price.price < 0 || scaled(deposit * price.price, price.exponent as int) > u64::MAX {
        Err(ErrorCode::ArithmeticOverflow)
    } else {
        Ok(scaled(deposit * price.price, price.exponent as int) as u64)
    }
}

/// What may be borrowed against collateral worth `value`: the part of it
/// given by `threshold`, in basis points, rounded toward zero.
pub open spec fn borrowable_spec(value: u64, threshold: u64) -> int {
    value * threshold / (BASIS_POINTS as int)
}

/// Powers of ten are positive and grow with the exponent.
pub proof fn lemma_pow10_grows(i: nat, n: nat)
    requires
        i <= n,
    ensures
        1 <= pow10(i) <= pow10(n),
    decreases n,
{
    if n == 0 {
    } else if i == n {
        lemma_pow10_grows((i - 1) as nat, (n - 1) as nat);
    } else {
        lemma_pow10_grows(i, (n - 1) as nat);
    }
}

/// `x * 10^n`, or `ArithmeticOverflow` where that does not fit.
fn scale_up(x: u128, n: u64) -> (r: Result<u64, ErrorCode>)
    ensures
        x * pow10(n as nat) > u64::MAX ==> r == Err::<u64, ErrorCode>(ErrorCode::ArithmeticOverflow),
        x * pow10(n as nat) <= u64::MAX ==> r == Ok::<u64, ErrorCode>((x * pow10(n as nat)) as u64),
{
    proof {
        lemma_pow10_grows(0, n as nat);
        assert(x * pow10(n as nat) >= x) by (nonlinear_arith)
            requires
                pow10(n as nat) >= 1,
                x >= 0,
        ;
    }
    if x == 0 {
        assert(0 * pow10(n as nat) == 0);
        return Ok(0);
    }
    if x > u64::MAX as u128 {
        return Err(ErrorCode::ArithmeticOverflow);
    }
    let mut v: u128 = x;
    let mut i: u64 = 0;
    while i < n
        invariant
            i <= n,
            1 <= x,
            v == x * pow10(i as nat),
            v <= u64::MAX,
        decreases n - i,
    {
        proof {
            assert(10 * (x * pow10(i as nat)) == x * (10 * pow10(i as nat))) by (nonlinear_arith);
        }
        v = v * 10;
        i = i + 1;
        if v > u64::MAX as u128 {
            proof {
                lemma_pow10_grows(i as nat, n as nat);
                assert(x * pow10(n as nat) >= x * pow10(i as nat)) by (nonlinear_arith)
                    requires
                        pow10(n as nat) >= pow10(i as nat),
                        x >= 0,
                ;
            }
            return Err(ErrorCode::ArithmeticOverflow);
        }
    }
    Ok(v as u64)
}

/// `x / 10^n` rounded toward zero, or `ArithmeticOverflow` where that does
/// not fit.
fn scale_down(x: u128, n: u64) -> (r: Result<u64, ErrorCode>)
    ensures
        (x as int) / pow10(n as nat) > u64::MAX ==> r == Err::<u64, ErrorCode>(ErrorCode::ArithmeticOverflow),
        (x as int) / pow10(n as nat) <= u64::MAX ==> r == Ok::<u64, ErrorCode>(((x as int) / pow10(n as nat)) as u64),
{
    let mut v: u128 = x;
    let mut i: u64 = 0;
    while i < n && v > 0
        invariant
            i <= n,
            v == (x as int) / pow10(i as nat),
        decreases n - i,
    {
        proof {
            lemma_pow10_grows(0, i as nat);
            lemma_div_denominator(x as int, pow10(i as nat), 10);
            assert(pow10(i as nat) * 10 == 10 * pow10(i as nat)) by (nonlinear_arith);
        }
        v = v / 10;
        i = i + 1;
    }
    proof {
        if i < n {
            let d = pow10(i as nat);
            let e = pow10(n as nat);
            lemma_pow10_grows(i as nat, n as nat);
            lemma_fundamental_div_mod(x as int, d);
            lemma_mod_bound(x as int, d);
            assert(d * 0 == 0);
            lemma_basic_div(x as int, e);
        }
    }
    if v > u64::MAX as u128 {
        Err(ErrorCode::ArithmeticOverflow)
    } else {
        Ok(v as u64)
    }
}

/// What `user_deposit`, already brought up to date, is worth at `price`.
pub fn collateral_value(user_deposit: u64, price: &Price) -> (r: Result<u64, ErrorCode>)
    ensures
        r == collateral_value_spec(user_deposit, *price),
{
    if price.price < 0 {
        return Err(ErrorCode::ArithmeticOverflow);
    }
    let unit: u64 = price.price as u64;
    proof {
        lemma_product_fits(user_deposit, unit);
    }
    let product: u128 = (user_deposit as u128) * (unit as u128);
    if price.exponent >= 0 {
        scale_up(product, price.exponent as u64)
    } else {
        let n: i64 = -(price.exponent as i64);
        scale_down(product, n as u64)
    }
}

/// What may be borrowed against collateral worth `value` at `threshold`
/// basis points.
pub fn borrowable(value: u64, threshold: u64) -> (r: u128)
    ensures
        r == borrowable_spec(value, threshold),
{
    proof {
        lemma_product_fits(value, threshold);
    }
    (value as u128) * (threshold as u128) / (BASIS_POINTS as u128)
}

} // verus!
