//! Reading a price out of the bytes of a Pyth price account.

use vstd::arithmetic::power::{lemma_pow1, lemma_pow_adds, lemma_pow_increases, pow};
use vstd::prelude::*;

use crate::keys::Pubkey;
use crate::stableswap::errors::StableSwapError;
use crate::stableswap::oracle::PriceReading;

verus! {

/// The number that every price account begins with.
pub const PYTH_MAGIC: u32 = 0xa1b2_c3d4;

/// The version of the layout.
pub const PYTH_VERSION_2: u32 = 2;

/// The account type of a price.
pub const PYTH_ACCOUNT_TYPE_PRICE: u32 = 3;

/// The status of a price that is being traded.
pub const PYTH_STATUS_TRADING: u8 = 1;

/// Bytes up to the end of the aggregate price.
pub const PYTH_PRICE_BYTES: usize = 240;

/// Where the fields of the layout begin.
pub const VERSION_AT: usize = 4;

pub const ACCOUNT_TYPE_AT: usize = 8;

pub const EXPONENT_AT: usize = 20;

pub const TIMESTAMP_AT: usize = 96;

pub const PRICE_AT: usize = 208;

pub const STATUS_AT: usize = 224;

/// The number that bytes spell, least significant byte first.
pub open spec fn little_endian(bytes: Seq<u8>) -> nat
    decreases bytes.len(),
{
    if bytes.len() == 0 {
        0
    } else {
        bytes.first() as nat + 256 * little_endian(bytes.drop_first())
    }
}

/// The number in `n` bytes from `at` on.
pub open spec fn field(data: Seq<u8>, at: int, n: int) -> nat {
    little_endian(data.subrange(at, at + n))
}

/// The signed 32-bit number in the four bytes from `at` on, in two's complement.
pub open spec fn signed_32(data: Seq<u8>, at: int) -> i32 {
    let v = field(data, at, 4);
    (if v < 0x8000_0000 {
        v as int
    } else {
        v - 0x1_0000_0000
    }) as i32
}

/// The signed 64-bit number in the eight bytes from `at` on, in two's complement.
pub open spec fn signed_64(data: Seq<u8>, at: int) -> i64 {
    let v = field(data, at, 8);
    (if v < 0x8000_0000_0000_0000 {
        v as int
    } else {
        v - 0x1_0000_0000_0000_0000
    }) as i64
}

/// A number of `n` bytes is below 256 to the power of `n`.
proof fn lemma_little_endian_bound(bytes: Seq<u8>)
    ensures
        little_endian(bytes) < pow(256, bytes.len()),
    decreases bytes.len(),
{
    if bytes.len() == 0 {
        vstd::arithmetic::power::lemma_pow0(256);
    } else {
        let rest = bytes.drop_first();
        lemma_little_endian_bound(rest);
        lemma_pow_adds(256, 1, rest.len());
        lemma_pow1(256);
    }
}

/// The largest numbers of four and eight bytes.
proof fn lemma_powers()
    ensures
        pow(256, 4) == 0x1_0000_0000,
        pow(256, 8) == 0x1_0000_0000_0000_0000,
{
    lemma_pow1(256);
    lemma_pow_adds(256, 1, 1);
    lemma_pow_adds(256, 2, 2);
    lemma_pow_adds(256, 4, 4);
    let two = pow(256, 2);
    let four = pow(256, 4);
    assert(two * two == 0x1_0000_0000) by (nonlinear_arith)
        requires
            two == 0x1_0000,
    ;
    assert(four * four == 0x1_0000_0000_0000_0000) by (nonlinear_arith)
        requires
            four == 0x1_0000_0000,
    ;
}

/// Read the number in `n` bytes from `at` on.
fn read_field(data: &[u8], at: usize, n: usize) -> (r: u64)
    requires
        at + n <= data@.len(),
        n <= 8,
    ensures
        r == field(data@, at as int, n as int),
        r < pow(256, n as nat),
{
    let mut value: u64 = 0;
    let mut left: usize = n;
    while left > 0
        invariant
            at + n <= data.len(),
            left <= n <= 8,
            value == little_endian(data@.subrange(at + left, at + n)),
        decreases left,
    {
        let byte = data[at + left - 1];
        proof {
            let rest = data@.subrange(at + left, at + n);
            let longer = data@.subrange(at + left - 1, at + n);
            assert(longer.drop_first() =~= rest);
            assert(longer.first() == byte);
            lemma_little_endian_bound(longer);
            lemma_powers();
            lemma_pow_increases(256, longer.len(), 8);
        }
        value = value * 256 + byte as u64;
        left = left - 1;
    }
    proof {
        lemma_little_endian_bound(data@.subrange(at as int, at + n));
    }
    value
}

/// Read a signed 32-bit number.
fn read_signed_32(data: &[u8], at: usize) -> (r: i32)
    requires
        at + 4 <= data@.len(),
    ensures
        r == signed_32(data@, at as int),
{
    let v = read_field(data, at, 4);
    proof {
        lemma_powers();
    }
    if v < 0x8000_0000 {
        v as i32
    } else {
        (v as i64 - 0x1_0000_0000) as i32
    }
}

/// Read a signed 64-bit number.
fn read_signed_64(data: &[u8], at: usize) -> (r: i64)
    requires
        at + 8 <= data@.len(),
    ensures
        r == signed_64(data@, at as int),
{
    let v = read_field(data, at, 8);
    if v < 0x8000_0000_0000_0000 {
        v as i64
    } else {
        (v as i128 - 0x1_0000_0000_0000_0000) as i64
    }
}

/// Whether bytes have the layout of a price account.
pub open spec fn is_price_account(data: Seq<u8>) -> bool {
    &&& data.len() >= PYTH_PRICE_BYTES
    &&& field(data, 0, 4) == PYTH_MAGIC
    &&& field(data, VERSION_AT as int, 4) == PYTH_VERSION_2
    &&& field(data, ACCOUNT_TYPE_AT as int, 4) == PYTH_ACCOUNT_TYPE_PRICE
}

/// The seconds from `then` to `now`, none if `then` is still to come.
pub open spec fn seconds_since(then: int, now: int) -> u64 {
    (if now <= then {
        0
    } else {
        now - then
    }) as u64
}

/// What a price account says at the time `now`, or why it says nothing usable.
pub open spec fn reading_of(feed: Pubkey, data: Seq<u8>, now: i64) -> Result<
    PriceReading,
    StableSwapError,
> {
    if !is_price_account(data) {
        Err(StableSwapError::InvalidOracleAccount)
    } else if data[STATUS_AT as int] != PYTH_STATUS_TRADING {
        Err(StableSwapError::InvalidOraclePrice)
    } else {
        Ok(
            PriceReading {
                feed,
                price: signed_64(data, PRICE_AT as int),
                exponent: signed_32(data, EXPONENT_AT as int),
                age_sec: seconds_since(
                    signed_64(data, TIMESTAMP_AT as int) as int,
                    now as int,
                ),
            },
        )
    }
}

/// Read a price account at the time `now`.
pub fn read_price_account(feed: Pubkey, data: &[u8], now: i64) -> (r: Result<
    PriceReading,
    StableSwapError,
>)
    ensures
        r == reading_of(feed, data@, now),
{
    if data.len() < PYTH_PRICE_BYTES {
        return Err(StableSwapError::InvalidOracleAccount);
    }
    if read_field(data, 0, 4) != PYTH_MAGIC as u64 || read_field(data, VERSION_AT, 4)
        != PYTH_VERSION_2 as u64 || read_field(data, ACCOUNT_TYPE_AT, 4)
        != PYTH_ACCOUNT_TYPE_PRICE as u64 {
        return Err(StableSwapError::InvalidOracleAccount);
    }
    if data[STATUS_AT] != PYTH_STATUS_TRADING {
        return Err(StableSwapError::InvalidOraclePrice);
    }
    let timestamp = read_signed_64(data, TIMESTAMP_AT);
    let age_sec: u64 = if now <= timestamp {
        0
    } else {
        (now as i128 - timestamp as i128) as u64
    };
    Ok(
        PriceReading {
            feed,
            price: read_signed_64(data, PRICE_AT),
            exponent: read_signed_32(data, EXPONENT_AT),
            age_sec,
        },
    )
}

/// The number that four bytes spell.
pub open spec fn four_bytes(data: Seq<u8>, at: int) -> int {
    data[at] + 0x100 * data[at + 1] + 0x1_0000 * data[at + 2] + 0x100_0000 * data[at + 3]
}

/// The number that eight bytes spell.
pub open spec fn eight_bytes(data: Seq<u8>, at: int) -> int {
    four_bytes(data, at) + 0x1_0000_0000 * four_bytes(data, at + 4)
}

/// A field of four bytes, byte by byte.
proof fn lemma_four_bytes(data: Seq<u8>, at: int)
    requires
        0 <= at,
        at + 4 <= data.len(),
    ensures
        field(data, at, 4) == four_bytes(data, at),
        0 <= four_bytes(data, at) < 0x1_0000_0000,
{
    let s = data.subrange(at, at + 4);
    let s1 = s.drop_first();
    let s2 = s1.drop_first();
    let s3 = s2.drop_first();
    let s4 = s3.drop_first();
    assert(little_endian(s4) == 0);
    assert(little_endian(s3) == s3.first() as nat + 256 * little_endian(s4));
    assert(little_endian(s2) == s2.first() as nat + 256 * little_endian(s3));
    assert(little_endian(s1) == s1.first() as nat + 256 * little_endian(s2));
    assert(little_endian(s) == s.first() as nat + 256 * little_endian(s1));
}

/// A field of eight bytes, byte by byte.
proof fn lemma_eight_bytes(data: Seq<u8>, at: int)
    requires
        0 <= at,
        at + 8 <= data.len(),
    ensures
        field(data, at, 8) == eight_bytes(data, at),
        0 <= eight_bytes(data, at) < 0x1_0000_0000_0000_0000,
{
    lemma_four_bytes(data, at);
    lemma_four_bytes(data, at + 4);
    let s = data.subrange(at, at + 8);
    let s1 = s.drop_first();
    let s2 = s1.drop_first();
    let s3 = s2.drop_first();
    let s4 = s3.drop_first();
    assert(s4 =~= data.subrange(at + 4, at + 8));
    assert(little_endian(s3) == s3.first() as nat + 256 * little_endian(s4));
    assert(little_endian(s2) == s2.first() as nat + 256 * little_endian(s3));
    assert(little_endian(s1) == s1.first() as nat + 256 * little_endian(s2));
    assert(little_endian(s) == s.first() as nat + 256 * little_endian(s1));
}

/// A price account is read byte by byte: it is refused as invalid exactly if it is shorter
/// than 240 bytes or does not begin with the magic number, version 2 and account type 3, and
/// its price exactly if byte 224 is not 1. Otherwise the price stands in the bytes from 208
/// on, the exponent from 20 on and the time from 96 on, least significant byte first and in
/// two's complement; the age is the time passed since then, or none.
pub proof fn price_account_is_read_byte_by_byte(
    feed: Pubkey,
    data: Seq<u8>,
    now: i64,
    r: Result<PriceReading, StableSwapError>,
)
    requires
        r == reading_of(feed, data, now),
    ensures
        ({
            let known = {
                &&& data.len() >= 240
                &&& four_bytes(data, 0) == 0xa1b2_c3d4
                &&& four_bytes(data, 4) == 2
                &&& four_bytes(data, 8) == 3
            };
            match r {
                Err(StableSwapError::InvalidOracleAccount) => !known,
                Err(StableSwapError::InvalidOraclePrice) => known && data[224] != 1,
                Err(_) => false,
                Ok(reading) => {
                    let price = eight_bytes(data, 208);
                    let exponent = four_bytes(data, 20);
                    let time = eight_bytes(data, 96);
                    let then = if time < 0x8000_0000_0000_0000 {
                        time
                    } else {
                        time - 0x1_0000_0000_0000_0000
                    };
                    &&& known
                    &&& data[224] == 1
                    &&& reading.feed == feed
                    &&& reading.price == price || reading.price == price - 0x1_0000_0000_0000_0000
                    &&& reading.exponent == exponent || reading.exponent == exponent
                        - 0x1_0000_0000
                    &&& then <= now ==> reading.age_sec == now - then
                    &&& then > now ==> reading.age_sec == 0
                },
            }
        }),
{
    if data.len() >= 240 {
        lemma_four_bytes(data, 0);
        lemma_four_bytes(data, 4);
        lemma_four_bytes(data, 8);
        lemma_four_bytes(data, 20);
        lemma_eight_bytes(data, 96);
        lemma_eight_bytes(data, 208);
    }
}

} // verus!
