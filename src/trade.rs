use crate::instant::Instant;
use vstd::prelude::*;

verus! {

/// The sign bit of an IEEE-754 single-precision value.
pub const SIGN_BIT: u32 = 0x8000_0000;

/// The bit pattern of positive infinity in single precision; every larger
/// pattern below the sign bit is a NaN.
pub const POSITIVE_INFINITY_BITS: u32 = 0x7f80_0000;

/// The single-precision value with bit pattern `b` is greater than zero.
pub open spec fn positive_bits(b: u32) -> bool {
    0 < b && b <= POSITIVE_INFINITY_BITS
}

/// The single-precision value with bit pattern `b` is less than zero.
pub open spec fn negative_bits(b: u32) -> bool {
    SIGN_BIT < b && b <= SIGN_BIT + POSITIVE_INFINITY_BITS
}

/// The bit pattern of the negation of the value with bit pattern `b`.
pub open spec fn negated_bits(b: u32) -> u32 {
    if b < SIGN_BIT {
        (b + SIGN_BIT) as u32
    } else {
        (b - SIGN_BIT) as u32
    }
}

/// The bit pattern of the absolute value of the value with bit pattern `b`.
pub open spec fn magnitude_bits(b: u32) -> u32 {
    if b < SIGN_BIT {
        b
    } else {
        (b - SIGN_BIT) as u32
    }
}

/// One row as the store holds it. Single-precision columns travel as their
/// bit patterns; `time` is the stored timestamp read as UTC.
#[derive(Clone, Copy, Debug, PartialEq, Eq, Structural)]
pub struct TradeRow {
    pub id: i32,
    pub liquidation: bool,
    pub price_bits: u32,
    /// `true` for a buy, `false` for a sell.
    pub side: bool,
    pub size_bits: u32,
    pub time: Instant,
}

/// A trade as handed to consumers: the side is the sign of `amount_bits`,
/// the bit pattern of the signed size.
#[derive(Clone, Copy, Debug, PartialEq, Eq, Structural)]
pub struct Trade {
    pub timestamp: Instant,
    pub price_bits: u32,
    pub amount_bits: u32,
}

/// The trade that a row stands for: the timestamp and price as stored, and
/// the size signed by the side.
pub open spec fn normalized(row: TradeRow) -> Trade {
    Trade {
        timestamp: row.time,
        price_bits: row.price_bits,
        amount_bits: if row.side {
            row.size_bits
        } else {
            negated_bits(row.size_bits)
        },
    }
}

fn negate_bits(b: u32) -> (r: u32)
    ensures
        r == negated_bits(b),
{
    if b < SIGN_BIT {
        b + SIGN_BIT
    } else {
        b - SIGN_BIT
    }
}

impl From<TradeRow> for Trade {
    fn from(row: TradeRow) -> (t: Trade) {
        let amount_bits = if row.side {
            row.size_bits
        } else {
            negate_bits(row.size_bits)
        };
        Trade { timestamp: row.time, price_bits: row.price_bits, amount_bits }
    }
}

impl vstd::std_specs::convert::FromSpecImpl<TradeRow> for Trade {
    open spec fn obeys_from_spec() -> bool {
        true
    }

    open spec fn from_spec(row: TradeRow) -> Trade {
        normalized(row)
    }
}

impl Trade {
    /// The trade that `row` stands for.
    pub fn from_row(row: &TradeRow) -> (t: Trade)
        ensures
            t == normalized(*row),
    {
        Trade::from(*row)
    }

    /// The amount is greater than zero.
    pub fn is_buy(&self) -> (r: bool)
        ensures
            r == positive_bits(self.amount_bits),
    {
        0 < self.amount_bits && self.amount_bits <= POSITIVE_INFINITY_BITS
    }

    /// The amount is less than zero.
    pub fn is_sell(&self) -> (r: bool)
        ensures
            r == negative_bits(self.amount_bits),
    {
        SIGN_BIT < self.amount_bits && self.amount_bits <= SIGN_BIT + POSITIVE_INFINITY_BITS
    }
}

/// For a row whose size is a positive number, the trade is a buy exactly when
/// the row's side is buy, a sell exactly when it is sell, and the magnitude of
/// its amount is the row's size.
pub proof fn lemma_side_is_sign(row: TradeRow)
    requires
        positive_bits(row.size_bits),
    ensures
        positive_bits(normalized(row).amount_bits) == row.side,
        negative_bits(normalized(row).amount_bits) == !row.side,
        magnitude_bits(normalized(row).amount_bits) == row.size_bits,
{
}

} // verus!
