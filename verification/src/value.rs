//! Table variants and per-variant numeric value decoding.
//!
//! The source offers interchangeable history tables that differ only in how
//! the observed value is encoded: as a fixed-point decimal or as a binary
//! floating value. The variants form a closed set; an unrecognized table
//! name is a configuration error confined to one sync cycle.

use vstd::prelude::*;
use vstd::string::StrSliceExecFns;

verus! {

/// The closed set of history-table variants, distinguished by how the
/// observed value is encoded.
#[derive(Clone, Copy, Debug, PartialEq, Eq, Structural)]
pub enum Variant {
    /// The `history` table: values are binary floating values.
    History,
    /// The `history_uint` table: values are fixed-point decimals.
    HistoryUint,
}

/// An observed value as the source encodes it: a fixed-point decimal
/// (`mantissa * 10^-scale`) or a binary floating value carried as its
/// raw bits.
#[derive(Clone, Copy, Debug)]
pub enum RawValue {
    Fixed { mantissa: i128, scale: u32 },
    Floating { bits: u64 },
}

/// The largest mantissa magnitude a source decimal can carry: 96 bits.
pub const MAX_DECIMAL_MANTISSA: i128 = 0xFFFF_FFFF_FFFF_FFFF_FFFF_FFFF;

/// The largest scale a source decimal can carry.
pub const MAX_DECIMAL_SCALE: u32 = 28;

/// A well-formed raw value: a decimal read from the source always has a
/// 96-bit mantissa and a scale of at most 28.
pub open spec fn raw_value_wf(v: RawValue) -> bool {
    match v {
        RawValue::Fixed { mantissa, scale } => {
            &&& -MAX_DECIMAL_MANTISSA <= mantissa <= MAX_DECIMAL_MANTISSA
            &&& scale <= MAX_DECIMAL_SCALE
        },
        RawValue::Floating { .. } => true,
    }
}

/// The bits of the binary floating value nearest to the fixed-point
/// decimal `mantissa * 10^-scale`, as the decimal-to-floating conversion
/// of the source values produces them.
pub uninterp spec fn dec_bits_of(mantissa: int, scale: int) -> u64;

/// Relies on rust_decimal's `Decimal::from_i128_with_scale` and
/// `ToPrimitive::to_f64`: converts the fixed-point decimal
/// `mantissa * 10^-scale` to the nearest binary floating value, returned
/// as its raw bits. The conversion depends on the two arguments alone;
/// the bounds keep the constructor from panicking, and the conversion
/// itself never fails.
#[verifier::external_body]
fn decimal_to_bits(mantissa: i128, scale: u32) -> (r: u64)
    requires
        -MAX_DECIMAL_MANTISSA <= mantissa <= MAX_DECIMAL_MANTISSA,
        scale <= MAX_DECIMAL_SCALE,
    ensures
        r == dec_bits_of(mantissa as int, scale as int),
{
    let d = rust_decimal::Decimal::from_i128_with_scale(mantissa, scale);
    rust_decimal::prelude::ToPrimitive::to_f64(&d).unwrap().to_bits()
}

/// A mapping failure, confined to the sync cycle that met it.
#[derive(Clone, Copy, Debug, PartialEq, Eq, Structural)]
pub enum MapError {
    /// The table name matches no known variant.
    UnknownVariant,
    /// The raw value's encoding does not match the table variant.
    ValueEncoding,
}

/// The decoded value for a raw value under a table variant: the raw bits
/// of the binary floating result, or nothing when the encoding does not
/// match the variant.
pub open spec fn spec_decode_value(v: RawValue, variant: Variant) -> Option<u64> {
    match (variant, v) {
        (Variant::HistoryUint, RawValue::Fixed { mantissa, scale }) => Some(
            dec_bits_of(mantissa as int, scale as int),
        ),
        (Variant::History, RawValue::Floating { bits }) => Some(bits),
        _ => None,
    }
}

/// Decodes an observed value under a table variant: a fixed-point decimal
/// is converted to the nearest binary floating value, a floating value
/// passes through unchanged. An encoding that does not match the variant
/// is a distinguishable error, never a termination.
pub fn decode_value(v: RawValue, variant: Variant) -> (r: Result<u64, MapError>)
    requires
        raw_value_wf(v),
    ensures
        match r {
            Ok(bits) => spec_decode_value(v, variant) == Some(bits),
            Err(e) => spec_decode_value(v, variant) is None && e == MapError::ValueEncoding,
        },
{
    match (variant, v) {
        (Variant::HistoryUint, RawValue::Fixed { mantissa, scale }) => Ok(
            decimal_to_bits(mantissa, scale),
        ),
        (Variant::History, RawValue::Floating { bits }) => Ok(bits),
        _ => Err(MapError::ValueEncoding),
    }
}

/// Whether two strings hold the same characters.
pub fn str_eq(a: &str, b: &str) -> (r: bool)
    ensures
        r == (a@ == b@),
{
    let na = a.unicode_len();
    let nb = b.unicode_len();
    if na != nb {
        return false;
    }
    let mut i: usize = 0;
    while i < na
        invariant
            i <= na,
            na == a@.len(),
            nb == b@.len(),
            na == nb,
            forall|j: int| 0 <= j < i ==> a@[j] == b@[j],
        decreases na - i,
    {
        if a.get_char(i) != b.get_char(i) {
            return false;
        }
        i = i + 1;
    }
    proof {
        assert(a@ =~= b@);
    }
    true
}

/// The variant a table name selects, if any.
pub open spec fn spec_variant_of(name: Seq<char>) -> Option<Variant> {
    if name == "history"@ {
        Some(Variant::History)
    } else if name == "history_uint"@ {
        Some(Variant::HistoryUint)
    } else {
        None
    }
}

/// Selects the table variant by name; an unrecognized name yields `None`,
/// a configuration error fatal to one cycle only.
pub fn variant_of_name(name: &str) -> (r: Option<Variant>)
    ensures
        r == spec_variant_of(name@),
{
    if str_eq(name, "history") {
        Some(Variant::History)
    } else if str_eq(name, "history_uint") {
        Some(Variant::HistoryUint)
    } else {
        None
    }
}

} // verus!
