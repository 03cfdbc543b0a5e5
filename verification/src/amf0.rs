//! AMF0, the value encoding of RTMP commands: strings, numbers, booleans,
//! null, undefined, and objects and ECMA arrays of such values.
//!
//! A number is carried as the 64 bits of its IEEE 754 double, so that no
//! floating point is needed; `number_to_u32` and `u32_to_number` convert
//! between those bits and integers.
use vstd::prelude::*;
use vstd::arithmetic::div_mod::{
    lemma_div_by_multiple,
    lemma_fundamental_div_mod_converse,
};
use vstd::arithmetic::mul::{
    lemma_mul_is_distributive_add_other_way,
    lemma_mul_strict_inequality,
    lemma_mul_inequality,
};
use vstd::arithmetic::power2::{
    pow2,
    lemma_pow2_adds,
    lemma_pow2_pos,
    lemma_pow2_strictly_increases,
    lemma2_to64,
    lemma_pow2_unfold,
};
use vstd::bits::{lemma_u64_shl_is_mul, lemma_u64_pow2_no_overflow};
use vstd::bytes::{
    spec_u64_from_le_bytes,
    spec_u64_to_le_bytes,
    u64_from_le_bytes,
    u64_to_le_bytes,
    lemma_auto_spec_u64_to_from_le_bytes,
};
use vstd::slice::{slice_subrange, slice_to_vec};

use crate::error::ProtocolError;

verus! {

/// Type marker of a number.
pub const NUMBER_MARKER: u8 = 0x00;

/// Type marker of a boolean.
pub const BOOLEAN_MARKER: u8 = 0x01;

/// Type marker of a string.
pub const STRING_MARKER: u8 = 0x02;

/// Type marker of an object.
pub const OBJECT_MARKER: u8 = 0x03;

/// Type marker of null.
pub const NULL_MARKER: u8 = 0x05;

/// Type marker of undefined.
pub const UNDEFINED_MARKER: u8 = 0x06;

/// Type marker of an ECMA array.
pub const ECMA_ARRAY_MARKER: u8 = 0x08;

/// The marker that, after an empty key, ends an object.
pub const OBJECT_END_MARKER: u8 = 0x09;

// ---------------------------------------------------------------- models

/// A value that is neither an object nor an array.
pub enum ScalarModel {
    Number(u64),
    Boolean(bool),
    Str(Seq<u8>),
    Null,
    Undefined,
}

/// A value as the decoder sees it: a scalar, or an object or ECMA array
/// whose properties hold scalars.
pub enum ValueModel {
    Scalar(ScalarModel),
    Object(Seq<(Seq<u8>, ScalarModel)>),
    EcmaArray(Seq<(Seq<u8>, ScalarModel)>),
}

/// A scalar AMF0 value.
#[derive(Debug, PartialEq, Eq)]
pub enum AmfScalar {
    /// The bits of an IEEE 754 double.
    Number(u64),
    Boolean(bool),
    Str(Vec<u8>),
    Null,
    Undefined,
}

impl View for AmfScalar {
    type V = ScalarModel;

    open spec fn view(&self) -> ScalarModel {
        match self {
            AmfScalar::Number(b) => ScalarModel::Number(*b),
            AmfScalar::Boolean(b) => ScalarModel::Boolean(*b),
            AmfScalar::Str(s) => ScalarModel::Str(s@),
            AmfScalar::Null => ScalarModel::Null,
            AmfScalar::Undefined => ScalarModel::Undefined,
        }
    }
}

/// A named value of an object or an ECMA array.
#[derive(Debug, PartialEq, Eq)]
pub struct AmfProperty {
    pub key: Vec<u8>,
    pub value: AmfScalar,
}

impl View for AmfProperty {
    type V = (Seq<u8>, ScalarModel);

    open spec fn view(&self) -> (Seq<u8>, ScalarModel) {
        (self.key@, self.value@)
    }
}

/// The models of a list of properties.
pub open spec fn props_view(p: Seq<AmfProperty>) -> Seq<(Seq<u8>, ScalarModel)> {
    p.map_values(|x: AmfProperty| x@)
}

/// An AMF0 value.
#[derive(Debug, PartialEq, Eq)]
pub enum AmfValue {
    Scalar(AmfScalar),
    Object(Vec<AmfProperty>),
    EcmaArray(Vec<AmfProperty>),
}

impl View for AmfValue {
    type V = ValueModel;

    open spec fn view(&self) -> ValueModel {
        match self {
            AmfValue::Scalar(s) => ValueModel::Scalar(s@),
            AmfValue::Object(p) => ValueModel::Object(props_view(p@)),
            AmfValue::EcmaArray(p) => ValueModel::EcmaArray(props_view(p@)),
        }
    }
}

/// The models of a list of values.
pub open spec fn values_view(v: Seq<AmfValue>) -> Seq<ValueModel> {
    v.map_values(|x: AmfValue| x@)
}


// --------------------------------------------------------------- numbers

/// 2 to the 52nd: the unit of a double's exponent field.
pub const FRACTION_UNIT: u64 = 0x10000000000000;

/// The integer part of the double whose bits are `bits`, as Rust's
/// `as u32` takes it: 0 for NaN and for values below one (negative ones
/// among them), `u32::MAX` for values of 2^32 and more.
pub open spec fn number_to_u32(bits: u64) -> u32 {
    let exp = (bits / FRACTION_UNIT) % 2048;
    let mant = bits % FRACTION_UNIT;
    if exp == 2047 && mant != 0 {
        0
    } else if bits >= 0x8000000000000000 {
        0
    } else if exp < 1023 {
        0
    } else if exp >= 1023 + 32 {
        u32::MAX
    } else {
        ((FRACTION_UNIT + mant) as int / pow2((52 - (exp - 1023)) as nat) as int) as u32
    }
}

/// The position of the highest set bit of `n` (0 for 0 and 1).
pub open spec fn log2(n: nat) -> nat
    decreases n,
{
    if n <= 1 {
        0
    } else {
        1 + log2(n / 2)
    }
}

/// The bits of the double whose value is `n`.
pub open spec fn u32_to_number(n: u32) -> u64 {
    if n == 0 {
        0
    } else {
        let e = log2(n as nat);
        ((1023 + e) * FRACTION_UNIT + (n - pow2(e)) * pow2((52 - e) as nat)) as u64
    }
}

proof fn lemma_log2_bounds(n: nat)
    requires
        n >= 1,
    ensures
        pow2(log2(n)) <= n < pow2(log2(n) + 1),
    decreases n,
{
    if n <= 1 {
        lemma2_to64();
    } else {
        lemma_log2_bounds(n / 2);
        lemma_pow2_unfold(log2(n));
        lemma_pow2_unfold(log2(n) + 1);
    }
}

proof fn lemma_log2_u32(n: u32)
    requires
        n >= 1,
    ensures
        log2(n as nat) <= 31,
        pow2(log2(n as nat)) <= n < pow2(log2(n as nat) + 1),
{
    lemma_log2_bounds(n as nat);
    if log2(n as nat) > 31 {
        lemma2_to64();
        lemma_pow2_strictly_increases(32, log2(n as nat));
    }
}

/// The integer part of the AMF0 number whose bits are `bits`, saturated
/// to the range of `u32`.
pub fn amf_number_to_u32(bits: u64) -> (r: u32)
    ensures
        r == number_to_u32(bits),
{
    let exp = (bits / FRACTION_UNIT) % 2048;
    let mant = bits % FRACTION_UNIT;
    if exp == 2047 && mant != 0 {
        return 0;
    }
    if bits >= 0x8000000000000000 {
        return 0;
    }
    if exp < 1023 {
        return 0;
    }
    if exp >= 1023 + 32 {
        return u32::MAX;
    }
    let shift: u64 = 52 - (exp - 1023);
    proof {
        lemma_u64_pow2_no_overflow(shift as nat);
        lemma_u64_shl_is_mul(1, shift);
    }
    let d: u64 = 1u64 << shift;
    let v: u64 = (FRACTION_UNIT + mant) / d;
    v as u32
}

/// The AMF0 number whose value is `n`.
pub fn amf_number_from_u32(n: u32) -> (r: u64)
    ensures
        r == u32_to_number(n),
{
    if n == 0 {
        return 0;
    }
    proof {
        lemma_log2_u32(n);
    }
    let mut e: u64 = 0;
    let mut m: u32 = n;
    while m > 1
        invariant
            1 <= m <= n,
            e + log2(m as nat) == log2(n as nat),
            log2(n as nat) <= 31,
        decreases m,
    {
        m = m / 2;
        e += 1;
    }
    proof {
        lemma_u64_pow2_no_overflow(e as nat);
        lemma_u64_shl_is_mul(1, e);
        lemma_u64_pow2_no_overflow((52 - e) as nat);
        lemma_u64_shl_is_mul(1, (52 - e) as u64);
        lemma_pow2_adds(e as nat, (52 - e) as nat);
        lemma2_to64();
        lemma_pow2_pos((52 - e) as nat);
        lemma_mul_strict_inequality(
            n - pow2(e as nat),
            pow2(e as nat) as int,
            pow2((52 - e) as nat) as int,
        );
        lemma2_to64();
        lemma_pow2_adds(32, 20);
        assert(pow2(52) == FRACTION_UNIT);
    }
    let p: u64 = 1u64 << e;
    let q: u64 = 1u64 << (52 - e);
    (1023 + e) * FRACTION_UNIT + (n as u64 - p) * q
}

/// An integer that goes out as an AMF0 number comes back unchanged.
pub proof fn lemma_number_roundtrip(n: u32)
    ensures
        number_to_u32(u32_to_number(n)) == n,
{
    if n == 0 {
        assert(number_to_u32(0) == 0);
    } else {
        let e = log2(n as nat);
        lemma_log2_u32(n);
        let p = pow2(e);
        let q = pow2((52 - e) as nat);
        lemma_pow2_adds(e, (52 - e) as nat);
        lemma_pow2_pos((52 - e) as nat);
        lemma2_to64();
        lemma_pow2_adds(32, 20);
        assert(pow2(52) == FRACTION_UNIT);
        lemma_mul_strict_inequality(n - p, p as int, q as int);
        let r: int = (n - p) * q;
        assert(0 <= r < FRACTION_UNIT) by {
            lemma_mul_inequality(0, n - p, q as int);
        }
        let bits: int = (1023 + e) * FRACTION_UNIT + r;
        assert(bits < 0x8000000000000000);
        lemma_fundamental_div_mod_converse(bits, FRACTION_UNIT as int, (1023 + e) as int, r);
        assert(u32_to_number(n) == bits);
        lemma_mul_is_distributive_add_other_way(q as int, p as int, n - p);
        assert(FRACTION_UNIT + r == n * q);
        lemma_div_by_multiple(n as int, q as int);
    }
}

// -------------------------------------------------------------- decoding

/// The two bytes at `i`, most significant first.
pub open spec fn be16_at(s: Seq<u8>, i: int) -> int {
    s[i] * 256 + s[i + 1]
}

/// The eight bytes at `i`, most significant first.
pub open spec fn be64_at(s: Seq<u8>, i: int) -> u64 {
    spec_u64_from_le_bytes(s.subrange(i, i + 8).reverse())
}

/// The scalar that starts at `pos`, and the position just after it.
pub open spec fn scalar_at(s: Seq<u8>, pos: int) -> Option<(ScalarModel, int)> {
    if pos < 0 || pos >= s.len() {
        None
    } else if s[pos] == NUMBER_MARKER {
        if pos + 9 <= s.len() {
            Some((ScalarModel::Number(be64_at(s, pos + 1)), pos + 9))
        } else {
            None
        }
    } else if s[pos] == BOOLEAN_MARKER {
        if pos + 2 <= s.len() {
            Some((ScalarModel::Boolean(s[pos + 1] != 0), pos + 2))
        } else {
            None
        }
    } else if s[pos] == STRING_MARKER {
        if pos + 3 <= s.len() && pos + 3 + be16_at(s, pos + 1) <= s.len() {
            let end = pos + 3 + be16_at(s, pos + 1);
            Some((ScalarModel::Str(s.subrange(pos + 3, end)), end))
        } else {
            None
        }
    } else if s[pos] == NULL_MARKER {
        Some((ScalarModel::Null, pos + 1))
    } else if s[pos] == UNDEFINED_MARKER {
        Some((ScalarModel::Undefined, pos + 1))
    } else {
        None
    }
}

proof fn lemma_scalar_at_advances(s: Seq<u8>, pos: int)
    ensures
        scalar_at(s, pos) matches Some((v, e)) ==> pos < e <= s.len(),
{
}

/// The properties that start at `pos` (each a key of two-byte length and
/// a scalar), up to and including the end marker, and the position after.
pub open spec fn props_at(s: Seq<u8>, pos: int) -> Option<(Seq<(Seq<u8>, ScalarModel)>, int)>
    decreases s.len() - pos,
    via props_at_decreases
{
    if pos < 0 || pos + 2 > s.len() {
        None
    } else {
        let klen = be16_at(s, pos);
        if klen == 0 {
            if pos + 3 <= s.len() && s[pos + 2] == OBJECT_END_MARKER {
                Some((Seq::empty(), pos + 3))
            } else {
                None
            }
        } else if pos + 2 + klen > s.len() {
            None
        } else {
            match scalar_at(s, pos + 2 + klen) {
                None => None,
                Some((v, e)) => match props_at(s, e) {
                    None => None,
                    Some((rest, end)) => Some(
                        (seq![(s.subrange(pos + 2, pos + 2 + klen), v)] + rest, end),
                    ),
                },
            }
        }
    }
}

#[via_fn]
proof fn props_at_decreases(s: Seq<u8>, pos: int) {
    if pos >= 0 && pos + 2 <= s.len() {
        let klen = be16_at(s, pos);
        lemma_scalar_at_advances(s, pos + 2 + klen);
    }
}

/// The value that starts at `pos`, and the position just after it.
pub open spec fn value_at(s: Seq<u8>, pos: int) -> Option<(ValueModel, int)> {
    if 0 <= pos < s.len() && s[pos] == OBJECT_MARKER {
        match props_at(s, pos + 1) {
            Some((p, e)) => Some((ValueModel::Object(p), e)),
            None => None,
        }
    } else if 0 <= pos < s.len() && s[pos] == ECMA_ARRAY_MARKER {
        if pos + 5 <= s.len() {
            match props_at(s, pos + 5) {
                Some((p, e)) => Some((ValueModel::EcmaArray(p), e)),
                None => None,
            }
        } else {
            None
        }
    } else {
        match scalar_at(s, pos) {
            Some((v, e)) => Some((ValueModel::Scalar(v), e)),
            None => None,
        }
    }
}

/// The `n` values that follow one another from `pos`, and the position
/// after the last; what follows them is not read.
pub open spec fn values_at(s: Seq<u8>, pos: int, n: nat) -> Option<(Seq<ValueModel>, int)>
    decreases n,
{
    if n == 0 {
        Some((Seq::empty(), pos))
    } else {
        match value_at(s, pos) {
            None => None,
            Some((v, e)) => match values_at(s, e, (n - 1) as nat) {
                None => None,
                Some((rest, end)) => Some((seq![v] + rest, end)),
            },
        }
    }
}

/// The first `n` values of `s`, where `s` starts with that many.
pub open spec fn leading_values(s: Seq<u8>, n: nat) -> Option<Seq<ValueModel>> {
    match values_at(s, 0, n) {
        Some((v, _)) => Some(v),
        None => None,
    }
}

fn read_be16(s: &[u8], i: usize) -> (r: usize)
    requires
        i + 2 <= s@.len(),
    ensures
        r == be16_at(s@, i as int),
{
    (s[i] as usize) * 256 + (s[i + 1] as usize)
}

fn read_be64(s: &[u8], i: usize) -> (r: u64)
    requires
        i + 8 <= s@.len(),
    ensures
        r == be64_at(s@, i as int),
{
    let mut b = [0u8; 8];
    let mut k: usize = 0;
    while k < 8
        invariant
            k <= 8,
            i + 8 <= s.len(),
            b@.len() == 8,
            forall|j: int| 0 <= j < k ==> b@[j] == s@[i + 7 - j],
        decreases 8 - k,
    {
        b[k] = s[i + 7 - k];
        k += 1;
    }
    assert(b@ =~= s@.subrange(i as int, i + 8).reverse());
    u64_from_le_bytes(&b)
}

/// Decodes the scalar that starts at `pos`.
pub fn decode_scalar(s: &[u8], pos: usize) -> (r: Result<(AmfScalar, usize), ProtocolError>)
    ensures
        match scalar_at(s@, pos as int) {
            Some((v, e)) => r matches Ok((x, end)) && x@ == v && end == e,
            None => r == Err::<(AmfScalar, usize), ProtocolError>(ProtocolError::MalformedAmf),
        },
{
    if pos >= s.len() {
        return Err(ProtocolError::MalformedAmf);
    }
    let marker = s[pos];
    if marker == NUMBER_MARKER {
        if s.len() - pos >= 9 {
            let bits = read_be64(s, pos + 1);
            Ok((AmfScalar::Number(bits), pos + 9))
        } else {
            Err(ProtocolError::MalformedAmf)
        }
    } else if marker == BOOLEAN_MARKER {
        if s.len() - pos >= 2 {
            Ok((AmfScalar::Boolean(s[pos + 1] != 0), pos + 2))
        } else {
            Err(ProtocolError::MalformedAmf)
        }
    } else if marker == STRING_MARKER {
        if s.len() - pos >= 3 {
            let n = read_be16(s, pos + 1);
            if n <= s.len() - (pos + 3) {
                let bytes = slice_to_vec(slice_subrange(s, pos + 3, pos + 3 + n));
                Ok((AmfScalar::Str(bytes), pos + 3 + n))
            } else {
                Err(ProtocolError::MalformedAmf)
            }
        } else {
            Err(ProtocolError::MalformedAmf)
        }
    } else if marker == NULL_MARKER {
        Ok((AmfScalar::Null, pos + 1))
    } else if marker == UNDEFINED_MARKER {
        Ok((AmfScalar::Undefined, pos + 1))
    } else {
        Err(ProtocolError::MalformedAmf)
    }
}

/// Decodes the properties that start at `pos`, up to the end marker.
pub fn decode_props(s: &[u8], pos: usize) -> (r: Result<(Vec<AmfProperty>, usize), ProtocolError>)
    ensures
        match props_at(s@, pos as int) {
            Some((p, e)) => r matches Ok((x, end)) && props_view(x@) == p && end == e,
            None => r == Err::<(Vec<AmfProperty>, usize), ProtocolError>(
                ProtocolError::MalformedAmf,
            ),
        },
{
    let mut props: Vec<AmfProperty> = Vec::new();
    let mut p: usize = pos;
    loop
        invariant
            pos <= p,
            props_at(s@, pos as int) == (match props_at(s@, p as int) {
                Some((rest, end)) => Some((props_view(props@) + rest, end)),
                None => None,
            }),
        decreases s@.len() - p,
    {
        if p >= s.len() || s.len() - p < 2 {
            return Err(ProtocolError::MalformedAmf);
        }
        let klen = read_be16(s, p);
        if klen == 0 {
            if s.len() - p >= 3 && s[p + 2] == OBJECT_END_MARKER {
                assert(props_view(props@) + Seq::<(Seq<u8>, ScalarModel)>::empty() =~= props_view(
                    props@,
                ));
                return Ok((props, p + 3));
            } else {
                return Err(ProtocolError::MalformedAmf);
            }
        }
        if klen > s.len() - p - 2 {
            return Err(ProtocolError::MalformedAmf);
        }
        let key = slice_to_vec(slice_subrange(s, p + 2, p + 2 + klen));
        proof {
            lemma_scalar_at_advances(s@, (p + 2 + klen) as int);
        }
        let (value, e) = match decode_scalar(s, p + 2 + klen) {
            Ok(x) => x,
            Err(err) => {
                return Err(err);
            },
        };
        let ghost old_props = props@;
        let prop = AmfProperty { key, value };
        props.push(prop);
        proof {
            assert(props_view(props@) =~= props_view(old_props).push(prop@));
            match props_at(s@, e as int) {
                Some((rest, end)) => {
                    assert(props_view(old_props) + (seq![prop@] + rest) =~= props_view(props@)
                        + rest);
                },
                None => {},
            }
        }
        p = e;
    }
}

/// Decodes the value that starts at `pos`.
pub fn decode_value(s: &[u8], pos: usize) -> (r: Result<(AmfValue, usize), ProtocolError>)
    ensures
        match value_at(s@, pos as int) {
            Some((v, e)) => r matches Ok((x, end)) && x@ == v && end == e,
            None => r == Err::<(AmfValue, usize), ProtocolError>(ProtocolError::MalformedAmf),
        },
{
    if pos < s.len() && s[pos] == OBJECT_MARKER {
        let (p, e) = decode_props(s, pos + 1)?;
        Ok((AmfValue::Object(p), e))
    } else if pos < s.len() && s[pos] == ECMA_ARRAY_MARKER {
        if s.len() - pos >= 5 {
            let (p, e) = decode_props(s, pos + 5)?;
            Ok((AmfValue::EcmaArray(p), e))
        } else {
            Err(ProtocolError::MalformedAmf)
        }
    } else {
        let (v, e) = decode_scalar(s, pos)?;
        Ok((AmfValue::Scalar(v), e))
    }
}

/// Decodes the first `n` values of `s`; what follows them is not read.
pub fn decode_values(s: &[u8], n: usize) -> (r: Result<Vec<AmfValue>, ProtocolError>)
    ensures
        match leading_values(s@, n as nat) {
            Some(v) => r matches Ok(x) && values_view(x@) == v,
            None => r == Err::<Vec<AmfValue>, ProtocolError>(ProtocolError::MalformedAmf),
        },
        r matches Ok(x) ==> x@.len() == n,
{
    let mut values: Vec<AmfValue> = Vec::new();
    let mut p: usize = 0;
    let mut i: usize = 0;
    while i < n
        invariant
            i <= n,
            values@.len() == i,
            values_at(s@, 0, n as nat) == (match values_at(s@, p as int, (n - i) as nat) {
                Some((rest, end)) => Some((values_view(values@) + rest, end)),
                None => None,
            }),
        decreases n - i,
    {
        let (v, e) = match decode_value(s, p) {
            Ok(x) => x,
            Err(err) => {
                return Err(err);
            },
        };
        let ghost old_values = values@;
        values.push(v);
        proof {
            assert(values_view(values@) =~= values_view(old_values).push(v@));
            match values_at(s@, e as int, (n - i - 1) as nat) {
                Some((rest, end)) => {
                    assert(values_view(old_values) + (seq![v@] + rest) =~= values_view(values@)
                        + rest);
                },
                None => {},
            }
        }
        p = e;
        i += 1;
    }
    assert(values_view(values@) + Seq::<ValueModel>::empty() =~= values_view(values@));
    Ok(values)
}


// -------------------------------------------------------------- encoding

/// `n` in two bytes, most significant first.
pub open spec fn be16_bytes(n: int) -> Seq<u8> {
    seq![(n / 256) as u8, (n % 256) as u8]
}

/// `n` in four bytes, most significant first.
pub open spec fn be32_bytes(n: int) -> Seq<u8> {
    seq![(n / 16777216) as u8, ((n / 65536) % 256) as u8, ((n / 256) % 256) as u8, (n % 256) as u8]
}

/// `x` in eight bytes, most significant first.
pub open spec fn be64_bytes(x: u64) -> Seq<u8> {
    spec_u64_to_le_bytes(x).reverse()
}

/// The encoding of a scalar: its marker and its payload.
pub open spec fn scalar_bytes(v: ScalarModel) -> Seq<u8> {
    match v {
        ScalarModel::Number(b) => seq![NUMBER_MARKER] + be64_bytes(b),
        ScalarModel::Boolean(b) => seq![BOOLEAN_MARKER, if b { 1u8 } else { 0u8 }],
        ScalarModel::Str(s) => seq![STRING_MARKER] + be16_bytes(s.len() as int) + s,
        ScalarModel::Null => seq![NULL_MARKER],
        ScalarModel::Undefined => seq![UNDEFINED_MARKER],
    }
}

/// The encoding of properties: each key with its length, then its
/// value; then the end marker.
pub open spec fn props_bytes(p: Seq<(Seq<u8>, ScalarModel)>) -> Seq<u8>
    decreases p.len(),
{
    if p.len() == 0 {
        seq![0u8, 0u8, OBJECT_END_MARKER]
    } else {
        be16_bytes(p[0].0.len() as int) + p[0].0 + scalar_bytes(p[0].1) + props_bytes(
            p.drop_first(),
        )
    }
}

/// The encoding of a value.
pub open spec fn value_bytes(v: ValueModel) -> Seq<u8> {
    match v {
        ValueModel::Scalar(s) => scalar_bytes(s),
        ValueModel::Object(p) => seq![OBJECT_MARKER] + props_bytes(p),
        ValueModel::EcmaArray(p) => seq![ECMA_ARRAY_MARKER] + be32_bytes(p.len() as int)
            + props_bytes(p),
    }
}

/// The encoding of values one after another.
pub open spec fn values_bytes(v: Seq<ValueModel>) -> Seq<u8>
    decreases v.len(),
{
    if v.len() == 0 {
        Seq::empty()
    } else {
        value_bytes(v[0]) + values_bytes(v.drop_first())
    }
}

/// A scalar can be encoded: a string holds at most 65535 bytes.
pub open spec fn scalar_encodable(v: ScalarModel) -> bool {
    v matches ScalarModel::Str(s) ==> s.len() <= 65535
}

/// Properties can be encoded: every key holds 1 to 65535 bytes and
/// every value can be encoded.
pub open spec fn props_encodable(p: Seq<(Seq<u8>, ScalarModel)>) -> bool {
    forall|i: int|
        0 <= i < p.len() ==> 0 < #[trigger] p[i].0.len() <= 65535 && scalar_encodable(p[i].1)
}

/// A value can be encoded; an ECMA array holds fewer than 2^32 properties.
pub open spec fn value_encodable(v: ValueModel) -> bool {
    match v {
        ValueModel::Scalar(s) => scalar_encodable(s),
        ValueModel::Object(p) => props_encodable(p),
        ValueModel::EcmaArray(p) => props_encodable(p) && p.len() <= u32::MAX,
    }
}

/// Values can be encoded.
pub open spec fn values_encodable(v: Seq<ValueModel>) -> bool {
    forall|i: int| 0 <= i < v.len() ==> value_encodable(#[trigger] v[i])
}

pub(crate) fn push_be16(out: &mut Vec<u8>, n: usize)
    requires
        n <= 65535,
    ensures
        final(out)@ == old(out)@ + be16_bytes(n as int),
{
    out.push((n / 256) as u8);
    out.push((n % 256) as u8);
    assert(final(out)@ =~= old(out)@ + be16_bytes(n as int));
}

pub(crate) fn push_be32(out: &mut Vec<u8>, n: usize)
    requires
        n <= u32::MAX,
    ensures
        final(out)@ == old(out)@ + be32_bytes(n as int),
{
    out.push((n / 16777216) as u8);
    out.push(((n / 65536) % 256) as u8);
    out.push(((n / 256) % 256) as u8);
    out.push((n % 256) as u8);
    assert(final(out)@ =~= old(out)@ + be32_bytes(n as int));
}

pub(crate) fn push_bytes(out: &mut Vec<u8>, s: &[u8])
    ensures
        final(out)@ == old(out)@ + s@,
{
    let mut i: usize = 0;
    while i < s.len()
        invariant
            i <= s@.len(),
            out@ == old(out)@ + s@.subrange(0, i as int),
        decreases s@.len() - i,
    {
        out.push(s[i]);
        i += 1;
        assert(out@ =~= old(out)@ + s@.subrange(0, i as int));
    }
    assert(s@.subrange(0, s@.len() as int) =~= s@);
}

/// Appends the encoding of `v` to `out`.
pub fn encode_scalar(out: &mut Vec<u8>, v: &AmfScalar)
    requires
        scalar_encodable(v@),
    ensures
        final(out)@ == old(out)@ + scalar_bytes(v@),
{
    match v {
        AmfScalar::Number(bits) => {
            out.push(NUMBER_MARKER);
            let le = u64_to_le_bytes(*bits);
            let mut k: usize = 8;
            let ghost start = out@;
            while k > 0
                invariant
                    k <= 8,
                    le@.len() == 8,
                    out@ == start + le@.reverse().subrange(0, 8 - k),
                decreases k,
            {
                k -= 1;
                out.push(le[k]);
                assert(out@ =~= start + le@.reverse().subrange(0, 8 - k));
            }
            assert(le@.reverse().subrange(0, 8) =~= le@.reverse());
            assert(final(out)@ =~= old(out)@ + scalar_bytes(v@));
        },
        AmfScalar::Boolean(b) => {
            out.push(BOOLEAN_MARKER);
            out.push(if *b { 1u8 } else { 0u8 });
            assert(final(out)@ =~= old(out)@ + scalar_bytes(v@));
        },
        AmfScalar::Str(s) => {
            out.push(STRING_MARKER);
            push_be16(out, s.len());
            push_bytes(out, s.as_slice());
            assert(final(out)@ =~= old(out)@ + scalar_bytes(v@));
        },
        AmfScalar::Null => {
            out.push(NULL_MARKER);
            assert(final(out)@ =~= old(out)@ + scalar_bytes(v@));
        },
        AmfScalar::Undefined => {
            out.push(UNDEFINED_MARKER);
            assert(final(out)@ =~= old(out)@ + scalar_bytes(v@));
        },
    }
}

proof fn lemma_props_bytes_split(p: Seq<(Seq<u8>, ScalarModel)>, i: int)
    requires
        0 <= i <= p.len(),
    ensures
        props_bytes(p) == props_prefix_bytes(p.subrange(0, i)) + props_bytes(p.subrange(i, p.len() as int)),
    decreases i,
{
    if i == 0 {
        assert(p.subrange(0, p.len() as int) =~= p);
        assert(props_prefix_bytes(p.subrange(0, 0)) =~= Seq::<u8>::empty());
    } else {
        lemma_props_bytes_split(p, i - 1);
        let tail = p.subrange(i - 1, p.len() as int);
        assert(tail.drop_first() =~= p.subrange(i, p.len() as int));
        lemma_props_prefix_push(p.subrange(0, i - 1), p[i - 1]);
        assert(p.subrange(0, i - 1).push(p[i - 1]) =~= p.subrange(0, i));
    }
}

/// The encoding of properties without the end marker.
pub open spec fn props_prefix_bytes(p: Seq<(Seq<u8>, ScalarModel)>) -> Seq<u8>
    decreases p.len(),
{
    if p.len() == 0 {
        Seq::empty()
    } else {
        props_prefix_bytes(p.drop_last()) + be16_bytes(p.last().0.len() as int) + p.last().0
            + scalar_bytes(p.last().1)
    }
}

proof fn lemma_props_prefix_push(p: Seq<(Seq<u8>, ScalarModel)>, x: (Seq<u8>, ScalarModel))
    ensures
        props_prefix_bytes(p.push(x)) == props_prefix_bytes(p) + be16_bytes(x.0.len() as int)
            + x.0 + scalar_bytes(x.1),
{
    assert(p.push(x).drop_last() =~= p);
}

fn encode_props(out: &mut Vec<u8>, p: &Vec<AmfProperty>)
    requires
        props_encodable(props_view(p@)),
    ensures
        final(out)@ == old(out)@ + props_bytes(props_view(p@)),
{
    let ghost pv = props_view(p@);
    let mut i: usize = 0;
    while i < p.len()
        invariant
            i <= p@.len(),
            pv == props_view(p@),
            props_encodable(pv),
            out@ == old(out)@ + props_prefix_bytes(pv.subrange(0, i as int)),
        decreases p@.len() - i,
    {
        let prop = &p[i];
        assert(pv[i as int] == prop@);
        assert(0 < pv[i as int].0.len() <= 65535 && scalar_encodable(pv[i as int].1));
        push_be16(out, prop.key.len());
        push_bytes(out, prop.key.as_slice());
        encode_scalar(out, &prop.value);
        proof {
            lemma_props_prefix_push(pv.subrange(0, i as int), prop@);
            assert(pv.subrange(0, i as int).push(prop@) =~= pv.subrange(0, i + 1));
        }
        i += 1;
        assert(out@ =~= old(out)@ + props_prefix_bytes(pv.subrange(0, i as int)));
    }
    out.push(0u8);
    out.push(0u8);
    out.push(OBJECT_END_MARKER);
    proof {
        lemma_props_bytes_split(pv, pv.len() as int);
        assert(pv.subrange(0, pv.len() as int) =~= pv);
        assert(pv.subrange(pv.len() as int, pv.len() as int) =~= Seq::<(Seq<u8>, ScalarModel)>::empty());
    }
    assert(final(out)@ =~= old(out)@ + props_bytes(pv));
}

/// Appends the encoding of `v` to `out`.
pub fn encode_value(out: &mut Vec<u8>, v: &AmfValue)
    requires
        value_encodable(v@),
    ensures
        final(out)@ == old(out)@ + value_bytes(v@),
{
    match v {
        AmfValue::Scalar(s) => encode_scalar(out, s),
        AmfValue::Object(p) => {
            out.push(OBJECT_MARKER);
            encode_props(out, p);
            assert(final(out)@ =~= old(out)@ + value_bytes(v@));
        },
        AmfValue::EcmaArray(p) => {
            out.push(ECMA_ARRAY_MARKER);
            push_be32(out, p.len());
            encode_props(out, p);
            assert(final(out)@ =~= old(out)@ + value_bytes(v@));
        },
    }
}


fn scalar_ok(v: &AmfScalar) -> (r: bool)
    ensures
        r == scalar_encodable(v@),
{
    match v {
        AmfScalar::Str(s) => s.len() <= 65535,
        _ => true,
    }
}

fn props_ok(p: &Vec<AmfProperty>) -> (r: bool)
    ensures
        r == props_encodable(props_view(p@)),
{
    let ghost pv = props_view(p@);
    let mut i: usize = 0;
    while i < p.len()
        invariant
            i <= p@.len(),
            pv == props_view(p@),
            forall|j: int|
                0 <= j < i ==> 0 < #[trigger] pv[j].0.len() <= 65535 && scalar_encodable(pv[j].1),
        decreases p@.len() - i,
    {
        assert(pv[i as int] == p@[i as int]@);
        if p[i].key.len() == 0 || p[i].key.len() > 65535 || !scalar_ok(&p[i].value) {
            assert(!(0 < pv[i as int].0.len() <= 65535 && scalar_encodable(pv[i as int].1)));
            return false;
        }
        i += 1;
    }
    true
}

fn value_ok(v: &AmfValue) -> (r: bool)
    ensures
        r == value_encodable(v@),
{
    match v {
        AmfValue::Scalar(s) => scalar_ok(s),
        AmfValue::Object(p) => props_ok(p),
        AmfValue::EcmaArray(p) => props_ok(p) && p.len() <= 0xffff_ffff,
    }
}

proof fn lemma_values_bytes_push(v: Seq<ValueModel>, x: ValueModel)
    ensures
        values_bytes(v.push(x)) == values_bytes(v) + value_bytes(x),
    decreases v.len(),
{
    if v.len() == 0 {
        assert(v.push(x).drop_first() =~= Seq::<ValueModel>::empty());
        assert(v.push(x)[0] == x);
        assert(values_bytes(v.push(x).drop_first()) == Seq::<u8>::empty());
        assert(values_bytes(v) == Seq::<u8>::empty());
        assert(values_bytes(v.push(x)) =~= values_bytes(v) + value_bytes(x));
    } else {
        lemma_values_bytes_push(v.drop_first(), x);
        assert(v.push(x).drop_first() =~= v.drop_first().push(x));
        assert(v.push(x)[0] == v[0]);
        assert(values_bytes(v.push(x)) == value_bytes(v[0]) + values_bytes(v.drop_first().push(x)));
        assert(values_bytes(v) == value_bytes(v[0]) + values_bytes(v.drop_first()));
        assert(values_bytes(v.push(x)) =~= values_bytes(v) + value_bytes(x));
    }
}

/// Encodes `values` one after another. Refused, with `Unencodable`,
/// exactly when one of them cannot be encoded.
pub fn encode_values(values: &Vec<AmfValue>) -> (r: Result<Vec<u8>, ProtocolError>)
    ensures
        values_encodable(values_view(values@)) ==> (r matches Ok(b) && b@ == values_bytes(
            values_view(values@),
        )),
        !values_encodable(values_view(values@)) ==> r == Err::<Vec<u8>, ProtocolError>(
            ProtocolError::Unencodable,
        ),
{
    let ghost vv = values_view(values@);
    let mut i: usize = 0;
    while i < values.len()
        invariant
            i <= values@.len(),
            vv == values_view(values@),
            forall|j: int| 0 <= j < i ==> value_encodable(#[trigger] vv[j]),
        decreases values@.len() - i,
    {
        assert(vv[i as int] == values@[i as int]@);
        if !value_ok(&values[i]) {
            return Err(ProtocolError::Unencodable);
        }
        i += 1;
    }
    let mut out: Vec<u8> = Vec::new();
    let mut k: usize = 0;
    while k < values.len()
        invariant
            k <= values@.len(),
            vv == values_view(values@),
            values_encodable(vv),
            out@ == values_bytes(vv.subrange(0, k as int)),
        decreases values@.len() - k,
    {
        assert(vv[k as int] == values@[k as int]@);
        assert(value_encodable(vv[k as int]));
        encode_value(&mut out, &values[k]);
        proof {
            lemma_values_bytes_push(vv.subrange(0, k as int), vv[k as int]);
            assert(vv.subrange(0, k as int).push(vv[k as int]) =~= vv.subrange(0, k + 1));
        }
        k += 1;
    }
    assert(vv.subrange(0, vv.len() as int) =~= vv);
    Ok(out)
}

// ------------------------------------------------------------ round trip

proof fn lemma_window(s: Seq<u8>, pos: int, b: Seq<u8>, off: int, len: int)
    requires
        0 <= pos,
        pos + b.len() <= s.len(),
        s.subrange(pos, pos + b.len()) == b,
        0 <= off,
        0 <= len,
        off + len <= b.len(),
    ensures
        s.subrange(pos + off, pos + off + len) == b.subrange(off, off + len),
{
    assert forall|i: int| 0 <= i < len implies #[trigger] s.subrange(pos + off, pos + off + len)[i]
        == b.subrange(off, off + len)[i] by {
        assert(s.subrange(pos, pos + b.len())[off + i] == s[pos + off + i]);
    }
    assert(s.subrange(pos + off, pos + off + len) =~= b.subrange(off, off + len));
}

proof fn lemma_scalar_roundtrip(v: ScalarModel, s: Seq<u8>, pos: int)
    requires
        scalar_encodable(v),
        0 <= pos,
        pos + scalar_bytes(v).len() <= s.len(),
        s.subrange(pos, pos + scalar_bytes(v).len()) == scalar_bytes(v),
    ensures
        scalar_at(s, pos) == Some((v, pos + scalar_bytes(v).len())),
{
    let b = scalar_bytes(v);
    assert(s[pos] == b[0]);
    match v {
        ScalarModel::Number(x) => {
            lemma_auto_spec_u64_to_from_le_bytes();
            assert(s.subrange(pos + 1, pos + 9) =~= b.subrange(1, 9));
            assert(b.subrange(1, 9) =~= be64_bytes(x));
            assert(be64_bytes(x).reverse() =~= spec_u64_to_le_bytes(x));
        },
        ScalarModel::Boolean(x) => {
            assert(s[pos + 1] == b[1]);
        },
        ScalarModel::Str(t) => {
            assert(s[pos + 1] == b[1]);
            assert(s[pos + 2] == b[2]);
            assert(be16_at(s, pos + 1) == t.len());
            lemma_window(s, pos, b, 3, t.len() as int);
            assert(b.subrange(3, 3 + t.len() as int) =~= t);
        },
        _ => {},
    }
}

proof fn lemma_props_roundtrip(p: Seq<(Seq<u8>, ScalarModel)>, s: Seq<u8>, pos: int)
    requires
        props_encodable(p),
        0 <= pos,
        pos + props_bytes(p).len() <= s.len(),
        s.subrange(pos, pos + props_bytes(p).len()) == props_bytes(p),
    ensures
        props_at(s, pos) == Some((p, pos + props_bytes(p).len())),
    decreases p.len(),
{
    let b = props_bytes(p);
    if p.len() == 0 {
        assert(s[pos] == b[0] && s[pos + 1] == b[1] && s[pos + 2] == b[2]);
        assert(p =~= Seq::<(Seq<u8>, ScalarModel)>::empty());
    } else {
        let k = p[0].0;
        let v = p[0].1;
        assert(0 < p[0].0.len() <= 65535 && scalar_encodable(p[0].1));
        let klen = k.len() as int;
        let sb = scalar_bytes(v);
        let rest = props_bytes(p.drop_first());
        assert(s[pos] == b[0] && s[pos + 1] == b[1]);
        assert(be16_at(s, pos) == klen);
        lemma_window(s, pos, b, 2, klen);
        assert(b.subrange(2, 2 + klen) =~= k);
        let vpos = pos + 2 + klen;
        lemma_window(s, pos, b, 2 + klen, sb.len() as int);
        assert(b.subrange(2 + klen, 2 + klen + sb.len()) =~= sb);
        lemma_scalar_roundtrip(v, s, vpos);
        let rpos = vpos + sb.len();
        lemma_window(s, pos, b, 2 + klen + sb.len(), rest.len() as int);
        assert(b.subrange(2 + klen + sb.len(), 2 + klen + sb.len() + rest.len()) =~= rest);
        assert forall|i: int| 0 <= i < p.drop_first().len() implies 0 < #[trigger] p.drop_first()[i].0.len() <= 65535
            && scalar_encodable(p.drop_first()[i].1) by {
            assert(p.drop_first()[i] == p[i + 1]);
            assert(0 < p[i + 1].0.len() <= 65535 && scalar_encodable(p[i + 1].1));
        }
        lemma_props_roundtrip(p.drop_first(), s, rpos);
        assert(seq![(k, v)] + p.drop_first() =~= p);
    }
}

proof fn lemma_value_roundtrip(v: ValueModel, s: Seq<u8>, pos: int)
    requires
        value_encodable(v),
        0 <= pos,
        pos + value_bytes(v).len() <= s.len(),
        s.subrange(pos, pos + value_bytes(v).len()) == value_bytes(v),
    ensures
        value_at(s, pos) == Some((v, pos + value_bytes(v).len())),
{
    let b = value_bytes(v);
    assert(s[pos] == b[0]);
    match v {
        ValueModel::Scalar(x) => {
            lemma_scalar_roundtrip(x, s, pos);
        },
        ValueModel::Object(p) => {
            lemma_window(s, pos, b, 1, b.len() - 1);
            assert(b.subrange(1, b.len() as int) =~= props_bytes(p));
            lemma_props_roundtrip(p, s, pos + 1);
        },
        ValueModel::EcmaArray(p) => {
            lemma_window(s, pos, b, 5, b.len() - 5);
            assert(b.subrange(5, b.len() as int) =~= props_bytes(p));
            lemma_props_roundtrip(p, s, pos + 5);
        },
    }
}

proof fn lemma_values_roundtrip(vs: Seq<ValueModel>, s: Seq<u8>, pos: int)
    requires
        values_encodable(vs),
        0 <= pos,
        pos + values_bytes(vs).len() <= s.len(),
        s.subrange(pos, pos + values_bytes(vs).len()) == values_bytes(vs),
    ensures
        values_at(s, pos, vs.len()) == Some((vs, pos + values_bytes(vs).len())),
    decreases vs.len(),
{
    if vs.len() == 0 {
        assert(vs =~= Seq::<ValueModel>::empty());
    } else {
        let first = value_bytes(vs[0]);
        let rest = values_bytes(vs.drop_first());
        assert(value_encodable(vs[0]));
        let b = values_bytes(vs);
        lemma_window(s, pos, b, 0, first.len() as int);
        assert(b.subrange(0, first.len() as int) =~= first);
        lemma_value_roundtrip(vs[0], s, pos);
        lemma_window(s, pos, b, first.len() as int, rest.len() as int);
        assert(b.subrange(first.len() as int, (first.len() + rest.len()) as int) =~= rest);
        assert forall|i: int| 0 <= i < vs.drop_first().len() implies value_encodable(
            #[trigger] vs.drop_first()[i],
        ) by {
            assert(vs.drop_first()[i] == vs[i + 1]);
        }
        lemma_values_roundtrip(vs.drop_first(), s, pos + first.len());
        assert(seq![vs[0]] + vs.drop_first() =~= vs);
    }
}

/// Values that were encoded decode back to themselves, whatever follows
/// their encoding.
pub proof fn lemma_decode_encode(vs: Seq<ValueModel>, rest: Seq<u8>)
    requires
        values_encodable(vs),
    ensures
        leading_values(values_bytes(vs) + rest, vs.len()) == Some(vs),
{
    let s = values_bytes(vs) + rest;
    assert(s.subrange(0, values_bytes(vs).len() as int) =~= values_bytes(vs));
    lemma_values_roundtrip(vs, s, 0);
}


proof fn lemma_values_at_prefix(s: Seq<u8>, pos: int, n: nat, m: nat)
    requires
        m <= n,
        values_at(s, pos, n) is Some,
    ensures
        (values_at(s, pos, n)->0).0.len() == n,
        values_at(s, pos, m) is Some,
        (values_at(s, pos, m)->0).0 == (values_at(s, pos, n)->0).0.take(m as int),
    decreases n,
{
    if n > 0 {
        let (v, e) = value_at(s, pos)->0;
        let k: nat = if m > 0 {
            (m - 1) as nat
        } else {
            0
        };
        lemma_values_at_prefix(s, e, (n - 1) as nat, k);
        let rest = (values_at(s, e, (n - 1) as nat)->0).0;
        if m > 0 {
            assert((seq![v] + rest).take(m as int) =~= seq![v] + rest.take(k as int));
        } else {
            assert((seq![v] + rest).take(0) =~= Seq::<ValueModel>::empty());
        }
    }
}

/// Reading the first `m` values gives the first `m` of any longer run of
/// values that `s` starts with.
pub proof fn lemma_leading_values_prefix(s: Seq<u8>, n: nat, m: nat)
    requires
        m <= n,
        leading_values(s, n) is Some,
    ensures
        leading_values(s, n)->0.len() == n,
        leading_values(s, m) == Some(leading_values(s, n)->0.take(m as int)),
{
    lemma_values_at_prefix(s, 0, n, m);
}

} // verus!
