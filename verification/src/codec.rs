//! Value coercion: writing a dynamic value into a schema field's bytes
//! and reading one back.
//!
//! The write rules, per value type and field kind: integers and booleans
//! narrow or widen to the field's scalar width with two's-complement
//! truncation; floats convert between widths on the bit level with round
//! to nearest even; byte and string data copies clamped to the field
//! width; `Nil` writes nothing; every other pairing is a type mismatch.
//! Reads mirror writes: integer fields reconstruct an `Int`, float fields
//! a binary64 `Float`, byte fields a `Blob` of exactly the field's width.

use vstd::prelude::*;

use crate::buffer::{
    copied, copy_clamped, le_load, le_mask, le_signed, load_le, store_le, stored,
};
use crate::errors::{spec_tag_of, tag_of, CodecError};
use crate::float_bits::{
    spec_f16_to_f64, spec_f32_to_f64, spec_f64_to_f16, spec_f64_to_f32, spec_f64_to_i64,
    spec_f64_to_u64, spec_i64_to_f64, f16_bits_to_f64_bits, f32_bits_to_f64_bits,
    f64_bits_to_f16_bits, f64_bits_to_f32_bits, f64_bits_to_i64, f64_bits_to_u64, i64_to_f64_bits,
};
use crate::schema::{DtypeKind, FieldInfo};
use crate::value::{value_equiv, FloatValue, Value};

verus! {

/// The binary64 bits of a float value; a binary32 one widens exactly.
pub open spec fn spec_float_value_bits(fv: FloatValue) -> u64 {
    match fv {
        FloatValue::F64(bits) => bits,
        FloatValue::F32(bits) => spec_f32_to_f64(bits),
    }
}

/// The binary64 bits of a float value; a binary32 one widens exactly.
pub fn float_value_to_f64_bits(fv: &FloatValue) -> (r: u64)
    ensures
        r == spec_float_value_bits(*fv),
{
    match fv {
        FloatValue::F64(bits) => *bits,
        FloatValue::F32(bits) => f32_bits_to_f64_bits(*bits),
    }
}

/// Whether a scalar width is one the codec can write for a field kind:
/// 1, 2, 4 or 8 bytes for integers, 2, 4 or 8 for floats; byte fields
/// have no scalar width to check.
pub open spec fn width_ok_for_kind(kind: DtypeKind, w: int) -> bool {
    match kind {
        DtypeKind::Int | DtypeKind::Uint => w == 1 || w == 2 || w == 4 || w == 8,
        DtypeKind::Float => w == 2 || w == 4 || w == 8,
        DtypeKind::FixedBytes | DtypeKind::VoidBytes => true,
    }
}

/// Whether a value's type can be coerced into a field's kind at all
/// (ignoring scalar widths). Blobs additionally fit numeric sub-array
/// fields, whose total width exceeds one scalar element.
pub open spec fn combo_ok(v: Value, f: FieldInfo) -> bool {
    match v {
        Value::Nil => true,
        Value::Int(_) | Value::Bool(_) | Value::Float(_) => f.kind == DtypeKind::Int || f.kind
            == DtypeKind::Uint || f.kind == DtypeKind::Float,
        Value::Blob(_) => f.kind == DtypeKind::FixedBytes || f.kind == DtypeKind::VoidBytes || (
        f.itemsize > f.base_itemsize),
        Value::String(_) => f.kind == DtypeKind::FixedBytes || f.kind == DtypeKind::VoidBytes,
        _ => false,
    }
}

/// Whether the field's scalar width suits the value: only scalar writes
/// check it; byte copies and `Nil` have nothing to check.
pub open spec fn value_width_ok(v: Value, f: FieldInfo) -> bool {
    match v {
        Value::Int(_) | Value::Bool(_) | Value::Float(_) => width_ok_for_kind(
            f.kind,
            f.base_itemsize as int,
        ),
        _ => true,
    }
}

/// Whether a write of `v` into `f` succeeds.
pub open spec fn write_ok(v: Value, f: FieldInfo) -> bool {
    combo_ok(v, f) && value_width_ok(v, f)
}

/// The bytes a float scalar write leaves: the binary64 bits `bits`
/// narrowed to the field's width.
pub open spec fn float_stored(s: Seq<u8>, pos: int, w: int, bits: u64) -> Seq<u8> {
    if w == 2 {
        stored(s, pos, 2, spec_f64_to_f16(bits) as u64)
    } else if w == 4 {
        stored(s, pos, 4, spec_f64_to_f32(bits) as u64)
    } else {
        stored(s, pos, 8, bits)
    }
}

/// The numeric value a bool coerces through: zero or one.
pub open spec fn bool_int(b: bool) -> i64 {
    if b {
        1
    } else {
        0
    }
}

/// The buffer a successful write of `v` into field `f` of the row at
/// `base` leaves behind; only the field's bytes change.
pub open spec fn written(s: Seq<u8>, base: int, f: FieldInfo, v: Value) -> Seq<u8> {
    let pos = base + f.offset;
    let w = f.base_itemsize as int;
    match v {
        Value::Nil => s,
        Value::Int(i) => match f.kind {
            DtypeKind::Int | DtypeKind::Uint => stored(s, pos, w, i as u64),
            DtypeKind::Float => float_stored(s, pos, w, spec_i64_to_f64(i)),
            _ => s,
        },
        Value::Bool(b) => match f.kind {
            DtypeKind::Int | DtypeKind::Uint => stored(s, pos, w, bool_int(b) as u64),
            DtypeKind::Float => float_stored(s, pos, w, spec_i64_to_f64(bool_int(b))),
            _ => s,
        },
        Value::Float(fv) => {
            let bits = spec_float_value_bits(fv);
            match f.kind {
                DtypeKind::Float => float_stored(s, pos, w, bits),
                DtypeKind::Int => stored(s, pos, w, spec_f64_to_i64(bits) as u64),
                DtypeKind::Uint => stored(s, pos, w, spec_f64_to_u64(bits)),
                _ => s,
            }
        },
        Value::Blob(data) => copied(s, pos, data@, f.itemsize as int),
        Value::String(st) => copied(s, pos, vstd::utf8::encode_utf8(st@), f.itemsize as int),
        _ => s,
    }
}

/// Whether `e` is the error a failed write of `v` into `f` reports:
/// a type mismatch naming the field and both types, or an unsupported
/// scalar width naming the field and the width.
pub open spec fn write_error_matches(e: CodecError, f: FieldInfo, v: Value) -> bool {
    if !combo_ok(v, f) {
        e matches CodecError::TypeMismatch { field, value, kind } && field@ == f.name@ && value
            == spec_tag_of(v) && kind == f.kind
    } else {
        e matches CodecError::UnsupportedWidth { field, width } && field@ == f.name@ && width
            == f.base_itemsize
    }
}

/// Write a signed integer into the field's scalar slot, narrowing or
/// widening to the field's width with two's-complement truncation.
pub fn write_int_to_buffer(buf: &mut Vec<u8>, row_base: usize, field: &FieldInfo, val: i64) -> (r:
    Result<(), CodecError>)
    requires
        row_base + field.offset + field.itemsize <= old(buf).len(),
        field.base_itemsize <= field.itemsize,
    ensures
        r.is_ok() <==> width_ok_for_kind(DtypeKind::Int, field.base_itemsize as int),
        r.is_ok() ==> final (buf)@ == stored(
            old(buf)@,
            row_base + field.offset,
            field.base_itemsize as int,
            val as u64,
        ),
        r matches Err(e) ==> final (buf)@ == old(buf)@ && (e matches
            CodecError::UnsupportedWidth { field: fname, width } && fname@ == field.name@ && width
            == field.base_itemsize),
{
    let w = field.base_itemsize;
    if w == 1 || w == 2 || w == 4 || w == 8 {
        store_le(buf, row_base + field.offset, w, val as u64);
        Ok(())
    } else {
        Err(CodecError::UnsupportedWidth { field: field.name.clone(), width: w })
    }
}

/// Write an unsigned integer into the field's scalar slot, narrowing or
/// widening to the field's width with truncation.
pub fn write_uint_to_buffer(buf: &mut Vec<u8>, row_base: usize, field: &FieldInfo, val: u64) -> (r:
    Result<(), CodecError>)
    requires
        row_base + field.offset + field.itemsize <= old(buf).len(),
        field.base_itemsize <= field.itemsize,
    ensures
        r.is_ok() <==> width_ok_for_kind(DtypeKind::Uint, field.base_itemsize as int),
        r.is_ok() ==> final (buf)@ == stored(
            old(buf)@,
            row_base + field.offset,
            field.base_itemsize as int,
            val,
        ),
        r matches Err(e) ==> final (buf)@ == old(buf)@ && (e matches
            CodecError::UnsupportedWidth { field: fname, width } && fname@ == field.name@ && width
            == field.base_itemsize),
{
    let w = field.base_itemsize;
    if w == 1 || w == 2 || w == 4 || w == 8 {
        store_le(buf, row_base + field.offset, w, val);
        Ok(())
    } else {
        Err(CodecError::UnsupportedWidth { field: field.name.clone(), width: w })
    }
}

/// Write a binary64 value (as bits) into the field's scalar slot,
/// narrowing to half or single precision where the field is 2 or 4 bytes
/// wide, rounding to nearest even.
pub fn write_float_to_buffer(buf: &mut Vec<u8>, row_base: usize, field: &FieldInfo, bits: u64) -> (
    r: Result<(), CodecError>)
    requires
        row_base + field.offset + field.itemsize <= old(buf).len(),
        field.base_itemsize <= field.itemsize,
    ensures
        r.is_ok() <==> width_ok_for_kind(DtypeKind::Float, field.base_itemsize as int),
        r.is_ok() ==> final (buf)@ == float_stored(
            old(buf)@,
            row_base + field.offset,
            field.base_itemsize as int,
            bits,
        ),
        r matches Err(e) ==> final (buf)@ == old(buf)@ && (e matches
            CodecError::UnsupportedWidth { field: fname, width } && fname@ == field.name@ && width
            == field.base_itemsize),
{
    let w = field.base_itemsize;
    let pos = row_base + field.offset;
    if w == 2 {
        let h = f64_bits_to_f16_bits(bits);
        store_le(buf, pos, 2, h as u64);
        Ok(())
    } else if w == 4 {
        let f = f64_bits_to_f32_bits(bits);
        store_le(buf, pos, 4, f as u64);
        Ok(())
    } else if w == 8 {
        store_le(buf, pos, 8, bits);
        Ok(())
    } else {
        Err(CodecError::UnsupportedWidth { field: field.name.clone(), width: w })
    }
}

/// Copy raw bytes into the field, clamped to the field's total width;
/// bytes past the data's end keep the buffer's prior content.
pub fn write_bytes_to_buffer(buf: &mut Vec<u8>, row_base: usize, field: &FieldInfo, data: &[u8])
    requires
        row_base + field.offset + field.itemsize <= old(buf).len(),
    ensures
        final (buf)@ == copied(old(buf)@, row_base + field.offset, data@, field.itemsize as int),
{
    copy_clamped(buf, row_base + field.offset, data, field.itemsize);
}

/// Dispatch a value to the write matching its type and the field's kind.
///
/// Succeeds exactly when the pairing is coercible and the scalar width is
/// supported; then the field's bytes hold the coerced value and no other
/// byte changes. On failure the buffer is untouched and the error names
/// the field and what failed.
pub fn write_value_to_buffer(
    buf: &mut Vec<u8>,
    row_base: usize,
    field: &FieldInfo,
    value: &Value,
) -> (r: Result<(), CodecError>)
    requires
        row_base + field.offset + field.itemsize <= old(buf).len(),
        field.base_itemsize <= field.itemsize,
    ensures
        r.is_ok() <==> write_ok(*value, *field),
        r.is_ok() ==> final (buf)@ == written(old(buf)@, row_base as int, *field, *value),
        r matches Err(e) ==> final (buf)@ == old(buf)@ && write_error_matches(e, *field, *value),
{
    match value {
        Value::Int(v) => match field.kind {
            DtypeKind::Int => write_int_to_buffer(buf, row_base, field, *v),
            DtypeKind::Uint => write_uint_to_buffer(buf, row_base, field, (*v) as u64),
            DtypeKind::Float => write_float_to_buffer(buf, row_base, field, i64_to_f64_bits(*v)),
            _ => Err(
                CodecError::TypeMismatch {
                    field: field.name.clone(),
                    value: tag_of(value),
                    kind: field.kind,
                },
            ),
        },
        Value::Float(fv) => {
            let bits = float_value_to_f64_bits(fv);
            match field.kind {
                DtypeKind::Float => write_float_to_buffer(buf, row_base, field, bits),
                DtypeKind::Int => write_int_to_buffer(buf, row_base, field, f64_bits_to_i64(bits)),
                DtypeKind::Uint => write_uint_to_buffer(
                    buf,
                    row_base,
                    field,
                    f64_bits_to_u64(bits),
                ),
                _ => Err(
                    CodecError::TypeMismatch {
                        field: field.name.clone(),
                        value: tag_of(value),
                        kind: field.kind,
                    },
                ),
            }
        },
        Value::Bool(b) => {
            let iv: i64 = if *b {
                1
            } else {
                0
            };
            match field.kind {
                DtypeKind::Int => write_int_to_buffer(buf, row_base, field, iv),
                DtypeKind::Uint => write_uint_to_buffer(buf, row_base, field, iv as u64),
                DtypeKind::Float => write_float_to_buffer(
                    buf,
                    row_base,
                    field,
                    i64_to_f64_bits(iv),
                ),
                _ => Err(
                    CodecError::TypeMismatch {
                        field: field.name.clone(),
                        value: tag_of(value),
                        kind: field.kind,
                    },
                ),
            }
        },
        Value::Blob(bytes) => match field.kind {
            DtypeKind::FixedBytes | DtypeKind::VoidBytes => {
                write_bytes_to_buffer(buf, row_base, field, bytes.as_slice());
                Ok(())
            },
            _ => {
                if field.itemsize > field.base_itemsize {
                    // sub-array: the blob is written as packed raw bytes
                    write_bytes_to_buffer(buf, row_base, field, bytes.as_slice());
                    Ok(())
                } else {
                    Err(
                        CodecError::TypeMismatch {
                            field: field.name.clone(),
                            value: tag_of(value),
                            kind: field.kind,
                        },
                    )
                }
            },
        },
        Value::String(s) => match field.kind {
            DtypeKind::FixedBytes | DtypeKind::VoidBytes => {
                write_bytes_to_buffer(buf, row_base, field, s.as_str().as_bytes());
                Ok(())
            },
            _ => Err(
                CodecError::TypeMismatch {
                    field: field.name.clone(),
                    value: tag_of(value),
                    kind: field.kind,
                },
            ),
        },
        Value::Nil => Ok(()),
        _ => Err(
            CodecError::TypeMismatch {
                field: field.name.clone(),
                value: tag_of(value),
                kind: field.kind,
            },
        ),
    }
}

/// The binary64 bits a float field's raw scalar widens to on read.
pub open spec fn float_widened(raw: u64, w: int) -> u64 {
    if w == 2 {
        spec_f16_to_f64(raw as u16)
    } else if w == 4 {
        spec_f32_to_f64(raw as u32)
    } else {
        raw
    }
}

/// Whether `v` is the value a read of field `f` from the row at `base`
/// reconstructs: integer fields an `Int` (signed or not per the kind),
/// float fields a binary64 `Float`, byte fields a `Blob` of exactly the
/// field's width.
pub open spec fn read_matches(s: Seq<u8>, base: int, f: FieldInfo, v: Value) -> bool {
    let pos = base + f.offset;
    let w = f.base_itemsize as int;
    match f.kind {
        DtypeKind::Int => v matches Value::Int(i) && i as int == le_signed(le_load(s, pos, w), w),
        DtypeKind::Uint => v matches Value::Int(i) && i == (le_load(s, pos, w) & le_mask(w)) as i64,
        DtypeKind::Float => v == Value::Float(FloatValue::F64(float_widened(le_load(s, pos, w), w))),
        DtypeKind::FixedBytes | DtypeKind::VoidBytes => v matches Value::Blob(b) && b@
            == s.subrange(pos, pos + f.itemsize),
    }
}

/// Read the value of field `f` back out of the row at `row_base`,
/// mirroring the write rules. Succeeds exactly when the scalar width is
/// supported; the error names the field and the width.
pub fn read_value_from_buffer(buf: &Vec<u8>, row_base: usize, field: &FieldInfo) -> (r: Result<
    Value,
    CodecError,
>)
    requires
        row_base + field.offset + field.itemsize <= buf.len(),
        field.base_itemsize <= field.itemsize,
    ensures
        r.is_ok() <==> width_ok_for_kind(field.kind, field.base_itemsize as int),
        r matches Ok(v) ==> read_matches(buf@, row_base as int, *field, v),
        r matches Err(e) ==> e matches CodecError::UnsupportedWidth { field: fname, width }
            && fname@ == field.name@ && width == field.base_itemsize,
{
    let w = field.base_itemsize;
    let pos = row_base + field.offset;
    match field.kind {
        DtypeKind::Int => {
            if w == 1 || w == 2 || w == 4 || w == 8 {
                let raw = load_le(buf, pos, w);
                if w == 8 {
                    Ok(Value::Int(raw as i64))
                } else {
                    let mask: u64 = if w == 1 {
                        0xFF
                    } else if w == 2 {
                        0xFFFF
                    } else {
                        0xFFFF_FFFF
                    };
                    let m = raw & mask;
                    proof {
                        assert(m <= mask) by (bit_vector)
                            requires
                                m == raw & mask,
                        ;
                    }
                    if m > mask / 2 {
                        Ok(Value::Int((m as i64) - (mask as i64) - 1))
                    } else {
                        Ok(Value::Int(m as i64))
                    }
                }
            } else {
                Err(CodecError::UnsupportedWidth { field: field.name.clone(), width: w })
            }
        },
        DtypeKind::Uint => {
            if w == 1 || w == 2 || w == 4 || w == 8 {
                let raw = load_le(buf, pos, w);
                if w == 8 {
                    proof {
                        assert(raw & 0xFFFF_FFFF_FFFF_FFFF == raw) by (bit_vector);
                    }
                    Ok(Value::Int(raw as i64))
                } else {
                    let mask: u64 = if w == 1 {
                        0xFF
                    } else if w == 2 {
                        0xFFFF
                    } else {
                        0xFFFF_FFFF
                    };
                    let m = raw & mask;
                    Ok(Value::Int(m as i64))
                }
            } else {
                Err(CodecError::UnsupportedWidth { field: field.name.clone(), width: w })
            }
        },
        DtypeKind::Float => {
            if w == 2 {
                let raw = load_le(buf, pos, 2);
                let bits = f16_bits_to_f64_bits(raw as u16);
                Ok(Value::Float(FloatValue::F64(bits)))
            } else if w == 4 {
                let raw = load_le(buf, pos, 4);
                let bits = f32_bits_to_f64_bits(raw as u32);
                Ok(Value::Float(FloatValue::F64(bits)))
            } else if w == 8 {
                let raw = load_le(buf, pos, 8);
                Ok(Value::Float(FloatValue::F64(raw)))
            } else {
                Err(CodecError::UnsupportedWidth { field: field.name.clone(), width: w })
            }
        },
        DtypeKind::FixedBytes | DtypeKind::VoidBytes => {
            let mut out: Vec<u8> = Vec::new();
            let mut j: usize = 0;
            while j < field.itemsize
                invariant
                    pos == row_base + field.offset,
                    pos + field.itemsize <= buf.len(),
                    j <= field.itemsize,
                    out@.len() == j,
                    forall|i: int| 0 <= i < j ==> out@[i] == buf@[pos + i],
                decreases field.itemsize - j,
            {
                let b = buf[pos + j];
                out.push(b);
                j = j + 1;
            }
            proof {
                assert(out@ =~= buf@.subrange(
                    row_base + field.offset,
                    row_base + field.offset + field.itemsize,
                ));
            }
            Ok(Value::Blob(out))
        },
    }
}

// ── the write/read round trip ───────────────────────────────────

/// Whether a value maps onto a field's kind with no loss, so that
/// reading the field back yields the value again: an integer that fits
/// the scalar width (signed into a signed field, non-negative into an
/// unsigned one), a binary64 float into an 8-byte float field, or a byte
/// block of exactly the field's width into a byte field.
pub open spec fn clean_fit(v: Value, f: FieldInfo) -> bool {
    let w = f.base_itemsize as int;
    match v {
        Value::Int(i) => match f.kind {
            DtypeKind::Int => (w == 1 || w == 2 || w == 4 || w == 8) && (w == 8 || (-(le_mask(w) / 2
                + 1) <= i <= le_mask(w) / 2)),
            DtypeKind::Uint => (w == 1 || w == 2 || w == 4 || w == 8) && (if w == 8 {
                true
            } else {
                0 <= i <= le_mask(w)
            }),
            _ => false,
        },
        Value::Float(fv) => fv matches FloatValue::F64(_) && f.kind == DtypeKind::Float && w == 8,
        Value::Blob(b) => (f.kind == DtypeKind::FixedBytes || f.kind == DtypeKind::VoidBytes)
            && b@.len() == f.itemsize,
        _ => false,
    }
}

/// A write changes no byte outside the field's range, and keeps the
/// buffer's length.
pub proof fn lemma_written_frame(s: Seq<u8>, base: int, f: FieldInfo, v: Value, k: int)
    requires
        write_ok(v, f),
        f.base_itemsize <= f.itemsize,
        0 <= k < s.len(),
        k < base + f.offset || k >= base + f.offset + f.itemsize,
    ensures
        written(s, base, f, v).len() == s.len(),
        written(s, base, f, v)[k] == s[k],
{
    match v {
        Value::Nil => {},
        Value::Int(_) | Value::Bool(_) | Value::Float(_) => {
            assert(width_ok_for_kind(f.kind, f.base_itemsize as int));
        },
        Value::Blob(_) | Value::String(_) => {},
        _ => {},
    }
}

/// A read looks only at the field's bytes: two buffers that agree there
/// reconstruct the same values.
pub proof fn lemma_read_agree(s1: Seq<u8>, s2: Seq<u8>, base: int, f: FieldInfo, v: Value)
    requires
        0 <= base + f.offset,
        base + f.offset + f.itemsize <= s1.len(),
        s1.len() == s2.len(),
        f.base_itemsize <= f.itemsize,
        forall|k: int| base + f.offset <= k < base + f.offset + f.itemsize ==> s1[k] == s2[k],
    ensures
        read_matches(s1, base, f, v) == read_matches(s2, base, f, v),
{
    let pos = base + f.offset;
    let w = f.base_itemsize as int;
    match f.kind {
        DtypeKind::Int | DtypeKind::Uint | DtypeKind::Float => {
            crate::buffer::lemma_le_load_agree(s1, s2, pos, w);
        },
        DtypeKind::FixedBytes | DtypeKind::VoidBytes => {
            assert(s1.subrange(pos, pos + f.itemsize) =~= s2.subrange(pos, pos + f.itemsize));
        },
    }
}

/// Round trip: a value that maps cleanly onto a field reads back as the
/// same logical value after being written.
pub proof fn lemma_write_read_round_trip(s: Seq<u8>, base: int, f: FieldInfo, v: Value, rv: Value)
    requires
        0 <= base,
        base + f.offset + f.itemsize <= s.len(),
        f.base_itemsize <= f.itemsize,
        clean_fit(v, f),
        read_matches(written(s, base, f, v), base, f, rv),
    ensures
        value_equiv(rv, v),
{
    let pos = base + f.offset;
    let w = f.base_itemsize as int;
    match v {
        Value::Int(i) => {
            crate::buffer::lemma_store_load(s, pos, w, i as u64);
            let raw = le_load(written(s, base, f, v), pos, w);
            assert(written(s, base, f, v) == stored(s, pos, w, i as u64));
            assert(raw == (i as u64) & le_mask(w));
            match f.kind {
                DtypeKind::Int => {
                    if w == 1 {
                        assert(le_signed((i as u64) & 0xFF, 1) == i) by (bit_vector)
                            requires
                                -128 <= i <= 127,
                        ;
                    } else if w == 2 {
                        assert(le_signed((i as u64) & 0xFFFF, 2) == i) by (bit_vector)
                            requires
                                -32768 <= i <= 32767,
                        ;
                    } else if w == 4 {
                        assert(le_signed((i as u64) & 0xFFFF_FFFF, 4) == i) by (bit_vector)
                            requires
                                -0x8000_0000 <= i <= 0x7FFF_FFFF,
                        ;
                    } else {
                        assert(le_signed((i as u64) & 0xFFFF_FFFF_FFFF_FFFF, 8) == i)
                            by (bit_vector);
                    }
                },
                DtypeKind::Uint => {
                    if w == 1 {
                        assert((((i as u64) & 0xFF) & 0xFF) as i64 == i) by (bit_vector)
                            requires
                                0 <= i <= 0xFF,
                        ;
                    } else if w == 2 {
                        assert((((i as u64) & 0xFFFF) & 0xFFFF) as i64 == i) by (bit_vector)
                            requires
                                0 <= i <= 0xFFFF,
                        ;
                    } else if w == 4 {
                        assert((((i as u64) & 0xFFFF_FFFF) & 0xFFFF_FFFF) as i64 == i)
                            by (bit_vector)
                            requires
                                0 <= i <= 0xFFFF_FFFF,
                        ;
                    } else {
                        assert((((i as u64) & 0xFFFF_FFFF_FFFF_FFFF) & 0xFFFF_FFFF_FFFF_FFFF) as i64
                            == i) by (bit_vector);
                    }
                },
                _ => {},
            }
        },
        Value::Float(fv) => {
            let bits = spec_float_value_bits(fv);
            crate::buffer::lemma_store_load(s, pos, 8, bits);
            assert(bits & 0xFFFF_FFFF_FFFF_FFFF == bits) by (bit_vector);
            assert(float_widened(le_load(written(s, base, f, v), pos, 8), 8) == bits);
        },
        Value::Blob(b) => {
            let t = written(s, base, f, v);
            assert(t == copied(s, pos, b@, f.itemsize as int));
            assert(t.subrange(pos, pos + f.itemsize) =~= b@);
        },
        _ => {},
    }
}

} // verus!
