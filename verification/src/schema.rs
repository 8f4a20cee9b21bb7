//! The field schema: descriptors of the named, byte-addressed slices that
//! make up one row of the caller's buffer, and the parser that validates
//! them against the row stride before any buffer access happens.

use vstd::prelude::*;

use crate::errors::CodecError;

verus! {

/// The kind of a schema field, determining how values are coerced into it.
#[derive(Debug, Clone, Copy, PartialEq, Eq, Structural)]
pub enum DtypeKind {
    Int,
    Uint,
    Float,
    FixedBytes,
    VoidBytes,
}

/// Metadata for a single field within a row: a named byte slice with a
/// declared kind and width.
#[derive(Debug, Clone, PartialEq)]
pub struct FieldInfo {
    /// Field name, matching a record's bin name.
    pub name: String,
    /// Byte offset of this field within a row.
    pub offset: usize,
    /// Total byte size of this field (may exceed `base_itemsize` for
    /// sub-array fields).
    pub itemsize: usize,
    /// Byte size of one base scalar element.
    pub base_itemsize: usize,
    /// The kind of the base element.
    pub kind: DtypeKind,
}

/// An unvalidated field description as the caller supplies it: the raw
/// element-type tag has not been mapped to a kind yet, and no bound has
/// been checked.
#[derive(Debug, Clone, PartialEq)]
pub struct RawField {
    pub name: String,
    pub offset: usize,
    pub itemsize: usize,
    pub base_itemsize: usize,
    /// Element-type tag: `i` signed, `u` unsigned, `f` float, `S` fixed
    /// bytes, `V` opaque bytes.
    pub kind_code: char,
}

/// A validated schema: field descriptors plus the row stride. Immutable
/// once parsed; every field is known to lie within the stride.
#[derive(Debug, Clone, PartialEq)]
pub struct Schema {
    pub fields: Vec<FieldInfo>,
    pub row_stride: usize,
}

/// Whether an element-type tag is one the codec understands.
pub open spec fn tag_known(c: char) -> bool {
    c == 'i' || c == 'u' || c == 'f' || c == 'S' || c == 'V'
}

/// The kind a known element-type tag maps to.
pub open spec fn kind_of_tag(c: char) -> DtypeKind
    recommends
        tag_known(c),
{
    if c == 'i' {
        DtypeKind::Int
    } else if c == 'u' {
        DtypeKind::Uint
    } else if c == 'f' {
        DtypeKind::Float
    } else if c == 'S' {
        DtypeKind::FixedBytes
    } else {
        DtypeKind::VoidBytes
    }
}

/// Whether a raw field's byte range lies within the row stride and its
/// base element lies within its own slot.
pub open spec fn field_fits(r: RawField, row_stride: usize) -> bool {
    r.offset + r.itemsize <= row_stride && r.base_itemsize <= r.itemsize
}

/// Whether a raw field passes validation against the row stride.
pub open spec fn raw_field_ok(r: RawField, row_stride: usize) -> bool {
    tag_known(r.kind_code) && field_fits(r, row_stride)
}

/// Whether a descriptor is the validated form of a raw field.
pub open spec fn field_matches_raw(f: FieldInfo, r: RawField) -> bool {
    f.name@ == r.name@ && f.offset == r.offset && f.itemsize == r.itemsize
        && f.base_itemsize == r.base_itemsize && f.kind == kind_of_tag(r.kind_code)
}

/// Whether an error is the one a given raw field fails validation with.
pub open spec fn parse_error_matches(e: CodecError, r: RawField, row_stride: usize) -> bool {
    if !tag_known(r.kind_code) {
        e matches CodecError::UnsupportedFieldKind { field, tag } && field@ == r.name@ && tag
            == r.kind_code
    } else {
        e matches CodecError::FieldOutOfBounds { field, offset, itemsize, row_stride: rs }
            && field@ == r.name@ && offset == r.offset && itemsize == r.itemsize && rs
            == row_stride
    }
}

impl FieldInfo {
    /// The field's byte range lies within the row stride, and its base
    /// element within its own slot.
    pub open spec fn fits(self, row_stride: usize) -> bool {
        self.offset + self.itemsize <= row_stride && self.base_itemsize <= self.itemsize
    }
}

impl Schema {
    /// Every field of the schema lies within the row stride: the guarantee
    /// the parser establishes before any buffer is accessed.
    pub open spec fn wf(self) -> bool {
        forall|i: int| 0 <= i < self.fields@.len() ==> #[trigger] self.fields@[i].fits(
            self.row_stride,
        )
    }
}

/// Parse a caller-supplied field-schema description into validated
/// descriptors, rejecting any field that would overrun the row.
///
/// Succeeds exactly when every field's tag is known and its byte range
/// fits the stride; the error names the first offending field, and nothing
/// has been written anywhere when it is returned.
pub fn parse_dtype_fields(raw: &Vec<RawField>, row_stride: usize) -> (r: Result<
    Schema,
    CodecError,
>)
    ensures
        r matches Ok(s) ==> {
            &&& forall|i: int|
                0 <= i < raw@.len() ==> #[trigger] raw_field_ok(raw@[i], row_stride)
            &&& s.row_stride == row_stride
            &&& s.fields@.len() == raw@.len()
            &&& forall|i: int|
                0 <= i < raw@.len() ==> #[trigger] field_matches_raw(s.fields@[i], raw@[i])
            &&& s.wf()
        },
        r matches Err(e) ==> exists|i: int|
            {
                &&& 0 <= i < raw@.len()
                &&& !(#[trigger] raw_field_ok(raw@[i], row_stride))
                &&& forall|j: int| 0 <= j < i ==> #[trigger] raw_field_ok(raw@[j], row_stride)
                &&& parse_error_matches(e, raw@[i], row_stride)
            },
        r.is_ok() <==> forall|i: int|
            0 <= i < raw@.len() ==> #[trigger] raw_field_ok(raw@[i], row_stride),
{
    let mut fields: Vec<FieldInfo> = Vec::new();
    let n = raw.len();
    let mut idx: usize = 0;
    while idx < n
        invariant
            n == raw@.len(),
            0 <= idx <= n,
            fields@.len() == idx,
            forall|j: int| 0 <= j < idx ==> #[trigger] raw_field_ok(raw@[j], row_stride),
            forall|j: int|
                0 <= j < idx ==> #[trigger] field_matches_raw(fields@[j], raw@[j]),
        decreases n - idx,
    {
        let rf = &raw[idx];
        let code = rf.kind_code;
        let kind = if code == 'i' {
            DtypeKind::Int
        } else if code == 'u' {
            DtypeKind::Uint
        } else if code == 'f' {
            DtypeKind::Float
        } else if code == 'S' {
            DtypeKind::FixedBytes
        } else if code == 'V' {
            DtypeKind::VoidBytes
        } else {
            let e = CodecError::UnsupportedFieldKind { field: rf.name.clone(), tag: code };
            proof {
                assert(!raw_field_ok(raw@[idx as int], row_stride));
                assert(parse_error_matches(e, raw@[idx as int], row_stride));
            }
            return Err(e);
        };
        if rf.offset > row_stride || rf.itemsize > row_stride - rf.offset
            || rf.base_itemsize > rf.itemsize {
            let e = CodecError::FieldOutOfBounds {
                field: rf.name.clone(),
                offset: rf.offset,
                itemsize: rf.itemsize,
                row_stride,
            };
            proof {
                assert(!raw_field_ok(raw@[idx as int], row_stride));
                assert(parse_error_matches(e, raw@[idx as int], row_stride));
            }
            return Err(e);
        }
        fields.push(
            FieldInfo {
                name: rf.name.clone(),
                offset: rf.offset,
                itemsize: rf.itemsize,
                base_itemsize: rf.base_itemsize,
                kind,
            },
        );
        idx += 1;
    }
    proof {
        assert forall|i: int| 0 <= i < fields@.len() implies #[trigger] fields@[i].fits(
            row_stride,
        ) by {
            assert(field_matches_raw(fields@[i], raw@[i]));
            assert(raw_field_ok(raw@[i], row_stride));
        }
    }
    Ok(Schema { fields, row_stride })
}

} // verus!
