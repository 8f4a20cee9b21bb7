//! The decoder: typed records extracted back out of a data buffer for a
//! batch write.
//!
//! Every row yields a key and a list of bins. The key's logical value
//! comes from the schema field named by the caller (`_key` by default);
//! reserved fields `_namespace` and `_set`, where present as byte fields,
//! are read as zero-padded text and override the caller's defaults. Every
//! other field whose name does not start with an underscore becomes a
//! bin. A missing key field fails the whole call before any row is read.

use vstd::prelude::*;

use crate::codec::{read_matches, read_value_from_buffer, width_ok_for_kind};
use crate::encode::spec_find_field;
use crate::errors::CodecError;
use crate::schema::{DtypeKind, FieldInfo, Schema};
use crate::value::{Bin, Key, Value};

verus! {

// ── trailing-zero trimming ──────────────────────────────────────

/// Length of a byte block up to (and excluding) its trailing zero bytes.
pub open spec fn spec_trim_len(b: Seq<u8>) -> int
    decreases b.len(),
{
    if b.len() == 0 {
        0
    } else if b.last() != 0 {
        b.len() as int
    } else {
        spec_trim_len(b.drop_last())
    }
}

/// A byte block with its trailing zero bytes removed.
pub open spec fn spec_trimmed(b: Seq<u8>) -> Seq<u8> {
    b.subrange(0, spec_trim_len(b))
}

/// Cut the trailing run of zero bytes off a byte block: the text content
/// of a zero-padded fixed-width field.
pub fn trim_trailing_zeros(b: &Vec<u8>) -> (r: Vec<u8>)
    ensures
        r@ == spec_trimmed(b@),
{
    let mut end: usize = b.len();
    proof {
        assert(b@.subrange(0, b@.len() as int) =~= b@);
    }
    while end > 0 && b[end - 1] == 0
        invariant
            end <= b@.len(),
            spec_trim_len(b@) == spec_trim_len(b@.subrange(0, end as int)),
        decreases end,
    {
        proof {
            assert(b@.subrange(0, end as int).drop_last() =~= b@.subrange(0, end as int - 1));
        }
        end = end - 1;
    }
    proof {
        if end > 0 {
            assert(spec_trim_len(b@.subrange(0, end as int)) == end);
        }
        assert(spec_trim_len(b@) == end);
    }
    let mut out: Vec<u8> = Vec::new();
    let mut j: usize = 0;
    while j < end
        invariant
            end <= b@.len(),
            j <= end,
            out@.len() == j,
            forall|k: int| 0 <= k < j ==> out@[k] == b@[k],
        decreases end - j,
    {
        let byte = b[j];
        out.push(byte);
        j = j + 1;
    }
    proof {
        assert(out@ =~= b@.subrange(0, spec_trim_len(b@)));
    }
    out
}

// ── lossy text decoding ─────────────────────────────────────────

/// The characters that lossy UTF-8 decoding yields for a byte block:
/// a function of the bytes alone.
pub uninterp spec fn lossy_of(b: Seq<u8>) -> Seq<char>;

/// Relies on String::from_utf8_lossy: decodes a byte block as UTF-8 text,
/// replacing invalid sequences; the result depends on the bytes alone,
/// and no bytes yield no text.
#[verifier::external_body]
fn utf8_lossy(b: &Vec<u8>) -> (r: String)
    ensures
        r@ == lossy_of(b@),
        b@.len() == 0 ==> r@.len() == 0,
{
    String::from_utf8_lossy(b.as_slice()).to_string()
}

// ── field classification ────────────────────────────────────────

/// Whether a field name starts with an underscore, marking it reserved:
/// stated over the name's UTF-8 bytes.
pub open spec fn spec_starts_underscore(name: Seq<char>) -> bool {
    vstd::utf8::encode_utf8(name).len() > 0 && vstd::utf8::encode_utf8(name)[0] == 0x5F
}

/// Whether a field name starts with an underscore.
pub fn starts_underscore(name: &String) -> (r: bool)
    ensures
        r == spec_starts_underscore(name@),
{
    let bytes = name.as_str().as_bytes();
    bytes.len() > 0 && bytes[0] == 0x5F
}

/// Whether a field becomes a bin on decode: neither the key field nor a
/// reserved (underscore-prefixed) field.
pub open spec fn is_bin_field(f: FieldInfo, key_field: Seq<char>) -> bool {
    f.name@ != key_field && !spec_starts_underscore(f.name@)
}

/// The schema's bin fields, in schema order.
pub open spec fn spec_bin_fields(fields: Seq<FieldInfo>, key_field: Seq<char>) -> Seq<FieldInfo>
    decreases fields.len(),
{
    if fields.len() == 0 {
        Seq::empty()
    } else {
        let rest = spec_bin_fields(fields.drop_first(), key_field);
        if is_bin_field(fields[0], key_field) {
            seq![fields[0]] + rest
        } else {
            rest
        }
    }
}

// ── the decode contract ─────────────────────────────────────────

/// Whether an optional reserved field, where present, can be read:
/// its scalar width is supported.
pub open spec fn readable_opt_field(fields: Seq<FieldInfo>, name: Seq<char>) -> bool {
    match spec_find_field(fields, name) {
        None => true,
        Some(f) => width_ok_for_kind(f.kind, f.base_itemsize as int),
    }
}

/// Whether a decode succeeds: the key field exists, and — where any row
/// is read at all — the key field, the reserved fields present and every
/// bin field have supported scalar widths.
pub open spec fn spec_decode_ok(fields: Seq<FieldInfo>, key_field: Seq<char>, n_rows: int) -> bool {
    &&& spec_find_field(fields, key_field) is Some
    &&& (n_rows > 0 ==> {
        let kf = spec_find_field(fields, key_field)->Some_0;
        let bf = spec_bin_fields(fields, key_field);
        &&& width_ok_for_kind(kf.kind, kf.base_itemsize as int)
        &&& readable_opt_field(fields, "_namespace"@)
        &&& readable_opt_field(fields, "_set"@)
        &&& forall|j: int|
            0 <= j < bf.len() ==> width_ok_for_kind(
                (#[trigger] bf[j]).kind,
                bf[j].base_itemsize as int,
            )
    })
}

/// The text a reserved field contributes for a row: where the field is
/// present and holds bytes, its zero-trimmed content decoded as UTF-8;
/// otherwise the caller's default.
pub open spec fn spec_text_field(
    data: Seq<u8>,
    base: int,
    fields: Seq<FieldInfo>,
    name: Seq<char>,
    dflt: Seq<char>,
) -> Seq<char> {
    match spec_find_field(fields, name) {
        None => dflt,
        Some(f) => {
            if f.kind == DtypeKind::FixedBytes || f.kind == DtypeKind::VoidBytes {
                lossy_of(spec_trimmed(data.subrange(base + f.offset, base + f.offset + f.itemsize)))
            } else {
                dflt
            }
        },
    }
}

/// Whether a decoded row entry is correct for row `i`: the key value is
/// what the key field holds, namespace and set come from the reserved
/// fields or the defaults, and the bins are exactly the bin fields' values
/// in schema order.
pub open spec fn row_matches(
    data: Seq<u8>,
    stride: int,
    i: int,
    entry: (Key, Vec<Bin>),
    fields: Seq<FieldInfo>,
    key_field: Seq<char>,
    dflt_ns: Seq<char>,
    dflt_set: Seq<char>,
) -> bool {
    let base = i * stride;
    let kf = spec_find_field(fields, key_field)->Some_0;
    let bf = spec_bin_fields(fields, key_field);
    &&& entry.0.user_key matches Some(kv) && read_matches(data, base, kf, kv)
    &&& entry.0.namespace@ == spec_text_field(data, base, fields, "_namespace"@, dflt_ns)
    &&& entry.0.set_name@ == spec_text_field(data, base, fields, "_set"@, dflt_set)
    &&& entry.1@.len() == bf.len()
    &&& forall|j: int|
        0 <= j < bf.len() ==> (#[trigger] entry.1@[j]).name@ == bf[j].name@ && read_matches(
            data,
            base,
            bf[j],
            entry.1@[j].value,
        )
}

// ── the encode/decode round trip ────────────────────────────────

/// Whether every schema field carries a distinct name.
pub open spec fn unique_field_names(fields: Seq<FieldInfo>) -> bool {
    forall|i1: int, i2: int|
        0 <= i1 < i2 < fields.len() ==> (#[trigger] fields[i1]).name@ != (
        #[trigger] fields[i2]).name@
}

/// In a schema of distinct names, looking a member field's name up finds
/// that field.
pub proof fn lemma_find_field_of_member(fields: Seq<FieldInfo>, i: int)
    requires
        unique_field_names(fields),
        0 <= i < fields.len(),
    ensures
        spec_find_field(fields, fields[i].name@) == Some(fields[i]),
    decreases fields.len(),
{
    if i > 0 {
        assert(fields[0].name@ != fields[i].name@);
        assert(unique_field_names(fields.drop_first())) by {
            assert forall|i1: int, i2: int|
                0 <= i1 < i2 < fields.drop_first().len() implies (#[trigger] fields.drop_first()[i1]).name@
                != (#[trigger] fields.drop_first()[i2]).name@ by {
                assert(fields.drop_first()[i1] == fields[i1 + 1]);
                assert(fields.drop_first()[i2] == fields[i2 + 1]);
            }
        }
        lemma_find_field_of_member(fields.drop_first(), i - 1);
        assert(fields.drop_first()[i - 1] == fields[i]);
    }
}

/// Every bin field is a field of the schema.
pub proof fn lemma_bin_fields_member(fields: Seq<FieldInfo>, key_field: Seq<char>, t: int)
    requires
        0 <= t < spec_bin_fields(fields, key_field).len(),
    ensures
        exists|i: int|
            0 <= i < fields.len() && #[trigger] fields[i] == spec_bin_fields(fields, key_field)[t],
    decreases fields.len(),
{
    let bf = spec_bin_fields(fields, key_field);
    let rest = spec_bin_fields(fields.drop_first(), key_field);
    if is_bin_field(fields[0], key_field) {
        if t == 0 {
            assert(bf[0] == fields[0]);
        } else {
            lemma_bin_fields_member(fields.drop_first(), key_field, t - 1);
            let i = choose|i: int|
                0 <= i < fields.drop_first().len() && #[trigger] fields.drop_first()[i] == rest[t
                    - 1];
            assert(fields[i + 1] == rest[t - 1]);
            assert(bf[t] == rest[t - 1]);
        }
    } else {
        lemma_bin_fields_member(fields.drop_first(), key_field, t);
        let i = choose|i: int|
            0 <= i < fields.drop_first().len() && #[trigger] fields.drop_first()[i] == rest[t];
        assert(fields[i + 1] == rest[t]);
    }
}

/// Round trip through the two public operations: in a schema of distinct
/// field names, after a cleanly mapped row of bins is encoded, the value
/// the decoder reconstructs for a bin field carrying one of those bins'
/// names is that bin's value. Together with the decoder's contract this
/// says a record encoded and decoded again comes back unchanged on every
/// field it shares with the schema.
pub proof fn lemma_encoded_row_decodes_back(
    s: Seq<u8>,
    base: int,
    fields: Seq<FieldInfo>,
    key_field: Seq<char>,
    bins: Seq<Bin>,
    t: int,
    j: int,
    rv: Value,
)
    requires
        0 <= base,
        unique_field_names(fields),
        crate::encode::row_cleanly_mapped(fields, bins),
        forall|u: int|
            0 <= u < bins.len() ==> {
                let f = crate::encode::bin_field(fields, #[trigger] bins[u]);
                base + f.offset + f.itemsize <= s.len() && f.base_itemsize <= f.itemsize && 0
                    <= f.offset
            },
        0 <= t < spec_bin_fields(fields, key_field).len(),
        0 <= j < bins.len(),
        bins[j].name@ == spec_bin_fields(fields, key_field)[t].name@,
        read_matches(
            crate::encode::bins_written(s, base, fields, bins, bins.len() as int),
            base,
            spec_bin_fields(fields, key_field)[t],
            rv,
        ),
    ensures
        crate::value::value_equiv(rv, bins[j].value),
{
    let bf = spec_bin_fields(fields, key_field);
    lemma_bin_fields_member(fields, key_field, t);
    let i = choose|i: int| 0 <= i < fields.len() && #[trigger] fields[i] == bf[t];
    lemma_find_field_of_member(fields, i);
    assert(crate::encode::bin_field(fields, bins[j]) == bf[t]);
    crate::encode::lemma_row_round_trip(s, base, fields, bins, bins.len() as int, j, rv);
}

/// Decode a data buffer into one `(key, bins)` pair per row, for a batch
/// write.
///
/// Succeeds exactly when the schema holds the key field and (where rows
/// exist) every field read has a supported width. Each row's key takes
/// the key field's value, namespace and set come from `_namespace` and
/// `_set` or the caller's defaults, and every non-reserved, non-key field
/// becomes a bin in schema order. A missing key field is reported before
/// any row is read.
pub fn numpy_to_records(
    data_buf: &Vec<u8>,
    schema: &Schema,
    n_rows: usize,
    namespace: &str,
    set_name: &str,
    key_field: &str,
) -> (r: Result<Vec<(Key, Vec<Bin>)>, CodecError>)
    requires
        schema.wf(),
        data_buf.len() == n_rows * schema.row_stride,
    ensures
        r.is_ok() <==> spec_decode_ok(schema.fields@, key_field@, n_rows as int),
        r matches Ok(out) ==> {
            &&& out@.len() == n_rows
            &&& forall|i: int|
                0 <= i < n_rows ==> row_matches(
                    data_buf@,
                    schema.row_stride as int,
                    i,
                    #[trigger] out@[i],
                    schema.fields@,
                    key_field@,
                    namespace@,
                    set_name@,
                )
        },
        r matches Err(e) ==> (if spec_find_field(schema.fields@, key_field@) is None {
            e matches CodecError::MissingKeyField { key_field: kf } && kf@ == key_field@
        } else {
            e matches CodecError::UnsupportedWidth { field, width } && exists|k: int|
                0 <= k < schema.fields@.len() && (#[trigger] schema.fields@[k]).name@ == field@
                    && schema.fields@[k].base_itemsize == width && !width_ok_for_kind(
                    schema.fields@[k].kind,
                    width as int,
                )
        }),
{
    let stride = schema.row_stride;
    let key_string: String = key_field.to_owned();
    let ns_string: String = "_namespace".to_owned();
    let set_string: String = "_set".to_owned();

    let key_idx = match crate::encode::find_field(&schema.fields, &key_string) {
        Some(idx) => idx,
        None => {
            return Err(CodecError::MissingKeyField { key_field: key_string });
        },
    };
    let ns_idx = crate::encode::find_field(&schema.fields, &ns_string);
    let set_idx = crate::encode::find_field(&schema.fields, &set_string);

    // collect the bin fields: every field that is neither the key field
    // nor reserved, in schema order
    let n_fields = schema.fields.len();
    let mut bin_idxs: Vec<usize> = Vec::new();
    let mut j: usize = 0;
    proof {
        assert(schema.fields@.skip(0) =~= schema.fields@);
    }
    while j < n_fields
        invariant
            n_fields == schema.fields@.len(),
            j <= n_fields,
            forall|k: int| 0 <= k < bin_idxs@.len() ==> (#[trigger] bin_idxs@[k]) < j,
            spec_bin_fields(schema.fields@, key_string@) =~= bin_idxs@.map_values(
                |u: usize| schema.fields@[u as int],
            ) + spec_bin_fields(schema.fields@.skip(j as int), key_string@),
        decreases n_fields - j,
    {
        let f = &schema.fields[j];
        let is_bin = !(f.name == key_string) && !starts_underscore(&f.name);
        proof {
            assert(schema.fields@.skip(j as int)[0] == schema.fields@[j as int]);
            assert(schema.fields@.skip(j as int).drop_first() =~= schema.fields@.skip(
                j as int + 1,
            ));
            assert(is_bin == is_bin_field(schema.fields@[j as int], key_string@));
        }
        if is_bin {
            bin_idxs.push(j);
            proof {
                assert(spec_bin_fields(schema.fields@, key_string@) =~= bin_idxs@.map_values(
                    |u: usize| schema.fields@[u as int],
                ) + spec_bin_fields(schema.fields@.skip(j as int + 1), key_string@));
            }
        } else {
            proof {
                assert(spec_bin_fields(schema.fields@, key_string@) =~= bin_idxs@.map_values(
                    |u: usize| schema.fields@[u as int],
                ) + spec_bin_fields(schema.fields@.skip(j as int + 1), key_string@));
            }
        }
        j = j + 1;
    }
    proof {
        assert(spec_bin_fields(schema.fields@.skip(n_fields as int), key_string@) =~= Seq::<
            FieldInfo,
        >::empty());
        assert(spec_bin_fields(schema.fields@, key_string@) =~= bin_idxs@.map_values(
            |u: usize| schema.fields@[u as int],
        ));
    }
    let ghost bf = spec_bin_fields(schema.fields@, key_field@);

    let mut out: Vec<(Key, Vec<Bin>)> = Vec::new();
    let mut i: usize = 0;
    while i < n_rows
        invariant
            stride == schema.row_stride,
            schema.wf(),
            data_buf.len() == n_rows * stride,
            i <= n_rows,
            key_idx < schema.fields@.len(),
            spec_find_field(schema.fields@, key_field@) == Some(schema.fields@[key_idx as int]),
            width_ok_for_kind(
                schema.fields@[key_idx as int].kind,
                schema.fields@[key_idx as int].base_itemsize as int,
            ) || i == 0,
            match ns_idx {
                Some(idx) => idx < schema.fields@.len() && spec_find_field(
                    schema.fields@,
                    "_namespace"@,
                ) == Some(schema.fields@[idx as int]),
                None => spec_find_field(schema.fields@, "_namespace"@) is None,
            },
            match set_idx {
                Some(idx) => idx < schema.fields@.len() && spec_find_field(schema.fields@, "_set"@)
                    == Some(schema.fields@[idx as int]),
                None => spec_find_field(schema.fields@, "_set"@) is None,
            },
            bf == spec_bin_fields(schema.fields@, key_field@),
            bf =~= bin_idxs@.map_values(|u: usize| schema.fields@[u as int]),
            forall|k: int| 0 <= k < bin_idxs@.len() ==> (#[trigger] bin_idxs@[k]) < schema.fields@.len(),
            out@.len() == i,
            forall|k: int|
                0 <= k < i ==> row_matches(
                    data_buf@,
                    stride as int,
                    k,
                    #[trigger] out@[k],
                    schema.fields@,
                    key_field@,
                    namespace@,
                    set_name@,
                ),
            i > 0 ==> spec_decode_ok(schema.fields@, key_field@, n_rows as int),
        decreases n_rows - i,
    {
        proof {
            assert(i * stride + stride <= n_rows * stride) by (nonlinear_arith)
                requires
                    i < n_rows,
                    0 <= stride,
            ;
        }
        let base: usize = i * stride;

        let kf = &schema.fields[key_idx];
        proof {
            assert(kf.fits(schema.row_stride));
        }
        let key_value: Value = match read_value_from_buffer(data_buf, base, kf) {
            Ok(v) => v,
            Err(e) => {
                return Err(e);
            },
        };

        let ns: String = match ns_idx {
            Some(idx) => {
                let f = &schema.fields[idx];
                proof {
                    assert(f.fits(schema.row_stride));
                }
                match read_value_from_buffer(data_buf, base, f) {
                    Ok(v) => match v {
                        Value::Blob(bytes) => {
                            let trimmed = trim_trailing_zeros(&bytes);
                            utf8_lossy(&trimmed)
                        },
                        _ => namespace.to_owned(),
                    },
                    Err(e) => {
                        return Err(e);
                    },
                }
            },
            None => namespace.to_owned(),
        };

        let set: String = match set_idx {
            Some(idx) => {
                let f = &schema.fields[idx];
                proof {
                    assert(f.fits(schema.row_stride));
                }
                match read_value_from_buffer(data_buf, base, f) {
                    Ok(v) => match v {
                        Value::Blob(bytes) => {
                            let trimmed = trim_trailing_zeros(&bytes);
                            utf8_lossy(&trimmed)
                        },
                        _ => set_name.to_owned(),
                    },
                    Err(e) => {
                        return Err(e);
                    },
                }
            },
            None => set_name.to_owned(),
        };

        let n_bins = bin_idxs.len();
        let mut bins: Vec<Bin> = Vec::new();
        let mut k: usize = 0;
        while k < n_bins
            invariant
                stride == schema.row_stride,
                schema.wf(),
                data_buf.len() == n_rows * stride,
                i < n_rows,
                base == i * stride,
                base + stride <= data_buf.len(),
                n_bins == bin_idxs@.len(),
                spec_find_field(schema.fields@, key_field@) is Some,
                bf == spec_bin_fields(schema.fields@, key_field@),
                bf =~= bin_idxs@.map_values(|u: usize| schema.fields@[u as int]),
                forall|t: int|
                    0 <= t < bin_idxs@.len() ==> (#[trigger] bin_idxs@[t]) < schema.fields@.len(),
                k <= n_bins,
                bins@.len() == k,
                forall|t: int|
                    0 <= t < k ==> (#[trigger] bins@[t]).name@ == bf[t].name@ && read_matches(
                        data_buf@,
                        base as int,
                        bf[t],
                        bins@[t].value,
                    ),
                forall|t: int|
                    0 <= t < k ==> width_ok_for_kind(
                        (#[trigger] bf[t]).kind,
                        bf[t].base_itemsize as int,
                    ),
            decreases n_bins - k,
        {
            let fidx = bin_idxs[k];
            let f = &schema.fields[fidx];
            proof {
                assert(bf[k as int] == schema.fields@[fidx as int]);
                assert(f.fits(schema.row_stride));
            }
            match read_value_from_buffer(data_buf, base, f) {
                Ok(v) => {
                    let bin = Bin { name: f.name.clone(), value: v };
                    bins.push(bin);
                },
                Err(e) => {
                    proof {
                        assert(bf[k as int] == schema.fields@[fidx as int]);
                        assert(!width_ok_for_kind(
                            (#[trigger] bf[k as int]).kind,
                            bf[k as int].base_itemsize as int,
                        ));
                        assert(!spec_decode_ok(schema.fields@, key_field@, n_rows as int));
                        assert(e matches CodecError::UnsupportedWidth { field, width }
                            && schema.fields@[fidx as int].name@ == field@
                            && schema.fields@[fidx as int].base_itemsize == width
                            && !width_ok_for_kind(schema.fields@[fidx as int].kind, width as int));
                    }
                    return Err(e);
                },
            }
            k = k + 1;
        }

        let key = Key {
            namespace: ns,
            set_name: set,
            user_key: Some(key_value),
            digest: [0u8; 20],
        };
        out.push((key, bins));
        i = i + 1;
    }
    Ok(out)
}

} // verus!
