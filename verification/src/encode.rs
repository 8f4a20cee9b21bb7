//! The encoder: a batch of result rows written into the caller's three
//! zero-initialized buffers.
//!
//! For row `i` the encoder stores the row's status code at `4*i` of the
//! result-code buffer, maps the row's logical key to `i`, and — where the
//! status is success and a record is present — stores generation and
//! time-to-live at `8*i` of the metadata buffer and every bin with a
//! matching schema field into the data row at `i * row_stride`. Bins
//! without a schema field are skipped; a bin that cannot be coerced
//! aborts the whole call with an error naming the field.

use vstd::prelude::*;

use crate::buffer::stored;
use crate::codec::{write_error_matches, write_ok, write_value_to_buffer, written};
use crate::errors::CodecError;
use crate::result_code::{result_code_to_int, spec_result_code_to_int};
use crate::schema::{FieldInfo, Schema};
use crate::value::{clone_value, value_equiv, BatchRecord, Bin, Record, Value};

verus! {

/// The first schema field carrying the given name, if any.
pub open spec fn spec_find_field(fields: Seq<FieldInfo>, name: Seq<char>) -> Option<FieldInfo>
    decreases fields.len(),
{
    if fields.len() == 0 {
        None
    } else if fields[0].name@ == name {
        Some(fields[0])
    } else {
        spec_find_field(fields.drop_first(), name)
    }
}

/// Find the index of the first schema field carrying the given name.
pub fn find_field(fields: &Vec<FieldInfo>, name: &String) -> (r: Option<usize>)
    ensures
        match r {
            Some(idx) => idx < fields@.len() && spec_find_field(fields@, name@) == Some(
                fields@[idx as int],
            ),
            None => spec_find_field(fields@, name@) is None,
        },
{
    let n = fields.len();
    let mut j: usize = 0;
    proof {
        assert(fields@.skip(0) =~= fields@);
    }
    while j < n
        invariant
            n == fields@.len(),
            j <= n,
            spec_find_field(fields@, name@) == spec_find_field(fields@.skip(j as int), name@),
        decreases n - j,
    {
        if fields[j].name == *name {
            proof {
                assert(fields@.skip(j as int)[0] == fields@[j as int]);
                assert(spec_find_field(fields@.skip(j as int), name@) == Some(fields@[j as int]));
            }
            return Some(j);
        }
        proof {
            assert(fields@.skip(j as int).drop_first() =~= fields@.skip(j as int + 1));
            assert(fields@.skip(j as int)[0] == fields@[j as int]);
        }
        j = j + 1;
    }
    proof {
        assert(fields@.skip(n as int).len() == 0);
    }
    None
}

/// The numeric status of a row: its code's wire value, or zero where the
/// row carries no code.
pub open spec fn spec_rc_of(br: BatchRecord) -> i32 {
    match br.result_code {
        Some(rc) => spec_result_code_to_int(rc),
        None => 0,
    }
}

/// Whether a row's data and metadata are written: its status is success
/// and a record is present.
pub open spec fn spec_row_success(br: BatchRecord) -> bool {
    spec_rc_of(br) == 0 && br.record is Some
}

/// The bins of a row's record, or none where no record is present.
pub open spec fn spec_rec_bins(br: BatchRecord) -> Seq<Bin> {
    match br.record {
        Some(rec) => rec.bins@,
        None => Seq::empty(),
    }
}

/// The metadata time-to-live: the record's remaining seconds, or the
/// sentinel for a record that never expires.
pub open spec fn spec_ttl_of(rec: Record) -> u32 {
    match rec.ttl_seconds {
        Some(t) => t,
        None => 0xFFFF_FFFF,
    }
}

/// The row's logical key: the user key where one is present, the row
/// index itself otherwise.
pub open spec fn spec_row_key(br: BatchRecord, i: int) -> Value {
    match br.key.user_key {
        Some(v) => v,
        None => Value::Int(i as i64),
    }
}

/// Whether one bin encodes without error: its name has no schema field,
/// or the value coerces into that field.
pub open spec fn bin_ok(fields: Seq<FieldInfo>, b: Bin) -> bool {
    match spec_find_field(fields, b.name@) {
        None => true,
        Some(f) => write_ok(b.value, f),
    }
}

/// The buffer after one bin is encoded into the row at `base`: unchanged
/// where the bin has no schema field.
pub open spec fn bin_written(s: Seq<u8>, base: int, fields: Seq<FieldInfo>, b: Bin) -> Seq<u8> {
    match spec_find_field(fields, b.name@) {
        None => s,
        Some(f) => written(s, base, f, b.value),
    }
}

/// Whether every bin of a sequence encodes without error.
pub open spec fn bins_ok(fields: Seq<FieldInfo>, bins: Seq<Bin>) -> bool {
    forall|j: int| 0 <= j < bins.len() ==> #[trigger] bin_ok(fields, bins[j])
}

/// The buffer after the first `upto` bins are encoded in order into the
/// row at `base`.
pub open spec fn bins_written(
    s: Seq<u8>,
    base: int,
    fields: Seq<FieldInfo>,
    bins: Seq<Bin>,
    upto: int,
) -> Seq<u8>
    decreases upto,
{
    if upto <= 0 {
        s
    } else {
        bin_written(bins_written(s, base, fields, bins, upto - 1), base, fields, bins[upto - 1])
    }
}

/// Whether the whole batch encodes without error: in every successful
/// row, every bin either has no schema field or coerces into its field.
pub open spec fn spec_batch_ok(results: Seq<BatchRecord>, fields: Seq<FieldInfo>) -> bool {
    forall|i: int|
        0 <= i < results.len() && spec_row_success(#[trigger] results[i]) ==> bins_ok(
            fields,
            spec_rec_bins(results[i]),
        )
}

/// The result-code buffer after the first `upto` rows: each row's status
/// stored as a 4-byte signed integer at `4*i`.
pub open spec fn rc_after(s: Seq<u8>, results: Seq<BatchRecord>, upto: int) -> Seq<u8>
    decreases upto,
{
    if upto <= 0 {
        s
    } else {
        stored(
            rc_after(s, results, upto - 1),
            4 * (upto - 1),
            4,
            (spec_rc_of(results[upto - 1]) as u32) as u64,
        )
    }
}

/// The metadata buffer after the first `upto` rows: generation and
/// time-to-live of each successful row stored as two 4-byte integers at
/// `8*i`; rows without data leave their slots untouched.
pub open spec fn meta_after(s: Seq<u8>, results: Seq<BatchRecord>, upto: int) -> Seq<u8>
    decreases upto,
{
    if upto <= 0 {
        s
    } else {
        let prev = meta_after(s, results, upto - 1);
        let br = results[upto - 1];
        if spec_row_success(br) {
            let rec = br.record->Some_0;
            stored(
                stored(prev, 8 * (upto - 1), 4, rec.generation as u64),
                8 * (upto - 1) + 4,
                4,
                spec_ttl_of(rec) as u64,
            )
        } else {
            prev
        }
    }
}

/// The data buffer after the first `upto` rows: every bin of each
/// successful row encoded into the row at `i * stride`; rows without
/// data leave their bytes untouched.
pub open spec fn data_after(
    s: Seq<u8>,
    results: Seq<BatchRecord>,
    fields: Seq<FieldInfo>,
    stride: int,
    upto: int,
) -> Seq<u8>
    decreases upto,
{
    if upto <= 0 {
        s
    } else {
        let prev = data_after(s, results, fields, stride, upto - 1);
        let br = results[upto - 1];
        if spec_row_success(br) {
            let bins = spec_rec_bins(br);
            bins_written(prev, (upto - 1) * stride, fields, bins, bins.len() as int)
        } else {
            prev
        }
    }
}

/// A bin whose name has no schema field is skipped, not an error: it
/// encodes successfully and leaves the buffer exactly as it was.
pub proof fn lemma_unknown_bin_skipped(s: Seq<u8>, base: int, fields: Seq<FieldInfo>, b: Bin)
    requires
        spec_find_field(fields, b.name@) is None,
    ensures
        bin_ok(fields, b),
        bin_written(s, base, fields, b) == s,
{
}

/// A `Nil` value is a no-op: it encodes successfully into any field and
/// leaves every byte of the buffer untouched, so a caller-zeroed field
/// stays zero.
pub proof fn lemma_nil_leaves_buffer_untouched(s: Seq<u8>, base: int, f: FieldInfo)
    ensures
        write_ok(Value::Nil, f),
        written(s, base, f, Value::Nil) == s,
{
}

// ── the row round trip ──────────────────────────────────────────

/// Whether two fields occupy disjoint byte ranges of a row.
pub open spec fn fields_disjoint(f1: FieldInfo, f2: FieldInfo) -> bool {
    f1.offset + f1.itemsize <= f2.offset || f2.offset + f2.itemsize <= f1.offset
}

/// The field a bin encodes into.
pub open spec fn bin_field(fields: Seq<FieldInfo>, b: Bin) -> FieldInfo {
    spec_find_field(fields, b.name@)->Some_0
}

/// Whether a row's bins all map cleanly onto the schema: every bin has a
/// field, every value fits its field with no loss, and the fields are
/// pairwise disjoint, so no write disturbs another bin's bytes.
pub open spec fn row_cleanly_mapped(fields: Seq<FieldInfo>, bins: Seq<Bin>) -> bool {
    &&& forall|j: int|
        0 <= j < bins.len() ==> spec_find_field(fields, (#[trigger] bins[j]).name@) is Some
    &&& forall|j: int|
        0 <= j < bins.len() ==> crate::codec::clean_fit(
            (#[trigger] bins[j]).value,
            bin_field(fields, bins[j]),
        )
    &&& forall|j1: int, j2: int|
        0 <= j1 < j2 < bins.len() ==> fields_disjoint(
            bin_field(fields, #[trigger] bins[j1]),
            bin_field(fields, #[trigger] bins[j2]),
        )
}

/// Encoding bins never changes the buffer's length.
pub proof fn lemma_bins_written_len(
    s: Seq<u8>,
    base: int,
    fields: Seq<FieldInfo>,
    bins: Seq<Bin>,
    upto: int,
)
    ensures
        bins_written(s, base, fields, bins, upto).len() == s.len(),
    decreases upto,
{
    if upto > 0 {
        lemma_bins_written_len(s, base, fields, bins, upto - 1);
    }
}

/// A value that maps cleanly onto a field fits it, so its write succeeds.
pub proof fn lemma_clean_fit_write_ok(v: Value, f: FieldInfo)
    requires
        crate::codec::clean_fit(v, f),
    ensures
        write_ok(v, f),
{
}

/// Round trip over a whole row: after every bin of a cleanly mapped row
/// is encoded, reading any one bin's field back yields that bin's value.
/// With the decoder's read rules this is the round trip for the fields a
/// record and a schema share.
pub proof fn lemma_row_round_trip(
    s: Seq<u8>,
    base: int,
    fields: Seq<FieldInfo>,
    bins: Seq<Bin>,
    upto: int,
    j: int,
    rv: Value,
)
    requires
        0 <= base,
        row_cleanly_mapped(fields, bins),
        forall|t: int|
            0 <= t < bins.len() ==> {
                let f = bin_field(fields, #[trigger] bins[t]);
                base + f.offset + f.itemsize <= s.len() && f.base_itemsize <= f.itemsize && 0
                    <= f.offset
            },
        0 <= j < upto <= bins.len(),
        crate::codec::read_matches(
            bins_written(s, base, fields, bins, upto),
            base,
            bin_field(fields, bins[j]),
            rv,
        ),
    ensures
        crate::value::value_equiv(rv, bins[j].value),
    decreases upto,
{
    let fj = bin_field(fields, bins[j]);
    let prev = bins_written(s, base, fields, bins, upto - 1);
    lemma_bins_written_len(s, base, fields, bins, upto - 1);
    lemma_bins_written_len(s, base, fields, bins, upto);
    let blast = bins[upto - 1];
    let flast = bin_field(fields, blast);
    lemma_clean_fit_write_ok(blast.value, flast);
    assert(bins_written(s, base, fields, bins, upto) == written(prev, base, flast, blast.value));
    if j == upto - 1 {
        crate::codec::lemma_write_read_round_trip(prev, base, fj, bins[j].value, rv);
    } else {
        assert(fields_disjoint(fj, flast));
        assert forall|k: int|
            base + fj.offset <= k < base + fj.offset + fj.itemsize implies bins_written(
            s,
            base,
            fields,
            bins,
            upto,
        )[k] == prev[k] by {
            crate::codec::lemma_written_frame(prev, base, flast, blast.value, k);
        }
        crate::codec::lemma_read_agree(
            bins_written(s, base, fields, bins, upto),
            prev,
            base,
            fj,
            rv,
        );
        lemma_row_round_trip(s, base, fields, bins, upto - 1, j, rv);
    }
}

/// Encode a batch of result rows into the caller's data, metadata and
/// result-code buffers, and hand back the association from each row's
/// logical key to its index.
///
/// Succeeds exactly when every bin of every successful row either has no
/// schema field or coerces into its field; the buffers then hold exactly
/// what the row-by-row description above states. On failure the error
/// names the offending field and value type; the buffers keep their
/// lengths, with rows encoded before the failure already written.
pub fn batch_to_buffers(
    results: &Vec<BatchRecord>,
    schema: &Schema,
    data_buf: &mut Vec<u8>,
    meta_buf: &mut Vec<u8>,
    rc_buf: &mut Vec<u8>,
) -> (r: Result<Vec<(Value, usize)>, CodecError>)
    requires
        schema.wf(),
        old(data_buf).len() == results.len() * schema.row_stride,
        old(meta_buf).len() == results.len() * 8,
        old(rc_buf).len() == results.len() * 4,
    ensures
        final (data_buf)@.len() == old(data_buf)@.len(),
        final (meta_buf)@.len() == old(meta_buf)@.len(),
        final (rc_buf)@.len() == old(rc_buf)@.len(),
        r.is_ok() <==> spec_batch_ok(results@, schema.fields@),
        r matches Ok(kmap) ==> {
            &&& final (data_buf)@ == data_after(
                old(data_buf)@,
                results@,
                schema.fields@,
                schema.row_stride as int,
                results@.len() as int,
            )
            &&& final (meta_buf)@ == meta_after(old(meta_buf)@, results@, results@.len() as int)
            &&& final (rc_buf)@ == rc_after(old(rc_buf)@, results@, results@.len() as int)
            &&& kmap@.len() == results@.len()
            &&& forall|i: int|
                0 <= i < results@.len() ==> (#[trigger] kmap@[i]).1 == i && value_equiv(
                    kmap@[i].0,
                    spec_row_key(results@[i], i),
                )
        },
        r matches Err(e) ==> exists|i: int, j: int|
            {
                &&& 0 <= i < results@.len()
                &&& spec_row_success(#[trigger] results@[i])
                &&& 0 <= j < spec_rec_bins(results@[i]).len()
                &&& !bin_ok(schema.fields@, #[trigger] spec_rec_bins(results@[i])[j])
                &&& (spec_find_field(schema.fields@, spec_rec_bins(results@[i])[j].name@) matches
                    Some(f) && write_error_matches(e, f, spec_rec_bins(results@[i])[j].value))
            },
{
    let n = results.len();
    let stride = schema.row_stride;
    let mut key_map: Vec<(Value, usize)> = Vec::new();
    let mut i: usize = 0;
    while i < n
        invariant
            n == results@.len(),
            stride == schema.row_stride,
            schema.wf(),
            old(data_buf).len() == n * stride,
            old(meta_buf).len() == n * 8,
            old(rc_buf).len() == n * 4,
            i <= n,
            data_buf@ == data_after(old(data_buf)@, results@, schema.fields@, stride as int, i as int),
            meta_buf@ == meta_after(old(meta_buf)@, results@, i as int),
            rc_buf@ == rc_after(old(rc_buf)@, results@, i as int),
            data_buf@.len() == old(data_buf)@.len(),
            meta_buf@.len() == old(meta_buf)@.len(),
            rc_buf@.len() == old(rc_buf)@.len(),
            key_map@.len() == i,
            forall|k: int|
                0 <= k < i ==> (#[trigger] key_map@[k]).1 == k && value_equiv(
                    key_map@[k].0,
                    spec_row_key(results@[k], k),
                ),
            forall|k: int|
                0 <= k < i && spec_row_success(#[trigger] results@[k]) ==> bins_ok(
                    schema.fields@,
                    spec_rec_bins(results@[k]),
                ),
        decreases n - i,
    {
        let br = &results[i];
        let rc: i32 = match &br.result_code {
            Some(code) => result_code_to_int(code),
            None => 0,
        };

        proof {
            assert((i + 1) * 4 <= n * 4 && (i + 1) * 8 <= n * 8 && (i + 1) * stride <= n * stride)
                by (nonlinear_arith)
                requires
                    i < n,
                    0 <= stride,
            ;
        }
        crate::buffer::store_le(rc_buf, 4 * i, 4, (rc as u32) as u64);

        let key_value: Value = match &br.key.user_key {
            Some(v) => clone_value(v),
            None => Value::Int(i as i64),
        };
        key_map.push((key_value, i));

        if rc == 0 {
            match &br.record {
                Some(record) => {
                    let gen: u32 = record.generation;
                    let ttl: u32 = match record.ttl_seconds {
                        Some(t) => t,
                        None => 0xFFFF_FFFF,
                    };
                    crate::buffer::store_le(meta_buf, 8 * i, 4, gen as u64);
                    crate::buffer::store_le(meta_buf, 8 * i + 4, 4, ttl as u64);

                    proof {
                        assert(i * stride + stride <= n * stride) by (nonlinear_arith)
                            requires
                                i < n,
                                0 <= stride,
                        ;
                    }
                    let row_base: usize = i * stride;
                    let n_bins = record.bins.len();
                    let mut j: usize = 0;
                    let ghost row_start: Seq<u8> = data_buf@;
                    while j < n_bins
                        invariant
                            n == results@.len(),
                            i < n,
                            stride == schema.row_stride,
                            schema.wf(),
                            row_base == i * stride,
                            row_base + stride <= data_buf@.len(),
                            data_buf@.len() == old(data_buf)@.len(),
                            meta_buf@.len() == old(meta_buf)@.len(),
                            rc_buf@.len() == old(rc_buf)@.len(),
                            old(data_buf).len() == n * stride,
                            results@[i as int].record == Some(*record),
                            spec_row_success(results@[i as int]),
                            n_bins == record.bins@.len(),
                            j <= n_bins,
                            data_buf@ == bins_written(
                                row_start,
                                row_base as int,
                                schema.fields@,
                                record.bins@,
                                j as int,
                            ),
                            forall|k: int|
                                0 <= k < j ==> #[trigger] bin_ok(schema.fields@, record.bins@[k]),
                        decreases n_bins - j,
                    {
                        let bin = &record.bins[j];
                        match find_field(&schema.fields, &bin.name) {
                            Some(idx) => {
                                let field = &schema.fields[idx];
                                proof {
                                    assert(field.fits(schema.row_stride));
                                }
                                match write_value_to_buffer(data_buf, row_base, field, &bin.value) {
                                    Ok(()) => {},
                                    Err(e) => {
                                        proof {
                                            assert(spec_rec_bins(results@[i as int])
                                                == record.bins@);
                                            assert(!bin_ok(schema.fields@, record.bins@[j as int]));
                                            assert(!spec_batch_ok(results@, schema.fields@));
                                        }
                                        return Err(e);
                                    },
                                }
                            },
                            None => {},
                        }
                        j = j + 1;
                    }
                },
                None => {},
            }
        }
        i = i + 1;
    }
    Ok(key_map)
}

} // verus!
