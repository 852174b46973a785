//! Byte layouts of event records: the raw binary file (one 64-byte little-endian
//! record per event) and the `.npy` array that `hftbacktest` reads.
//!
//! Floating-point fields travel as the bit patterns of their `f64` values, which
//! is exactly what their little-endian bytes hold.

use vstd::bytes::{
    lemma_auto_spec_u64_to_from_le_bytes, spec_u64_from_le_bytes, spec_u64_to_le_bytes,
    u64_from_le_bytes, u64_to_le_bytes,
};
use vstd::prelude::*;
use vstd::slice::{slice_subrange, slice_to_vec};
use vstd::string::{is_ascii_spec_bytes, StringSliceAdditionalSpecFns};

verus! {

/// Bytes of one encoded record: eight fields of eight bytes.
pub const RECORD_SIZE: usize = 64;

/// One event in the layout of `hftbacktest`'s `Event`, floats as bit patterns.
#[derive(Debug, Clone, Copy, PartialEq, Eq, Structural)]
pub struct EventRecord {
    pub ev: u64,
    pub exch_ts: i64,
    pub local_ts: i64,
    pub px_bits: u64,
    pub qty_bits: u64,
    pub order_id: u64,
    pub ival: i64,
    pub fval_bits: u64,
}

/// The 64 bytes of a record: its fields in order, each in little-endian.
pub open spec fn record_bytes(r: EventRecord) -> Seq<u8> {
    spec_u64_to_le_bytes(r.ev) + spec_u64_to_le_bytes(r.exch_ts as u64) + spec_u64_to_le_bytes(
        r.local_ts as u64,
    ) + spec_u64_to_le_bytes(r.px_bits) + spec_u64_to_le_bytes(r.qty_bits) + spec_u64_to_le_bytes(
        r.order_id,
    ) + spec_u64_to_le_bytes(r.ival as u64) + spec_u64_to_le_bytes(r.fval_bits)
}

/// The bytes of a list of records, one after the other.
pub open spec fn records_bytes(rs: Seq<EventRecord>) -> Seq<u8>
    decreases rs.len(),
{
    if rs.len() == 0 {
        seq![]
    } else {
        records_bytes(rs.drop_last()) + record_bytes(rs.last())
    }
}

/// The little-endian `u64` at byte offset `at`.
pub open spec fn u64_at(b: Seq<u8>, at: int) -> u64 {
    spec_u64_from_le_bytes(b.subrange(at, at + 8))
}

/// The record held by the 64 bytes at offset `at`.
pub open spec fn record_at(b: Seq<u8>, at: int) -> EventRecord {
    EventRecord {
        ev: u64_at(b, at),
        exch_ts: u64_at(b, at + 8) as i64,
        local_ts: u64_at(b, at + 16) as i64,
        px_bits: u64_at(b, at + 24),
        qty_bits: u64_at(b, at + 32),
        order_id: u64_at(b, at + 40),
        ival: u64_at(b, at + 48) as i64,
        fval_bits: u64_at(b, at + 56),
    }
}

/// The records read from a byte stream: one per whole 64-byte chunk; a trailing
/// partial chunk is ignored.
pub open spec fn records_from_bytes(b: Seq<u8>) -> Seq<EventRecord> {
    Seq::new((b.len() / 64) as nat, |i: int| record_at(b, 64 * i))
}

proof fn lemma_i64_bits(x: i64)
    ensures
        (x as u64) as i64 == x,
{
    assert((x as u64) as i64 == x) by (bit_vector);
}

proof fn lemma_record_roundtrip(r: EventRecord, b: Seq<u8>, at: int)
    requires
        0 <= at,
        at + 64 <= b.len(),
        b.subrange(at, at + 64) == record_bytes(r),
    ensures
        record_at(b, at) == r,
{
    lemma_auto_spec_u64_to_from_le_bytes();
    lemma_i64_bits(r.exch_ts);
    lemma_i64_bits(r.local_ts);
    lemma_i64_bits(r.ival);
    let rb = record_bytes(r);
    let p0 = spec_u64_to_le_bytes(r.ev);
    let p1 = spec_u64_to_le_bytes(r.exch_ts as u64);
    let p2 = spec_u64_to_le_bytes(r.local_ts as u64);
    let p3 = spec_u64_to_le_bytes(r.px_bits);
    let p4 = spec_u64_to_le_bytes(r.qty_bits);
    let p5 = spec_u64_to_le_bytes(r.order_id);
    let p6 = spec_u64_to_le_bytes(r.ival as u64);
    let p7 = spec_u64_to_le_bytes(r.fval_bits);
    assert(p0.len() == 8 && p1.len() == 8 && p2.len() == 8 && p3.len() == 8);
    assert(p4.len() == 8 && p5.len() == 8 && p6.len() == 8 && p7.len() == 8);
    let pieces = seq![p0, p1, p2, p3, p4, p5, p6, p7];
    assert forall|k: int| 0 <= k < 8 implies #[trigger] b.subrange(at + 8 * k, at + 8 * k + 8) == pieces[k] by {
        assert forall|j: int| 0 <= j < 8 implies b.subrange(at + 8 * k, at + 8 * k + 8)[j] == pieces[k][j] by {
            assert(b.subrange(at, at + 64)[8 * k + j] == b[at + 8 * k + j]);
            assert(rb[8 * k + j] == pieces[k][j]);
        }
        assert(b.subrange(at + 8 * k, at + 8 * k + 8) =~= pieces[k]);
    }
    assert(b.subrange(at + 8 * 1, at + 8 * 1 + 8) == pieces[1]);
    assert(b.subrange(at + 8 * 2, at + 8 * 2 + 8) == pieces[2]);
    assert(b.subrange(at + 8 * 6, at + 8 * 6 + 8) == pieces[6]);
    assert(b.subrange(at + 8 * 0, at + 8 * 0 + 8) == pieces[0]);
    assert(b.subrange(at + 8 * 3, at + 8 * 3 + 8) == pieces[3]);
    assert(b.subrange(at + 8 * 4, at + 8 * 4 + 8) == pieces[4]);
    assert(b.subrange(at + 8 * 5, at + 8 * 5 + 8) == pieces[5]);
    assert(b.subrange(at + 8 * 7, at + 8 * 7 + 8) == pieces[7]);
}

proof fn lemma_records_bytes_layout(rs: Seq<EventRecord>)
    ensures
        records_bytes(rs).len() == 64 * rs.len(),
        forall|i: int|
            0 <= i < rs.len() ==> #[trigger] records_bytes(rs).subrange(64 * i, 64 * i + 64) == record_bytes(rs[i]),
    decreases rs.len(),
{
    lemma_auto_spec_u64_to_from_le_bytes();
    if rs.len() > 0 {
        let prev = rs.drop_last();
        lemma_records_bytes_layout(prev);
        let all = records_bytes(rs);
        assert(all == records_bytes(prev) + record_bytes(rs.last()));
        assert forall|i: int| 0 <= i < rs.len() implies #[trigger] all.subrange(64 * i, 64 * i + 64) == record_bytes(
            rs[i],
        ) by {
            if i < rs.len() - 1 {
                assert(all.subrange(64 * i, 64 * i + 64) =~= records_bytes(prev).subrange(64 * i, 64 * i + 64));
                assert(rs[i] == prev[i]);
            } else {
                assert(all.subrange(64 * i, 64 * i + 64) =~= record_bytes(rs.last()));
            }
        }
    }
}

proof fn lemma_record_bytes_fields(r: EventRecord)
    ensures
        record_bytes(r).len() == 64,
        record_bytes(r).subrange(0, 8) == spec_u64_to_le_bytes(r.ev),
        record_bytes(r).subrange(8, 16) == spec_u64_to_le_bytes(r.exch_ts as u64),
        record_bytes(r).subrange(16, 24) == spec_u64_to_le_bytes(r.local_ts as u64),
        record_bytes(r).subrange(24, 32) == spec_u64_to_le_bytes(r.px_bits),
        record_bytes(r).subrange(32, 40) == spec_u64_to_le_bytes(r.qty_bits),
        record_bytes(r).subrange(40, 48) == spec_u64_to_le_bytes(r.order_id),
        record_bytes(r).subrange(48, 56) == spec_u64_to_le_bytes(r.ival as u64),
        record_bytes(r).subrange(56, 64) == spec_u64_to_le_bytes(r.fval_bits),
{
    lemma_auto_spec_u64_to_from_le_bytes();
    let rb = record_bytes(r);
    assert(rb.subrange(0, 8) =~= spec_u64_to_le_bytes(r.ev));
    assert(rb.subrange(8, 16) =~= spec_u64_to_le_bytes(r.exch_ts as u64));
    assert(rb.subrange(16, 24) =~= spec_u64_to_le_bytes(r.local_ts as u64));
    assert(rb.subrange(24, 32) =~= spec_u64_to_le_bytes(r.px_bits));
    assert(rb.subrange(32, 40) =~= spec_u64_to_le_bytes(r.qty_bits));
    assert(rb.subrange(40, 48) =~= spec_u64_to_le_bytes(r.order_id));
    assert(rb.subrange(48, 56) =~= spec_u64_to_le_bytes(r.ival as u64));
    assert(rb.subrange(56, 64) =~= spec_u64_to_le_bytes(r.fval_bits));
}

/// The written bytes follow the layout of `hftbacktest`'s `Event`: record `i`
/// starts at byte `64 * i`, and within it `ev` sits at offset 0, `exch_ts` at 8,
/// `local_ts` at 16, `px` at 24, `qty` at 32, `order_id` at 40, `ival` at 48 and
/// `fval` at 56, each as the eight little-endian bytes of its 64-bit pattern.
pub proof fn lemma_record_field_offsets(rs: Seq<EventRecord>)
    ensures
        records_bytes(rs).len() == 64 * rs.len(),
        forall|i: int| #![trigger rs[i]] 0 <= i < rs.len() ==> {
            let b = records_bytes(rs);
            &&& b.subrange(64 * i, 64 * i + 8) == spec_u64_to_le_bytes(rs[i].ev)
            &&& b.subrange(64 * i + 8, 64 * i + 16) == spec_u64_to_le_bytes(rs[i].exch_ts as u64)
            &&& b.subrange(64 * i + 16, 64 * i + 24) == spec_u64_to_le_bytes(rs[i].local_ts as u64)
            &&& b.subrange(64 * i + 24, 64 * i + 32) == spec_u64_to_le_bytes(rs[i].px_bits)
            &&& b.subrange(64 * i + 32, 64 * i + 40) == spec_u64_to_le_bytes(rs[i].qty_bits)
            &&& b.subrange(64 * i + 40, 64 * i + 48) == spec_u64_to_le_bytes(rs[i].order_id)
            &&& b.subrange(64 * i + 48, 64 * i + 56) == spec_u64_to_le_bytes(rs[i].ival as u64)
            &&& b.subrange(64 * i + 56, 64 * i + 64) == spec_u64_to_le_bytes(rs[i].fval_bits)
        },
{
    lemma_records_bytes_layout(rs);
    let b = records_bytes(rs);
    assert forall|i: int| #![trigger rs[i]] 0 <= i < rs.len() implies {
        &&& b.subrange(64 * i, 64 * i + 8) == spec_u64_to_le_bytes(rs[i].ev)
        &&& b.subrange(64 * i + 8, 64 * i + 16) == spec_u64_to_le_bytes(rs[i].exch_ts as u64)
        &&& b.subrange(64 * i + 16, 64 * i + 24) == spec_u64_to_le_bytes(rs[i].local_ts as u64)
        &&& b.subrange(64 * i + 24, 64 * i + 32) == spec_u64_to_le_bytes(rs[i].px_bits)
        &&& b.subrange(64 * i + 32, 64 * i + 40) == spec_u64_to_le_bytes(rs[i].qty_bits)
        &&& b.subrange(64 * i + 40, 64 * i + 48) == spec_u64_to_le_bytes(rs[i].order_id)
        &&& b.subrange(64 * i + 48, 64 * i + 56) == spec_u64_to_le_bytes(rs[i].ival as u64)
        &&& b.subrange(64 * i + 56, 64 * i + 64) == spec_u64_to_le_bytes(rs[i].fval_bits)
    } by {
        assert(64 * i + 64 <= 64 * rs.len()) by (nonlinear_arith)
            requires
                i < rs.len(),
        ;
        let w = b.subrange(64 * i, 64 * i + 64);
        assert(w == record_bytes(rs[i]));
        lemma_record_bytes_fields(rs[i]);
        assert(b.subrange(64 * i, 64 * i + 8) =~= w.subrange(0, 8));
        assert(b.subrange(64 * i + 8, 64 * i + 16) =~= w.subrange(8, 16));
        assert(b.subrange(64 * i + 16, 64 * i + 24) =~= w.subrange(16, 24));
        assert(b.subrange(64 * i + 24, 64 * i + 32) =~= w.subrange(24, 32));
        assert(b.subrange(64 * i + 32, 64 * i + 40) =~= w.subrange(32, 40));
        assert(b.subrange(64 * i + 40, 64 * i + 48) =~= w.subrange(40, 48));
        assert(b.subrange(64 * i + 48, 64 * i + 56) =~= w.subrange(48, 56));
        assert(b.subrange(64 * i + 56, 64 * i + 64) =~= w.subrange(56, 64));
    }
}

/// Reading back written records gives the same records.
pub proof fn lemma_records_roundtrip(rs: Seq<EventRecord>)
    ensures
        records_from_bytes(records_bytes(rs)) == rs,
{
    lemma_records_bytes_layout(rs);
    let b = records_bytes(rs);
    assert((64 * rs.len()) / 64 == rs.len()) by (nonlinear_arith);
    assert forall|i: int| 0 <= i < rs.len() implies #[trigger] records_from_bytes(b)[i] == rs[i] by {
        assert(64 * i + 64 <= 64 * rs.len()) by (nonlinear_arith)
            requires
                i < rs.len(),
        ;
        lemma_record_roundtrip(rs[i], b, 64 * i);
    }
    assert(records_from_bytes(b) =~= rs);
}

/// Writes one field into `out`, in little-endian.
fn push_u64(out: &mut Vec<u8>, v: u64)
    ensures
        final(out)@ == old(out)@ + spec_u64_to_le_bytes(v),
{
    let mut bytes = u64_to_le_bytes(v);
    out.append(&mut bytes);
}

/// Encodes events as raw little-endian records, 64 bytes each, in order.
pub fn encode_bin(records: &Vec<EventRecord>) -> (out: Vec<u8>)
    ensures
        out@ == records_bytes(records@),
        out@.len() == RECORD_SIZE * records@.len(),
        records_from_bytes(out@) == records@,
        forall|i: int| #![trigger records@[i]] 0 <= i < records@.len() ==> {
            &&& out@.subrange(64 * i, 64 * i + 8) == spec_u64_to_le_bytes(records@[i].ev)
            &&& out@.subrange(64 * i + 8, 64 * i + 16) == spec_u64_to_le_bytes(records@[i].exch_ts as u64)
            &&& out@.subrange(64 * i + 16, 64 * i + 24) == spec_u64_to_le_bytes(records@[i].local_ts as u64)
            &&& out@.subrange(64 * i + 24, 64 * i + 32) == spec_u64_to_le_bytes(records@[i].px_bits)
            &&& out@.subrange(64 * i + 32, 64 * i + 40) == spec_u64_to_le_bytes(records@[i].qty_bits)
            &&& out@.subrange(64 * i + 40, 64 * i + 48) == spec_u64_to_le_bytes(records@[i].order_id)
            &&& out@.subrange(64 * i + 48, 64 * i + 56) == spec_u64_to_le_bytes(records@[i].ival as u64)
            &&& out@.subrange(64 * i + 56, 64 * i + 64) == spec_u64_to_le_bytes(records@[i].fval_bits)
        },
{
    let n = records.len();
    let mut out: Vec<u8> = Vec::new();
    let mut i: usize = 0;
    assert(records@.take(0) =~= Seq::<EventRecord>::empty());
    while i < n
        invariant
            n == records@.len(),
            0 <= i <= n,
            out@ == records_bytes(records@.take(i as int)),
        decreases n - i,
    {
        let r = records[i];
        let ghost before = out@;
        push_u64(&mut out, r.ev);
        push_u64(&mut out, r.exch_ts as u64);
        push_u64(&mut out, r.local_ts as u64);
        push_u64(&mut out, r.px_bits);
        push_u64(&mut out, r.qty_bits);
        push_u64(&mut out, r.order_id);
        push_u64(&mut out, r.ival as u64);
        push_u64(&mut out, r.fval_bits);
        proof {
            assert(records@.take(i + 1).drop_last() =~= records@.take(i as int));
            assert(out@ =~= before + record_bytes(r));
        }
        i = i + 1;
    }
    assert(records@.take(n as int) =~= records@);
    proof {
        lemma_records_bytes_layout(records@);
        lemma_records_roundtrip(records@);
        lemma_record_field_offsets(records@);
    }
    out
}

/// Reads the little-endian `u64` at offset `at`.
fn read_u64(bytes: &[u8], at: usize) -> (v: u64)
    requires
        at + 8 <= bytes@.len(),
    ensures
        v == u64_at(bytes@, at as int),
{
    let len = bytes.len();
    assert(len == bytes@.len());
    let end = at + 8;
    let chunk = slice_subrange(bytes, at, end);
    u64_from_le_bytes(chunk)
}

/// Decodes raw little-endian records: one per whole 64-byte chunk, in order; a
/// trailing partial chunk is ignored.
pub fn decode_bin(bytes: &[u8]) -> (records: Vec<EventRecord>)
    ensures
        records@ == records_from_bytes(bytes@),
        records@.len() == bytes@.len() / 64,
        forall|i: int| #![trigger records@[i]] 0 <= i < records@.len() ==> {
            &&& records@[i].ev == spec_u64_from_le_bytes(bytes@.subrange(64 * i, 64 * i + 8))
            &&& records@[i].exch_ts == spec_u64_from_le_bytes(bytes@.subrange(64 * i + 8, 64 * i + 16)) as i64
            &&& records@[i].local_ts == spec_u64_from_le_bytes(bytes@.subrange(64 * i + 16, 64 * i + 24)) as i64
            &&& records@[i].px_bits == spec_u64_from_le_bytes(bytes@.subrange(64 * i + 24, 64 * i + 32))
            &&& records@[i].qty_bits == spec_u64_from_le_bytes(bytes@.subrange(64 * i + 32, 64 * i + 40))
            &&& records@[i].order_id == spec_u64_from_le_bytes(bytes@.subrange(64 * i + 40, 64 * i + 48))
            &&& records@[i].ival == spec_u64_from_le_bytes(bytes@.subrange(64 * i + 48, 64 * i + 56)) as i64
            &&& records@[i].fval_bits == spec_u64_from_le_bytes(bytes@.subrange(64 * i + 56, 64 * i + 64))
        },
{
    let len = bytes.len();
    let n = len / RECORD_SIZE;
    let mut records: Vec<EventRecord> = Vec::new();
    let mut i: usize = 0;
    while i < n
        invariant
            len == bytes@.len(),
            n == bytes@.len() / 64,
            0 <= i <= n,
            records@.len() == i,
            forall|j: int| 0 <= j < i ==> #[trigger] records@[j] == record_at(bytes@, 64 * j),
        decreases n - i,
    {
        assert(64 * i + 64 <= len) by (nonlinear_arith)
            requires
                i < n,
                n == len / 64,
        ;
        let at: usize = i * RECORD_SIZE;
        let r = EventRecord {
            ev: read_u64(bytes, at),
            exch_ts: read_u64(bytes, at + 8) as i64,
            local_ts: read_u64(bytes, at + 16) as i64,
            px_bits: read_u64(bytes, at + 24),
            qty_bits: read_u64(bytes, at + 32),
            order_id: read_u64(bytes, at + 40),
            ival: read_u64(bytes, at + 48) as i64,
            fval_bits: read_u64(bytes, at + 56),
        };
        records.push(r);
        i = i + 1;
    }
    assert(records@ =~= records_from_bytes(bytes@));
    records
}

/// The start of the `.npy` header dictionary: the structured dtype of an event,
/// little-endian, and the opening of the shape tuple.
pub open spec fn npy_dict_prefix() -> Seq<u8> {
    "{'descr': [('ev', '<u8'), ('exch_ts', '<i8'), ('local_ts', '<i8'), ('px', '<f8'), ('qty', '<f8'), ('order_id', '<u8'), ('ival', '<i8'), ('fval', '<f8')], 'fortran_order': False, 'shape': (".spec_bytes()
}

/// The end of the `.npy` header dictionary: it closes the one-element shape tuple.
pub open spec fn npy_dict_suffix() -> Seq<u8> {
    ",)}".spec_bytes()
}

/// The decimal digits of `n` in ASCII, without leading zeros.
pub open spec fn decimal_digits(n: nat) -> Seq<u8>
    decreases n,
{
    if n < 10 {
        seq![(48 + n) as u8]
    } else {
        decimal_digits(n / 10).push((48 + n % 10) as u8)
    }
}

/// The header dictionary of an array of `n` events.
pub open spec fn npy_dict(n: nat) -> Seq<u8> {
    npy_dict_prefix() + decimal_digits(n) + npy_dict_suffix()
}

/// The spaces that pad a dictionary of `dict_len` bytes so that, with the
/// closing newline and the ten bytes before it, the header fills whole 64-byte blocks.
pub open spec fn npy_padding(dict_len: int) -> int {
    64 - ((10 + dict_len + 1) % 64)
}

/// The `.npy` header of an array of `n` events: dictionary, padding spaces, newline.
pub open spec fn npy_header(n: nat) -> Seq<u8> {
    let d = npy_dict(n);
    d + Seq::new(npy_padding(d.len() as int) as nat, |i: int| 0x20u8) + seq![0x0au8]
}

/// A `.npy` version 1.0 file holding `rs`: magic, version, header length
/// (little-endian `u16`), header, then the records.
pub open spec fn npy_bytes(rs: Seq<EventRecord>) -> Seq<u8> {
    let h = npy_header(rs.len());
    seq![0x93u8, 0x4eu8, 0x55u8, 0x4du8, 0x50u8, 0x59u8, 1u8, 0u8, (h.len() % 256) as u8, ((h.len() / 256) % 256) as u8]
        + h + records_bytes(rs)
}

/// Ten to the power `k`.
pub open spec fn pow10(k: nat) -> nat
    decreases k,
{
    if k == 0 {
        1
    } else {
        10 * pow10((k - 1) as nat)
    }
}

proof fn lemma_decimal_digits_len(n: nat, k: nat)
    requires
        k >= 1,
        n < pow10(k),
    ensures
        1 <= decimal_digits(n).len() <= k,
    decreases n,
{
    if n >= 10 {
        if k == 1 {
            assert(pow10(1) == 10) by {
                reveal_with_fuel(pow10, 2);
            }
        }
        let p = pow10((k - 1) as nat);
        assert(n / 10 < p) by (nonlinear_arith)
            requires
                n < 10 * p,
        ;
        lemma_decimal_digits_len(n / 10, (k - 1) as nat);
    }
}

proof fn lemma_npy_literals()
    ensures
        npy_dict_prefix().len() == 188,
        npy_dict_suffix().len() == 3,
{
    let p = "{'descr': [('ev', '<u8'), ('exch_ts', '<i8'), ('local_ts', '<i8'), ('px', '<f8'), ('qty', '<f8'), ('order_id', '<u8'), ('ival', '<i8'), ('fval', '<f8')], 'fortran_order': False, 'shape': (";
    let q = ",)}";
    reveal_strlit("{'descr': [('ev', '<u8'), ('exch_ts', '<i8'), ('local_ts', '<i8'), ('px', '<f8'), ('qty', '<f8'), ('order_id', '<u8'), ('ival', '<i8'), ('fval', '<f8')], 'fortran_order': False, 'shape': (");
    reveal_strlit(",)}");
    assert(vstd::string::is_ascii(p));
    assert(vstd::string::is_ascii(q));
    is_ascii_spec_bytes(p);
    is_ascii_spec_bytes(q);
}

/// How an event field is stored in its eight bytes.
pub enum FieldKind {
    /// An unsigned 64-bit integer (`ev`, `order_id`).
    Unsigned,
    /// A signed 64-bit integer (`exch_ts`, `local_ts`, `ival`).
    Signed,
    /// An IEEE-754 `f64`, carried in `EventRecord` as its bit pattern (`px`, `qty`, `fval`).
    Float,
}

/// The name of field `k` of an event, in record order.
pub open spec fn field_name(k: int) -> Seq<char> {
    if k == 0 {
        "ev"@
    } else if k == 1 {
        "exch_ts"@
    } else if k == 2 {
        "local_ts"@
    } else if k == 3 {
        "px"@
    } else if k == 4 {
        "qty"@
    } else if k == 5 {
        "order_id"@
    } else if k == 6 {
        "ival"@
    } else {
        "fval"@
    }
}

/// The kind of field `k`, read off `EventRecord`: `ev` and `order_id` are `u64`,
/// `exch_ts`, `local_ts` and `ival` are `i64`, and `px`, `qty` and `fval` are the
/// bit patterns of `f64` values.
pub open spec fn field_kind(k: int) -> FieldKind {
    if k == 0 || k == 5 {
        FieldKind::Unsigned
    } else if k == 1 || k == 2 || k == 6 {
        FieldKind::Signed
    } else {
        FieldKind::Float
    }
}

/// The little-endian numpy type code of an eight-byte field of the given kind.
pub open spec fn dtype_code(kind: FieldKind) -> Seq<char> {
    match kind {
        FieldKind::Unsigned => "<u8"@,
        FieldKind::Signed => "<i8"@,
        FieldKind::Float => "<f8"@,
    }
}

/// The entry of field `k` in a numpy structured dtype: `('name', 'code')`.
pub open spec fn descr_entry(k: int) -> Seq<char> {
    "('"@ + field_name(k) + "', '"@ + dtype_code(field_kind(k)) + "')"@
}

/// The structured dtype of an event: its eight fields in record order.
pub open spec fn npy_descr() -> Seq<char> {
    "["@ + descr_entry(0) + ", "@ + descr_entry(1) + ", "@ + descr_entry(2) + ", "@ + descr_entry(3)
        + ", "@ + descr_entry(4) + ", "@ + descr_entry(5) + ", "@ + descr_entry(6) + ", "@
        + descr_entry(7) + "]"@
}

/// The header dictionary up to the number of events: the dtype, C order, and the
/// opening of the one-element shape tuple.
pub open spec fn npy_dict_head() -> Seq<char> {
    "{'descr': "@ + npy_descr() + ", 'fortran_order': False, 'shape': ("@
}

/// The bytes of an ASCII text.
pub open spec fn ascii_bytes(s: Seq<char>) -> Seq<u8> {
    Seq::new(s.len(), |i: int| s[i] as u8)
}

/// The `.npy` header declares each field of an event, in record order, with the
/// numpy type of its kind: `'<u8'` for `ev` and `order_id`, `'<i8'` for
/// `exch_ts`, `local_ts` and `ival`, and `'<f8'` for `px`, `qty` and `fval`;
/// the array is in C order.
pub proof fn lemma_npy_dict_declares_fields()
    ensures
        npy_dict_prefix() == ascii_bytes(npy_dict_head()),
{
    let p = "{'descr': [('ev', '<u8'), ('exch_ts', '<i8'), ('local_ts', '<i8'), ('px', '<f8'), ('qty', '<f8'), ('order_id', '<u8'), ('ival', '<i8'), ('fval', '<f8')], 'fortran_order': False, 'shape': (";
    reveal_strlit("{'descr': [('ev', '<u8'), ('exch_ts', '<i8'), ('local_ts', '<i8'), ('px', '<f8'), ('qty', '<f8'), ('order_id', '<u8'), ('ival', '<i8'), ('fval', '<f8')], 'fortran_order': False, 'shape': (");
    reveal_strlit("ev");
    reveal_strlit("exch_ts");
    reveal_strlit("local_ts");
    reveal_strlit("px");
    reveal_strlit("qty");
    reveal_strlit("order_id");
    reveal_strlit("ival");
    reveal_strlit("fval");
    reveal_strlit("<u8");
    reveal_strlit("<i8");
    reveal_strlit("<f8");
    reveal_strlit("('");
    reveal_strlit("', '");
    reveal_strlit("')");
    reveal_strlit("[");
    reveal_strlit(", ");
    reveal_strlit("]");
    reveal_strlit("{'descr': ");
    reveal_strlit(", 'fortran_order': False, 'shape': (");
    assert(p@ =~= npy_dict_head());
    assert(vstd::string::is_ascii(p));
    is_ascii_spec_bytes(p);
    assert(npy_dict_prefix() =~= ascii_bytes(npy_dict_head()));
}

/// Appends the decimal digits of `n`.
fn push_decimal(out: &mut Vec<u8>, n: usize)
    ensures
        final(out)@ == old(out)@ + decimal_digits(n as nat),
    decreases n,
{
    if n >= 10 {
        push_decimal(out, n / 10);
    }
    let d: u8 = (n % 10) as u8;
    out.push(48u8 + d);
}

/// The `.npy` header for `n` events: the dictionary, padded with spaces and ended
/// by a newline so that the ten bytes before it and the header fill whole 64-byte blocks.
pub fn encode_npy_header(n: usize) -> (h: Vec<u8>)
    ensures
        h@ == npy_header(n as nat),
        (10 + h@.len()) % 64 == 0,
        h@.len() < 65536,
        h@.take(npy_dict_head().len() as int) == ascii_bytes(npy_dict_head()),
{
    proof {
        lemma_npy_literals();
        lemma_npy_dict_declares_fields();
        assert(pow10(20) == 100_000_000_000_000_000_000) by {
            reveal_with_fuel(pow10, 21);
        }
        lemma_decimal_digits_len(n as nat, 20);
    }
    let mut h = slice_to_vec("{'descr': [('ev', '<u8'), ('exch_ts', '<i8'), ('local_ts', '<i8'), ('px', '<f8'), ('qty', '<f8'), ('order_id', '<u8'), ('ival', '<i8'), ('fval', '<f8')], 'fortran_order': False, 'shape': (".as_bytes());
    push_decimal(&mut h, n);
    let mut suffix = slice_to_vec(",)}".as_bytes());
    h.append(&mut suffix);
    let ghost dict = h@;
    assert(dict == npy_dict(n as nat));
    let padding: usize = 64 - ((10 + h.len() + 1) % 64);
    let mut k: usize = 0;
    while k < padding
        invariant
            dict.len() < 300,
            padding == npy_padding(dict.len() as int),
            0 <= k <= padding,
            h@ == dict + Seq::new(k as nat, |i: int| 0x20u8),
        decreases padding - k,
    {
        h.push(0x20u8);
        k = k + 1;
        assert(h@ =~= dict + Seq::new(k as nat, |i: int| 0x20u8));
    }
    h.push(0x0au8);
    assert(h@.take(npy_dict_head().len() as int) =~= npy_dict_prefix());
    h
}

/// The bytes of a `.npy` file holding `records`: magic, version 1.0, the header
/// length, the header, and the raw records. The data starts on a 64-byte boundary.
pub fn encode_npy(records: &Vec<EventRecord>) -> (out: Vec<u8>)
    ensures
        out@ == npy_bytes(records@),
        (10 + npy_header(records@.len()).len()) % 64 == 0,
        npy_header(records@.len()).len() < 65536,
        out@.subrange(10, 10 + npy_dict_head().len() as int) == ascii_bytes(npy_dict_head()),
{
    let header = encode_npy_header(records.len());
    let ghost hv = header@;
    proof {
        lemma_npy_literals();
        lemma_npy_dict_declares_fields();
        assert(npy_dict_head().len() == 188);
    }
    let hl: usize = header.len();
    let mut out: Vec<u8> = vec![0x93u8, 0x4eu8, 0x55u8, 0x4du8, 0x50u8, 0x59u8, 1u8, 0u8];
    out.push((hl % 256) as u8);
    out.push(((hl / 256) % 256) as u8);
    let mut h = header;
    out.append(&mut h);
    let mut data = encode_bin(records);
    out.append(&mut data);
    assert(out@ =~= npy_bytes(records@));
    assert(out@.subrange(10, 10 + npy_dict_head().len() as int) =~= hv.take(npy_dict_head().len() as int));
    out
}

} // verus!
