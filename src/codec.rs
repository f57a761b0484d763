use vstd::prelude::*;

use crate::table::{SlotTable, EMPTY, CAPACITY, LEGACY_CAPACITY, unitaccessorylist_clear_hook};

verus! {

/// The version written in front of every encoded table.
pub const FORMAT_VERSION: i32 = 1;

/// Why a byte stream could not be decoded.
#[derive(Debug, PartialEq, Eq, Structural, Clone, Copy)]
pub enum DecodeError {
    /// The stream ends before the words that its version calls for.
    Truncated,
}

/// The four little-endian bytes of `v`.
pub open spec fn le_bytes(v: i32) -> Seq<u8> {
    let u = v as u32;
    seq![(u & 0xff) as u8, ((u >> 8u32) & 0xff) as u8, ((u >> 16u32) & 0xff) as u8, (u >> 24u32) as u8]
}

/// The 32-bit integer whose little-endian bytes are `b0..b3`.
pub open spec fn from_le(b0: u8, b1: u8, b2: u8, b3: u8) -> i32 {
    ((b0 as u32) | ((b1 as u32) << 8u32) | ((b2 as u32) << 16u32) | ((b3 as u32) << 24u32)) as i32
}

/// The word at word position `w` of `bytes`.
pub open spec fn word_at(bytes: Seq<u8>, w: int) -> i32 {
    from_le(bytes[4 * w], bytes[4 * w + 1], bytes[4 * w + 2], bytes[4 * w + 3])
}

/// The bytes of the words `ws`, one after another.
pub open spec fn encoding(ws: Seq<i32>) -> Seq<u8> {
    Seq::new(4 * ws.len(), |b: int| le_bytes(ws[b / 4])[b % 4])
}

/// The words that encode a table whose slots hold `slots`.
pub open spec fn table_words(slots: Seq<i32>) -> Seq<i32> {
    seq![FORMAT_VERSION].add(slots)
}

/// Number of slot words that follow a version word `version`, for a table
/// of `capacity` slots.
pub open spec fn entry_count(version: i32, capacity: nat) -> nat {
    if version > 0 { capacity } else { LEGACY_CAPACITY as nat }
}

/// Number of bytes that a stream with version `version` takes, for a table
/// of `capacity` slots.
pub open spec fn frame_len(version: i32, capacity: nat) -> nat {
    4 + 4 * entry_count(version, capacity)
}

/// The slots that decoding `bytes` into a table of `capacity` slots yields,
/// or none where the stream is truncated. A positive version carries every
/// slot; a legacy stream carries four slots, which are discarded.
pub open spec fn decoded(bytes: Seq<u8>, capacity: nat) -> Option<Seq<i32>> {
    if bytes.len() < 4 || bytes.len() < frame_len(word_at(bytes, 0), capacity) {
        None
    } else if word_at(bytes, 0) > 0 {
        Some(Seq::new(capacity, |i: int| word_at(bytes, i + 1)))
    } else {
        Some(Seq::new(capacity, |i: int| EMPTY))
    }
}

proof fn lemma_le_round_trip(v: i32)
    ensures
        from_le(le_bytes(v)[0], le_bytes(v)[1], le_bytes(v)[2], le_bytes(v)[3]) == v,
{
    assert((((v as u32 & 0xff) as u8 as u32) | (((((v as u32) >> 8u32) & 0xff) as u8 as u32) << 8u32)
        | (((((v as u32) >> 16u32) & 0xff) as u8 as u32) << 16u32) | ((((v as u32) >> 24u32) as u8
        as u32) << 24u32)) as i32 == v) by (bit_vector);
}

/// The bytes of `ws` hold each word of `ws` at its position.
proof fn lemma_encoding_words(ws: Seq<i32>)
    ensures
        encoding(ws).len() == 4 * ws.len(),
        forall|w: int| 0 <= w < ws.len() ==> word_at(encoding(ws), w) == #[trigger] ws[w],
{
    assert forall|w: int| 0 <= w < ws.len() implies word_at(encoding(ws), w) == #[trigger] ws[w] by {
        let e = encoding(ws);
        assert((4 * w) / 4 == w && (4 * w) % 4 == 0);
        assert((4 * w + 1) / 4 == w && (4 * w + 1) % 4 == 1);
        assert((4 * w + 2) / 4 == w && (4 * w + 2) % 4 == 2);
        assert((4 * w + 3) / 4 == w && (4 * w + 3) % 4 == 3);
        lemma_le_round_trip(ws[w]);
    }
}

/// Encoding the words `ws` and then `v` gives the bytes of `ws` followed by those of `v`.
proof fn lemma_encoding_push(ws: Seq<i32>, v: i32)
    ensures
        encoding(ws.push(v)) == encoding(ws) + le_bytes(v),
{
    let l = encoding(ws.push(v));
    let r = encoding(ws) + le_bytes(v);
    assert forall|b: int| 0 <= b < l.len() implies l[b] == r[b] by {
        if b < 4 * ws.len() {
            assert(b / 4 < ws.len());
        } else {
            assert(b / 4 == ws.len());
        }
    }
    assert(l =~= r);
}

/// Appends the four little-endian bytes of `v` to `out`.
fn push_word(out: &mut Vec<u8>, v: i32)
    ensures
        final(out)@ == old(out)@ + le_bytes(v),
{
    let u: u32 = #[verifier::truncate] (v as u32);
    out.push((u & 0xff) as u8);
    out.push(((u >> 8u32) & 0xff) as u8);
    out.push(((u >> 16u32) & 0xff) as u8);
    out.push((u >> 24u32) as u8);
    assert(final(out)@ =~= old(out)@ + le_bytes(v));
}

/// Reads the word at word position `w` of `bytes`.
fn read_word(bytes: &[u8], w: usize) -> (r: i32)
    requires
        4 * w + 4 <= bytes@.len(),
    ensures
        r == word_at(bytes@, w as int),
{
    // The slice length bounds the byte offsets below.
    let _len = bytes.len();
    let b = 4 * w;
    let u: u32 = (bytes[b] as u32) | ((bytes[b + 1] as u32) << 8u32) | ((bytes[b + 2] as u32) << 16u32)
        | ((bytes[b + 3] as u32) << 24u32);
    #[verifier::truncate]
    (u as i32)
}

/// Encodes the table: the format version, then every slot's reference in
/// order, each as four little-endian bytes.
pub fn unitaccessorylist_serialize_hook(this: &SlotTable) -> (r: Vec<u8>)
    requires
        this.wf(),
    ensures
        r@ == encoding(table_words(this@)),
{
    let mut out: Vec<u8> = Vec::new();
    push_word(&mut out, FORMAT_VERSION);
    let ghost ws = table_words(this@);
    proof {
        lemma_encoding_push(Seq::<i32>::empty(), FORMAT_VERSION);
        assert(Seq::<i32>::empty().push(FORMAT_VERSION) =~= ws.take(1));
        assert(encoding(Seq::<i32>::empty()) =~= Seq::<u8>::empty());
    }
    let n = this.len();
    let mut i: usize = 0;
    while i < n
        invariant
            n == this@.len(),
            n <= CAPACITY,
            i <= n,
            ws == table_words(this@),
            out@ == encoding(ws.take(i + 1)),
        decreases n - i,
    {
        let v = this.get(i);
        push_word(&mut out, v);
        proof {
            lemma_encoding_push(ws.take(i + 1), v);
            assert(ws.take(i + 1).push(v) =~= ws.take(i + 2));
        }
        i = i + 1;
    }
    assert(ws.take(n + 1) =~= ws);
    out
}

/// Decodes `bytes` into the table. The table is emptied, then a positive
/// version is followed by one word per slot; a legacy stream (version zero
/// or less) is followed by four words, whose references are discarded. On
/// success returns the number of bytes read; a stream shorter than its
/// version calls for leaves the table unchanged and is an error.
pub fn unitaccessorylist_deserialize_hook(this: &mut SlotTable, bytes: &[u8]) -> (r: Result<
    usize,
    DecodeError,
>)
    requires
        old(this).wf(),
    ensures
        r.is_ok() == decoded(bytes@, old(this)@.len()).is_some(),
        r matches Ok(n) ==> decoded(bytes@, old(this)@.len()) == Some(final(this)@) && n
            == frame_len(word_at(bytes@, 0), old(this)@.len()),
        r matches Err(e) ==> e == DecodeError::Truncated && final(this)@ == old(this)@,
{
    let cap = this.len();
    if bytes.len() < 4 {
        return Err(DecodeError::Truncated);
    }
    let version = read_word(bytes, 0);
    let count = if version > 0 { cap } else { LEGACY_CAPACITY };
    let need = 4 + 4 * count;
    if bytes.len() < need {
        return Err(DecodeError::Truncated);
    }
    unitaccessorylist_clear_hook(this);
    if version > 0 {
        let mut i: usize = 0;
        while i < cap
            invariant
                cap == old(this)@.len(),
                this@.len() == cap,
                version == word_at(bytes@, 0),
                4 + 4 * cap <= bytes@.len(),
                i <= cap,
                forall|j: int| 0 <= j < i ==> this@[j] == word_at(bytes@, j + 1),
            decreases cap - i,
        {
            let v = read_word(bytes, i + 1);
            this.set(i, v);
            i = i + 1;
        }
        assert(this@ =~= Seq::new(cap as nat, |i: int| word_at(bytes@, i + 1)));
    } else {
        // Legacy slot indices may designate other categories under the
        // current kinds, so the four legacy references are skipped and the
        // table stays empty.
        assert(this@ =~= Seq::new(cap as nat, |i: int| EMPTY));
    }
    Ok(need)
}

/// Round trip: decoding the encoding of a table into a table of the same
/// capacity gives back its slots.
pub proof fn lemma_round_trip(slots: Seq<i32>)
    requires
        slots.len() <= CAPACITY,
    ensures
        decoded(encoding(table_words(slots)), slots.len()) == Some(slots),
{
    let ws = table_words(slots);
    let e = encoding(ws);
    lemma_encoding_words(ws);
    assert(ws[0] == FORMAT_VERSION);
    assert(word_at(e, 0) == FORMAT_VERSION);
    assert forall|i: int| 0 <= i < slots.len() implies word_at(e, i + 1) == slots[i] by {
        assert(ws[i + 1] == slots[i]);
    }
    assert(Seq::new(slots.len(), |i: int| word_at(e, i + 1)) =~= slots);
}

/// Legacy migration: a stream whose version is not positive decodes to an
/// empty table, whatever references follow the version.
pub proof fn lemma_legacy_discard(bytes: Seq<u8>, capacity: nat)
    requires
        word_at(bytes, 0) <= 0,
        bytes.len() >= frame_len(word_at(bytes, 0), capacity),
    ensures
        decoded(bytes, capacity) == Some(Seq::new(capacity, |i: int| EMPTY)),
{
}

} // verus!
