//! Byte-level building blocks of the payload encoding.
//!
//! A payload is bincode's (1.x, default functions: fixed-width little-endian
//! integers, trailing bytes allowed) encoding of a protocol value.  The
//! primitive pieces that make up the protocol's values (the `u32` variant
//! index, `String`, `Vec<String>`, `Option<String>`) are encoded and decoded by
//! bincode itself; this module states what bincode writes and reads for each
//! of them and proves the facts that the protocol's round trip rests on.

use vstd::prelude::*;
use vstd::utf8::*;

verus! {

broadcast use {vstd::utf8::encode_utf8_valid_utf8, vstd::utf8::encode_utf8_decode_utf8};

/// `256^k`.
pub open spec fn pow256(k: nat) -> nat
    decreases k,
{
    if k == 0 {
        1
    } else {
        256 * pow256((k - 1) as nat)
    }
}

/// The `k` least significant bytes of `n`, least significant first.
pub open spec fn le_bytes(n: nat, k: nat) -> Seq<u8>
    decreases k,
{
    if k == 0 {
        seq![]
    } else {
        seq![(n % 256) as u8] + le_bytes(n / 256, (k - 1) as nat)
    }
}

/// The number whose little-endian bytes are `b`.
pub open spec fn le_value(b: Seq<u8>) -> nat
    decreases b.len(),
{
    if b.len() == 0 {
        0
    } else {
        b[0] as nat + 256 * le_value(b.drop_first())
    }
}

pub proof fn lemma_pow256_values()
    ensures
        pow256(4) == 0x1_0000_0000,
        pow256(8) == 0x1_0000_0000_0000_0000,
{
    reveal_with_fuel(pow256, 9);
}

pub proof fn lemma_le_bytes_len(n: nat, k: nat)
    ensures
        le_bytes(n, k).len() == k,
    decreases k,
{
    if k > 0 {
        lemma_le_bytes_len(n / 256, (k - 1) as nat);
    }
}

/// Reading back `k` little-endian bytes gives the number they were made of.
pub proof fn lemma_le_roundtrip(n: nat, k: nat)
    requires
        n < pow256(k),
    ensures
        le_bytes(n, k).len() == k,
        le_value(le_bytes(n, k)) == n,
    decreases k,
{
    if k > 0 {
        lemma_le_roundtrip(n / 256, (k - 1) as nat);
        let b = le_bytes(n, k);
        assert(b.drop_first() =~= le_bytes(n / 256, (k - 1) as nat));
    }
}

/// The value of a prefix does not depend on what follows it.
pub proof fn lemma_le_value_prefix(b: Seq<u8>, rest: Seq<u8>)
    ensures
        le_value((b + rest).take(b.len() as int)) == le_value(b),
{
    assert((b + rest).take(b.len() as int) =~= b);
}

/// The big-endian bytes of a `u32`, most significant first.
pub open spec fn be_u32_bytes(n: u32) -> Seq<u8> {
    seq![
        (n / 0x100_0000) as u8,
        ((n / 0x1_0000) % 0x100) as u8,
        ((n / 0x100) % 0x100) as u8,
        (n % 0x100) as u8,
    ]
}

/// The number whose big-endian bytes are the first four of `b`.
pub open spec fn be_u32_value(b: Seq<u8>) -> nat
    recommends
        b.len() >= 4,
{
    b[0] as nat * 0x100_0000 + b[1] as nat * 0x1_0000 + b[2] as nat * 0x100 + b[3] as nat
}

pub proof fn lemma_be_u32_roundtrip(n: u32)
    ensures
        be_u32_value(be_u32_bytes(n)) == n,
{
    let b = be_u32_bytes(n);
    assert(b[0] as nat == n / 0x100_0000);
    assert(b[1] as nat == (n / 0x1_0000) % 0x100);
    assert(b[2] as nat == (n / 0x100) % 0x100);
    assert(b[3] as nat == n % 0x100);
    assert(be_u32_value(b) == n) by (nonlinear_arith)
        requires
            b[0] as nat == n / 0x100_0000,
            b[1] as nat == (n / 0x1_0000) % 0x100,
            b[2] as nat == (n / 0x100) % 0x100,
            b[3] as nat == n % 0x100,
            n < 0x1_0000_0000,
            be_u32_value(b) == b[0] as nat * 0x100_0000 + b[1] as nat * 0x1_0000 + b[2] as nat
                * 0x100 + b[3] as nat,
    ;
}

// ---------------------------------------------------------------------------
// What bincode writes.
/// bincode's encoding of a `u32`: four little-endian bytes.
pub open spec fn bincode_u32(v: u32) -> Seq<u8> {
    le_bytes(v as nat, 4)
}

/// bincode's encoding of a string: the length of its UTF-8 bytes as a
/// little-endian `u64`, then those bytes.
pub open spec fn bincode_str(s: Seq<char>) -> Seq<u8> {
    le_bytes(encode_utf8(s).len(), 8) + encode_utf8(s)
}

/// The strings of `v`, each encoded as by `bincode_str`, one after the other.
pub open spec fn bincode_str_items(v: Seq<Seq<char>>) -> Seq<u8>
    decreases v.len(),
{
    if v.len() == 0 {
        seq![]
    } else {
        bincode_str(v[0]) + bincode_str_items(v.drop_first())
    }
}

/// bincode's encoding of a sequence of strings: the count as a little-endian
/// `u64`, then the strings.
pub open spec fn bincode_strs(v: Seq<Seq<char>>) -> Seq<u8> {
    le_bytes(v.len(), 8) + bincode_str_items(v)
}

/// bincode's encoding of an optional string: a `0` byte, or a `1` byte and the
/// string.
pub open spec fn bincode_opt_str(o: Option<Seq<char>>) -> Seq<u8> {
    match o {
        None => seq![0u8],
        Some(s) => seq![1u8] + bincode_str(s),
    }
}

// ---------------------------------------------------------------------------
// What bincode reads.  Each reader gives the value and the number of bytes it
// took from the front of `b`, or `None` where bincode returns an error.
/// Reading a `u32`.
pub open spec fn read_u32(b: Seq<u8>) -> Option<(u32, nat)> {
    if b.len() >= 4 {
        Some((le_value(b.take(4)) as u32, 4))
    } else {
        None
    }
}

/// Reading a length (a `u64` that must fit in a `usize`).
pub open spec fn read_len(b: Seq<u8>) -> Option<nat> {
    if b.len() >= 8 && le_value(b.take(8)) <= usize::MAX {
        Some(le_value(b.take(8)))
    } else {
        None
    }
}

/// Reading a string: a length, then that many bytes, which must be UTF-8.
pub open spec fn read_str(b: Seq<u8>) -> Option<(Seq<char>, nat)> {
    match read_len(b) {
        None => None,
        Some(n) => if b.len() < 8 + n {
            None
        } else if !valid_utf8(b.subrange(8, 8 + n as int)) {
            None
        } else {
            Some((decode_utf8(b.subrange(8, 8 + n as int)), 8 + n))
        },
    }
}

/// Reading `count` strings one after the other.
pub open spec fn read_str_items(b: Seq<u8>, count: nat) -> Option<(Seq<Seq<char>>, nat)>
    decreases count,
{
    if count == 0 {
        Some((seq![], 0))
    } else {
        match read_str(b) {
            None => None,
            Some((s, c)) => match read_str_items(b.skip(c as int), (count - 1) as nat) {
                None => None,
                Some((rest, c2)) => Some((seq![s] + rest, c + c2)),
            },
        }
    }
}

/// Reading a sequence of strings: a count, then that many strings.
pub open spec fn read_strs(b: Seq<u8>) -> Option<(Seq<Seq<char>>, nat)> {
    match read_len(b) {
        None => None,
        Some(n) => match read_str_items(b.skip(8), n) {
            None => None,
            Some((v, c)) => Some((v, 8 + c)),
        },
    }
}

/// Reading an optional string: a tag byte `0` or `1`; any other tag is an error.
pub open spec fn read_opt_str(b: Seq<u8>) -> Option<(Option<Seq<char>>, nat)> {
    if b.len() == 0 {
        None
    } else if b[0] == 0 {
        Some((None, 1))
    } else if b[0] == 1 {
        match read_str(b.skip(1)) {
            None => None,
            Some((s, c)) => Some((Some(s), 1 + c)),
        }
    } else {
        None
    }
}

/// The views of a sequence of strings.
pub open spec fn str_views(v: Seq<String>) -> Seq<Seq<char>> {
    v.map_values(|s: String| s@)
}

// ---------------------------------------------------------------------------
// Round trips: what bincode wrote is read back, whatever follows it.
pub proof fn lemma_read_u32_roundtrip(v: u32, rest: Seq<u8>)
    ensures
        bincode_u32(v).len() == 4,
        read_u32(bincode_u32(v) + rest) == Some((v, 4nat)),
{
    lemma_pow256_values();
    lemma_le_roundtrip(v as nat, 4);
    lemma_le_value_prefix(bincode_u32(v), rest);
}

pub proof fn lemma_read_str_roundtrip(s: Seq<char>, rest: Seq<u8>)
    requires
        encode_utf8(s).len() <= usize::MAX,
    ensures
        bincode_str(s).len() == 8 + encode_utf8(s).len(),
        read_str(bincode_str(s) + rest) == Some((s, bincode_str(s).len())),
{
    let u = encode_utf8(s);
    let h = le_bytes(u.len(), 8);
    lemma_pow256_values();
    lemma_le_roundtrip(u.len(), 8);
    let b = bincode_str(s) + rest;
    assert(b == h + (u + rest));
    lemma_le_value_prefix(h, u + rest);
    assert(b.subrange(8, 8 + u.len() as int) =~= u);
}

pub proof fn lemma_read_str_items_roundtrip(v: Seq<Seq<char>>, rest: Seq<u8>)
    requires
        forall|i: int| 0 <= i < v.len() ==> encode_utf8(#[trigger] v[i]).len() <= usize::MAX,
    ensures
        read_str_items(bincode_str_items(v) + rest, v.len()) == Some(
            (v, bincode_str_items(v).len()),
        ),
    decreases v.len(),
{
    if v.len() > 0 {
        let first = bincode_str(v[0]);
        let tail = bincode_str_items(v.drop_first());
        lemma_read_str_roundtrip(v[0], tail + rest);
        assert(bincode_str_items(v) + rest =~= first + (tail + rest));
        assert((bincode_str_items(v) + rest).skip(first.len() as int) =~= tail + rest);
        lemma_read_str_items_roundtrip(v.drop_first(), rest);
        assert(seq![v[0]] + v.drop_first() =~= v);
    }
}

pub proof fn lemma_read_strs_roundtrip(v: Seq<Seq<char>>, rest: Seq<u8>)
    requires
        v.len() <= usize::MAX,
        forall|i: int| 0 <= i < v.len() ==> encode_utf8(#[trigger] v[i]).len() <= usize::MAX,
    ensures
        read_strs(bincode_strs(v) + rest) == Some((v, bincode_strs(v).len())),
{
    let h = le_bytes(v.len(), 8);
    let items = bincode_str_items(v);
    lemma_pow256_values();
    lemma_le_roundtrip(v.len(), 8);
    let b = bincode_strs(v) + rest;
    assert(b == h + (items + rest));
    lemma_le_value_prefix(h, items + rest);
    assert(b.skip(8) =~= items + rest);
    lemma_read_str_items_roundtrip(v, rest);
}

pub proof fn lemma_read_opt_str_roundtrip(o: Option<Seq<char>>, rest: Seq<u8>)
    requires
        o matches Some(s) ==> encode_utf8(s).len() <= usize::MAX,
    ensures
        read_opt_str(bincode_opt_str(o) + rest) == Some((o, bincode_opt_str(o).len())),
{
    match o {
        None => {},
        Some(s) => {
            lemma_read_str_roundtrip(s, rest);
            assert((bincode_opt_str(o) + rest).skip(1) =~= bincode_str(s) + rest);
        },
    }
}

/// A string that was read is exactly the bytes it was read from.
pub proof fn lemma_read_str_consumed(b: Seq<u8>)
    requires
        read_str(b) is Some,
    ensures
        ({
            let (s, c) = read_str(b).unwrap();
            &&& c <= b.len()
            &&& c == 8 + encode_utf8(s).len()
            &&& b.take(c as int) == bincode_str(s)
        }),
{
    let n = read_len(b).unwrap();
    let u = b.subrange(8, 8 + n as int);
    vstd::utf8::decode_utf8_encode_utf8(u);
    lemma_pow256_values();
    let h = b.take(8);
    // the header re-encodes to itself
    lemma_le_header(h);
    assert(b.take(8 + n as int) =~= h + u);
}

/// Eight bytes are the little-endian encoding of their own value.
proof fn lemma_le_header(h: Seq<u8>)
    requires
        h.len() == 8,
    ensures
        le_bytes(le_value(h), 8) == h,
{
    lemma_le_bytes_of_value(h);
}

proof fn lemma_le_bytes_of_value(h: Seq<u8>)
    ensures
        le_bytes(le_value(h), h.len()) =~= h,
    decreases h.len(),
{
    if h.len() > 0 {
        let t = h.drop_first();
        lemma_le_bytes_of_value(t);
        let v = le_value(h);
        assert(v == h[0] as nat + 256 * le_value(t));
        assert(v % 256 == h[0] as nat);
        assert(v / 256 == le_value(t));
        assert(le_bytes(v, h.len()) == seq![(v % 256) as u8] + le_bytes(v / 256, t.len()));
    }
}

proof fn lemma_le_value_bound(h: Seq<u8>)
    ensures
        le_value(h) < pow256(h.len()),
    decreases h.len(),
{
    if h.len() > 0 {
        lemma_le_value_bound(h.drop_first());
    }
}

/// A `u32` that was read is exactly the four bytes it was read from.
pub proof fn lemma_read_u32_consumed(b: Seq<u8>)
    requires
        read_u32(b) is Some,
    ensures
        b.take(4) == bincode_u32(read_u32(b).unwrap().0),
{
    let h = b.take(4);
    lemma_le_value_bound(h);
    lemma_pow256_values();
    lemma_le_bytes_of_value(h);
}

/// Strings that were read are exactly the bytes they were read from.
pub proof fn lemma_read_str_items_consumed(b: Seq<u8>, count: nat)
    requires
        read_str_items(b, count) is Some,
    ensures
        ({
            let (v, c) = read_str_items(b, count).unwrap();
            &&& c <= b.len()
            &&& c == bincode_str_items(v).len()
            &&& b.take(c as int) == bincode_str_items(v)
            &&& v.len() == count
        }),
    decreases count,
{
    if count > 0 {
        let (s, c) = read_str(b).unwrap();
        lemma_read_str_consumed(b);
        let rest = b.skip(c as int);
        lemma_read_str_items_consumed(rest, (count - 1) as nat);
        let (tail, c2) = read_str_items(rest, (count - 1) as nat).unwrap();
        let v = seq![s] + tail;
        assert(v.drop_first() =~= tail);
        assert(v[0] == s);
        assert(b.take((c + c2) as int) =~= b.take(c as int) + rest.take(c2 as int));
    }
}

/// A sequence of strings that was read is exactly the bytes it was read from.
pub proof fn lemma_read_strs_consumed(b: Seq<u8>)
    requires
        read_strs(b) is Some,
    ensures
        ({
            let (v, c) = read_strs(b).unwrap();
            &&& c <= b.len()
            &&& c == bincode_strs(v).len()
            &&& b.take(c as int) == bincode_strs(v)
        }),
{
    let n = read_len(b).unwrap();
    lemma_read_str_items_consumed(b.skip(8), n);
    let (v, c) = read_str_items(b.skip(8), n).unwrap();
    lemma_le_header(b.take(8));
    assert(b.take(8 + c as int) =~= b.take(8) + b.skip(8).take(c as int));
}

/// An optional string that was read is exactly the bytes it was read from.
pub proof fn lemma_read_opt_str_consumed(b: Seq<u8>)
    requires
        read_opt_str(b) is Some,
    ensures
        ({
            let (o, c) = read_opt_str(b).unwrap();
            &&& c <= b.len()
            &&& c == bincode_opt_str(o).len()
            &&& b.take(c as int) == bincode_opt_str(o)
        }),
{
    if b[0] == 0 {
        assert(b.take(1) =~= seq![0u8]);
    } else {
        lemma_read_str_consumed(b.skip(1));
        let (s, c) = read_str(b.skip(1)).unwrap();
        assert(b.take(1 + c as int) =~= seq![1u8] + b.skip(1).take(c as int));
    }
}

} // verus!
