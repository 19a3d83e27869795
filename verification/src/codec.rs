//! The serialized form of byte strings and of storage entries: the SCALE
//! format, produced and read by `parity-scale-codec`.
//!
//! The format is stated here as specification functions; the encoder and the
//! decoder themselves are the outside crate's, called through the trusted
//! functions at the end of this file.

use parity_scale_codec::{Decode, Encode};
use vstd::prelude::*;

verus! {

/// The largest length that the format can write in front of a collection.
pub const MAX_LEN: usize = 0xffff_ffff;

/// The `count` low bytes of `x`, least significant first.
pub open spec fn le_bytes(x: nat, count: nat) -> Seq<u8>
    decreases count,
{
    if count == 0 {
        Seq::empty()
    } else {
        seq![(x % 256) as u8] + le_bytes(x / 256, (count - 1) as nat)
    }
}

/// The compact form of a length `n <= MAX_LEN`: one, two or four bytes that
/// hold `4n`, `4n + 1` or `4n + 2`, or the byte 3 and then the four bytes of `n`.
pub open spec fn compact_encoding(n: nat) -> Seq<u8> {
    if n < 0x40 {
        le_bytes(4 * n, 1)
    } else if n < 0x4000 {
        le_bytes(4 * n + 1, 2)
    } else if n < 0x4000_0000 {
        le_bytes(4 * n + 2, 4)
    } else {
        seq![3u8] + le_bytes(n, 4)
    }
}

/// A byte string on the wire: its length in compact form, then its bytes.
pub open spec fn bytes_encoding(b: Seq<u8>) -> Seq<u8> {
    compact_encoding(b.len()) + b
}

/// One entry on the wire: the key, then the value.
pub open spec fn entry_encoding(e: (Seq<u8>, Seq<u8>)) -> Seq<u8> {
    bytes_encoding(e.0) + bytes_encoding(e.1)
}

/// The entries on the wire, one after the other.
pub open spec fn entries_payload(es: Seq<(Seq<u8>, Seq<u8>)>) -> Seq<u8>
    decreases es.len(),
{
    if es.len() == 0 {
        Seq::empty()
    } else {
        entry_encoding(es[0]) + entries_payload(es.skip(1))
    }
}

/// A sequence of entries on the wire: their number in compact form, then the
/// entries.
pub open spec fn storage_encoding(es: Seq<(Seq<u8>, Seq<u8>)>) -> Seq<u8> {
    compact_encoding(es.len()) + entries_payload(es)
}

/// The format can hold these entries: their number and the length of every
/// key and value are at most `MAX_LEN`.
pub open spec fn entries_fit(es: Seq<(Seq<u8>, Seq<u8>)>) -> bool {
    &&& es.len() <= MAX_LEN
    &&& forall|i: int|
        0 <= i < es.len() ==> (#[trigger] es[i]).0.len() <= MAX_LEN && es[i].1.len() <= MAX_LEN
}

/// What a vector of entries holds, as byte strings.
pub open spec fn entries_view(v: Seq<(Vec<u8>, Vec<u8>)>) -> Seq<(Seq<u8>, Seq<u8>)> {
    Seq::new(v.len(), |i: int| (v[i].0@, v[i].1@))
}

/// What a decoder's answer holds, as byte strings.
pub open spec fn decoded_view(out: Option<Vec<(Vec<u8>, Vec<u8>)>>) -> Option<
    Seq<(Seq<u8>, Seq<u8>)>,
> {
    match out {
        Some(v) => Some(entries_view(v@)),
        None => None,
    }
}

/// `le_bytes` gives as many bytes as it is asked for.
pub proof fn lemma_le_bytes_len(x: nat, count: nat)
    ensures
        le_bytes(x, count).len() == count,
    decreases count,
{
    if count > 0 {
        lemma_le_bytes_len(x / 256, (count - 1) as nat);
    }
}

/// The number of bytes that the compact form of `n` takes.
pub open spec fn compact_len_of(n: nat) -> nat {
    if n < 0x40 {
        1
    } else if n < 0x4000 {
        2
    } else if n < 0x4000_0000 {
        4
    } else {
        5
    }
}

/// The compact form takes one, two, four or five bytes.
pub proof fn lemma_compact_encoding_len(n: nat)
    ensures
        compact_encoding(n).len() == compact_len_of(n),
{
    lemma_le_bytes_len(4 * n, 1);
    lemma_le_bytes_len(4 * n + 1, 2);
    lemma_le_bytes_len(4 * n + 2, 4);
    lemma_le_bytes_len(n, 4);
}

/// The number of bytes that the compact form of `n` takes.
pub fn compact_len(n: u32) -> (len: usize)
    ensures
        len == compact_encoding(n as nat).len(),
        1 <= len <= 5,
{
    proof {
        lemma_compact_encoding_len(n as nat);
    }
    if n < 0x40 {
        1
    } else if n < 0x4000 {
        2
    } else if n < 0x4000_0000 {
        4
    } else {
        5
    }
}

/// Whether the format can hold these entries.
pub fn entries_fit_in(entries: &Vec<(Vec<u8>, Vec<u8>)>) -> (fit: bool)
    ensures
        fit == entries_fit(entries_view(entries@)),
{
    if entries.len() > MAX_LEN {
        return false;
    }
    let mut i: usize = 0;
    while i < entries.len()
        invariant
            i <= entries@.len(),
            entries@.len() <= MAX_LEN,
            forall|j: int|
                0 <= j < i ==> (#[trigger] entries_view(entries@)[j]).0.len() <= MAX_LEN
                    && entries_view(entries@)[j].1.len() <= MAX_LEN,
        decreases entries@.len() - i,
    {
        if entries[i].0.len() > MAX_LEN || entries[i].1.len() > MAX_LEN {
            assert(!(entries_view(entries@)[i as int].0.len() <= MAX_LEN && entries_view(
                entries@,
            )[i as int].1.len() <= MAX_LEN));
            return false;
        }
        i = i + 1;
    }
    true
}

/// The bytes of `le_bytes`, written out for the lengths that the compact
/// form uses.
pub proof fn lemma_le_bytes_unfold(x: nat)
    ensures
        le_bytes(x, 1) == seq![(x % 256) as u8],
        le_bytes(x, 2) == seq![(x % 256) as u8, (x / 256 % 256) as u8],
        le_bytes(x, 4) == seq![
            (x % 256) as u8,
            (x / 256 % 256) as u8,
            (x / 65536 % 256) as u8,
            (x / 16777216 % 256) as u8,
        ],
{
    reveal_with_fuel(le_bytes, 5);
    assert(le_bytes(x, 1) =~= seq![(x % 256) as u8]);
    assert(le_bytes(x, 2) =~= seq![(x % 256) as u8, (x / 256 % 256) as u8]);
    assert(x / 256 / 256 == x / 65536);
    assert(x / 256 / 256 / 256 == x / 16777216);
    assert(le_bytes(x, 4) =~= seq![
        (x % 256) as u8,
        (x / 256 % 256) as u8,
        (x / 65536 % 256) as u8,
        (x / 16777216 % 256) as u8,
    ]);
}

/// The length that a compact form stands for, read back from its bytes.
pub open spec fn compact_value(b: Seq<u8>) -> nat {
    if b[0] % 4 == 0 {
        (b[0] / 4) as nat
    } else if b[0] % 4 == 1 {
        ((b[0] + 256 * b[1]) / 4) as nat
    } else if b[0] % 4 == 2 {
        ((b[0] + 256 * b[1] + 65536 * b[2] + 16777216 * b[3]) / 4) as nat
    } else {
        (b[1] + 256 * b[2] + 65536 * b[3] + 16777216 * b[4]) as nat
    }
}

/// The number of bytes of a compact form, read from its first byte.
pub open spec fn compact_span(first: u8) -> nat {
    if first % 4 == 0 {
        1
    } else if first % 4 == 1 {
        2
    } else if first % 4 == 2 {
        4
    } else {
        5
    }
}

/// The arithmetic behind the compact forms of one, two and four bytes: the
/// low two bits of `4n + tag` are `tag`, and `4n + tag` is the sum of its
/// bytes.
proof fn lemma_tagged_bytes(n: nat, tag: nat)
    requires
        tag < 4,
        4 * n + tag < 0x1_0000_0000,
    ensures
        ((4 * n + tag) % 256) % 4 == tag,
        (4 * n + tag) == (4 * n + tag) % 256 + 256 * ((4 * n + tag) / 256 % 256) + 65536 * ((4 * n
            + tag) / 65536 % 256) + 16777216 * ((4 * n + tag) / 16777216 % 256),
        4 * n + tag < 0x100 ==> (4 * n + tag) / 256 % 256 == 0,
        4 * n + tag < 0x1_0000 ==> (4 * n + tag) / 65536 % 256 == 0 && (4 * n + tag) / 16777216
            % 256 == 0,
        ((4 * n + tag) / 4) as nat == n,
{
}

/// A number below 2^32 is the sum of its four bytes.
proof fn lemma_four_bytes(n: nat)
    requires
        n < 0x1_0000_0000,
    ensures
        n == n % 256 + 256 * (n / 256 % 256) + 65536 * (n / 65536 % 256) + 16777216 * (n / 16777216
            % 256),
{
}

/// A compact form can be read back: its first byte tells its length, and
/// its bytes the number, whatever follows them.
pub proof fn lemma_compact_read_back(n: nat, rest: Seq<u8>)
    requires
        n <= MAX_LEN,
    ensures
        compact_span((compact_encoding(n) + rest)[0]) == compact_encoding(n).len(),
        compact_value(compact_encoding(n) + rest) == n,
{
    lemma_compact_encoding_len(n);
    let c = compact_encoding(n);
    let all = c + rest;
    if n < 0x40 {
        lemma_le_bytes_unfold(4 * n);
        lemma_tagged_bytes(n, 0);
        assert(all[0] == c[0]);
    } else if n < 0x4000 {
        lemma_le_bytes_unfold(4 * n + 1);
        lemma_tagged_bytes(n, 1);
        assert(all[0] == c[0]);
        assert(all[1] == c[1]);
    } else if n < 0x4000_0000 {
        lemma_le_bytes_unfold(4 * n + 2);
        lemma_tagged_bytes(n, 2);
        assert(all[0] == c[0]);
        assert(all[1] == c[1]);
        assert(all[2] == c[2]);
        assert(all[3] == c[3]);
    } else {
        lemma_le_bytes_unfold(n);
        lemma_four_bytes(n);
        assert(c =~= seq![
            3u8,
            (n % 256) as u8,
            (n / 256 % 256) as u8,
            (n / 65536 % 256) as u8,
            (n / 16777216 % 256) as u8,
        ]);
        assert(all[0] == c[0]);
        assert(all[1] == c[1]);
        assert(all[2] == c[2]);
        assert(all[3] == c[3]);
        assert(all[4] == c[4]);
    }
}

/// No compact form is the start of another: behind equal bytes stand equal
/// lengths and equal rests.
pub proof fn lemma_compact_prefix_free(n: nat, m: nat, x: Seq<u8>, y: Seq<u8>)
    requires
        n <= MAX_LEN,
        m <= MAX_LEN,
        compact_encoding(n) + x == compact_encoding(m) + y,
    ensures
        n == m,
        x == y,
{
    lemma_compact_read_back(n, x);
    lemma_compact_read_back(m, y);
    let all = compact_encoding(n) + x;
    let k = compact_encoding(n).len() as int;
    assert(x =~= all.subrange(k, all.len() as int));
    assert(y =~= all.subrange(k, all.len() as int));
}

/// Behind equal bytes stand equal byte strings and equal rests.
pub proof fn lemma_bytes_prefix_free(a: Seq<u8>, b: Seq<u8>, x: Seq<u8>, y: Seq<u8>)
    requires
        a.len() <= MAX_LEN,
        b.len() <= MAX_LEN,
        bytes_encoding(a) + x == bytes_encoding(b) + y,
    ensures
        a == b,
        x == y,
{
    assert(bytes_encoding(a) + x =~= compact_encoding(a.len()) + (a + x));
    assert(bytes_encoding(b) + y =~= compact_encoding(b.len()) + (b + y));
    lemma_compact_prefix_free(a.len(), b.len(), a + x, b + y);
    let all = a + x;
    assert(a =~= all.subrange(0, a.len() as int));
    assert(b =~= all.subrange(0, a.len() as int));
    assert(x =~= all.subrange(a.len() as int, all.len() as int));
    assert(y =~= all.subrange(a.len() as int, all.len() as int));
}

/// Behind equal bytes stand equal sequences of as many entries, and equal
/// rests.
pub proof fn lemma_payload_prefix_free(
    a: Seq<(Seq<u8>, Seq<u8>)>,
    b: Seq<(Seq<u8>, Seq<u8>)>,
    x: Seq<u8>,
    y: Seq<u8>,
)
    requires
        entries_fit(a),
        entries_fit(b),
        a.len() == b.len(),
        entries_payload(a) + x == entries_payload(b) + y,
    ensures
        a == b,
        x == y,
    decreases a.len(),
{
    if a.len() == 0 {
        assert(a =~= b);
        assert(entries_payload(a) + x =~= x);
        assert(entries_payload(b) + y =~= y);
    } else {
        let ra = a.skip(1);
        let rb = b.skip(1);
        let ta = bytes_encoding(a[0].1) + (entries_payload(ra) + x);
        let tb = bytes_encoding(b[0].1) + (entries_payload(rb) + y);
        assert(entries_payload(a) + x =~= bytes_encoding(a[0].0) + ta);
        assert(entries_payload(b) + y =~= bytes_encoding(b[0].0) + tb);
        lemma_bytes_prefix_free(a[0].0, b[0].0, ta, tb);
        lemma_bytes_prefix_free(a[0].1, b[0].1, entries_payload(ra) + x, entries_payload(rb) + y);
        assert(entries_fit(ra)) by {
            assert forall|i: int| 0 <= i < ra.len() implies (#[trigger] ra[i]).0.len() <= MAX_LEN
                && ra[i].1.len() <= MAX_LEN by {
                assert(ra[i] == a[i + 1]);
            }
        }
        assert(entries_fit(rb)) by {
            assert forall|i: int| 0 <= i < rb.len() implies (#[trigger] rb[i]).0.len() <= MAX_LEN
                && rb[i].1.len() <= MAX_LEN by {
                assert(rb[i] == b[i + 1]);
            }
        }
        lemma_payload_prefix_free(ra, rb, x, y);
        assert(a[0] == b[0]);
        assert(a =~= seq![a[0]] + ra);
        assert(b =~= seq![b[0]] + rb);
    }
}

/// The serialized form tells the entries: two sequences of entries with the
/// same serialized form are the same.
pub proof fn lemma_storage_encoding_injective(
    a: Seq<(Seq<u8>, Seq<u8>)>,
    b: Seq<(Seq<u8>, Seq<u8>)>,
)
    requires
        entries_fit(a),
        entries_fit(b),
        storage_encoding(a) == storage_encoding(b),
    ensures
        a == b,
{
    lemma_compact_prefix_free(a.len(), b.len(), entries_payload(a), entries_payload(b));
    let empty = Seq::<u8>::empty();
    assert(entries_payload(a) + empty =~= entries_payload(a));
    assert(entries_payload(b) + empty =~= entries_payload(b));
    lemma_payload_prefix_free(a, b, empty, empty);
}

/// `parity_scale_codec::Encode::encode` on a vector of pairs of byte vectors.
/// Trusted: the bytes are the number of pairs in compact form, then each
/// pair as its key and its value, each with its length in compact form in
/// front. The encoder panics on a length above `MAX_LEN`, which `requires`
/// leaves out.
#[verifier::external_body]
pub(crate) fn scale_encode_entries(entries: &Vec<(Vec<u8>, Vec<u8>)>) -> (out: Vec<u8>)
    requires
        entries_fit(entries_view(entries@)),
    ensures
        out@ == storage_encoding(entries_view(entries@)),
{
    entries.encode()
}

/// `parity_scale_codec::Decode::decode` for a vector of pairs of byte vectors,
/// on a slice. Trusted: bytes that are the encoding of some entries decode
/// to those entries. Nothing is claimed of other bytes: the caller encodes
/// what came back again, and compares.
#[verifier::external_body]
pub(crate) fn scale_decode_entries(bytes: &[u8]) -> (out: Option<Vec<(Vec<u8>, Vec<u8>)>>)
    ensures
        forall|es: Seq<(Seq<u8>, Seq<u8>)>|
            entries_fit(es) && #[trigger] storage_encoding(es) == bytes@ ==> decoded_view(out)
                == Some(es),
{
    let mut input = bytes;
    Vec::<(Vec<u8>, Vec<u8>)>::decode(&mut input).ok()
}

/// `parity_scale_codec::Encode::encode` on a byte vector. Trusted: the bytes
/// are the length in compact form, then the bytes of the vector. The encoder
/// panics on a length above `MAX_LEN`, which `requires` leaves out.
#[verifier::external_body]
pub(crate) fn scale_encode_bytes(value: &Vec<u8>) -> (out: Vec<u8>)
    requires
        value@.len() <= MAX_LEN,
    ensures
        out@ == bytes_encoding(value@),
{
    value.encode()
}

} // verus!
