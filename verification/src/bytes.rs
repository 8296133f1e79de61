//! Little-endian integer decoding and C-string handling for raw memory reads.

use vstd::prelude::*;

verus! {

/// `256` raised to the power `n`.
pub open spec fn pow256(n: nat) -> nat
    decreases n,
{
    if n == 0 {
        1
    } else {
        256 * pow256((n - 1) as nat)
    }
}

/// The unsigned value of `b` read as a little-endian number.
pub open spec fn le_value(b: Seq<u8>) -> nat
    decreases b.len(),
{
    if b.len() == 0 {
        0
    } else {
        b[0] as nat + 256 * le_value(b.skip(1))
    }
}

pub proof fn lemma_le_value_bound(b: Seq<u8>)
    ensures
        le_value(b) < pow256(b.len()),
    decreases b.len(),
{
    if b.len() > 0 {
        lemma_le_value_bound(b.skip(1));
    }
}

proof fn lemma_pow256_mono(m: nat, n: nat)
    requires
        m <= n,
    ensures
        pow256(m) <= pow256(n),
    decreases n,
{
    if m < n {
        lemma_pow256_mono(m, (n - 1) as nat);
    }
}

pub proof fn lemma_pow256_eight()
    ensures
        pow256(8) == 0x1_0000_0000_0000_0000,
        pow256(4) == 0x1_0000_0000,
{
    reveal_with_fuel(pow256, 9);
}

/// Four and eight bytes read little-endian: the first byte is the least
/// significant, each next byte weighs 256 times more.
pub proof fn lemma_le_value_explicit(b: Seq<u8>)
    ensures
        b.len() == 4 ==> le_value(b) == b[0] + 0x100 * b[1] + 0x1_0000 * b[2] + 0x100_0000 * b[3],
        b.len() == 8 ==> le_value(b) == b[0] + 0x100 * b[1] + 0x1_0000 * b[2] + 0x100_0000 * b[3]
            + 0x1_0000_0000 * b[4] + 0x100_0000_0000 * b[5] + 0x1_0000_0000_0000 * b[6]
            + 0x100_0000_0000_0000 * b[7],
{
    if b.len() == 4 || b.len() == 8 {
        assert(b.skip(1).skip(1) =~= b.skip(2));
        assert(b.skip(2).skip(1) =~= b.skip(3));
        assert(b.skip(3).skip(1) =~= b.skip(4));
        if b.len() == 8 {
            assert(b.skip(4).skip(1) =~= b.skip(5));
            assert(b.skip(5).skip(1) =~= b.skip(6));
            assert(b.skip(6).skip(1) =~= b.skip(7));
            assert(b.skip(7).skip(1) =~= b.skip(8));
        }
        reveal_with_fuel(le_value, 9);
    }
}

/// Decodes at most eight bytes as a little-endian unsigned integer.
pub fn decode_le(b: &[u8]) -> (v: u64)
    requires
        b@.len() <= 8,
    ensures
        v as nat == le_value(b@),
{
    let n = b.len();
    let mut i: usize = n;
    let mut v: u64 = 0;
    proof {
        assert(b@.skip(n as int) =~= Seq::<u8>::empty());
        lemma_pow256_eight();
    }
    while i > 0
        invariant
            n == b@.len(),
            n <= 8,
            i <= n,
            v as nat == le_value(b@.skip(i as int)),
            pow256(8) == 0x1_0000_0000_0000_0000,
        decreases i,
    {
        i = i - 1;
        proof {
            lemma_le_value_bound(b@.skip((i + 1) as int));
            lemma_pow256_mono((n - i) as nat, 8);
            assert(b@.skip(i as int).skip(1) =~= b@.skip((i + 1) as int));
            assert(b@.skip((i + 1) as int).len() == (n - i - 1) as nat);
            assert(pow256((n - i) as nat) == 256 * pow256((n - i - 1) as nat));
        }
        v = v * 256 + b[i] as u64;
    }
    proof {
        assert(b@.skip(0) =~= b@);
    }
    v
}

/// The number of bytes before the first zero byte of `b`, or its length when it has none.
pub open spec fn c_string_len(b: Seq<u8>) -> nat
    decreases b.len(),
{
    if b.len() == 0 {
        0
    } else if b[0] == 0 {
        0
    } else {
        1 + c_string_len(b.skip(1))
    }
}

proof fn lemma_c_string_len(b: Seq<u8>)
    ensures
        c_string_len(b) <= b.len(),
        forall|j: int| 0 <= j < c_string_len(b) ==> b[j] != 0,
        c_string_len(b) < b.len() ==> b[c_string_len(b) as int] == 0,
    decreases b.len(),
{
    if b.len() > 0 && b[0] != 0 {
        lemma_c_string_len(b.skip(1));
        assert forall|j: int| 0 <= j < c_string_len(b) implies b[j] != 0 by {
            if j > 0 {
                assert(b[j] == b.skip(1)[j - 1]);
            }
        }
    }
}

/// Finds the first zero byte of `b`; returns `b.len()` when there is none.
pub fn c_string_end(b: &[u8]) -> (n: usize)
    ensures
        n as nat == c_string_len(b@),
        n <= b@.len(),
        forall|j: int| 0 <= j < n ==> b@[j] != 0,
        n < b@.len() ==> b@[n as int] == 0,
{
    proof {
        lemma_c_string_len(b@);
    }
    let mut i: usize = 0;
    proof {
        assert(b@.skip(0) =~= b@);
    }
    while i < b.len()
        invariant
            i <= b@.len(),
            c_string_len(b@) == i + c_string_len(b@.skip(i as int)),
        decreases b@.len() - i,
    {
        if b[i] == 0 {
            proof {
                lemma_c_string_len(b@);
            }
            return i;
        }
        proof {
            assert(b@.skip(i as int).skip(1) =~= b@.skip((i + 1) as int));
        }
        i = i + 1;
    }
    proof {
        assert(b@.skip(i as int) =~= Seq::<u8>::empty());
    }
    i
}

/// The text that std's `String::from_utf8_lossy` makes of `bytes`: valid UTF-8
/// sequences decoded, each invalid sequence replaced by U+FFFD.
pub uninterp spec fn lossy_text(bytes: Seq<u8>) -> Seq<char>;

/// Calls std's `String::from_utf8_lossy` and takes the result as an owned `String`.
/// Trusted: the result is the named `lossy_text` of the bytes, and, as the
/// documentation says, valid UTF-8 comes back as the text it encodes.
#[verifier::external_body]
pub(crate) fn utf8_lossy(bytes: &[u8]) -> (s: String)
    ensures
        s@ == lossy_text(bytes@),
        vstd::utf8::valid_utf8(bytes@) ==> s@ == vstd::utf8::decode_utf8(bytes@),
{
    String::from_utf8_lossy(bytes).into_owned()
}

/// The text of a NUL-terminated buffer: the bytes before the first zero byte
/// (all of them when there is none), decoded as UTF-8 where they are valid
/// UTF-8, and decoded leniently otherwise.
pub open spec fn c_string_text(b: Seq<u8>) -> Seq<char> {
    let head = b.take(c_string_len(b) as int);
    if vstd::utf8::valid_utf8(head) {
        vstd::utf8::decode_utf8(head)
    } else {
        lossy_text(head)
    }
}

/// Bytes below 0x80 are valid UTF-8 and decode to the characters with the
/// same code points, one per byte.
pub proof fn lemma_ascii_utf8(b: Seq<u8>)
    requires
        forall|j: int| 0 <= j < b.len() ==> b[j] < 0x80,
    ensures
        vstd::utf8::valid_utf8(b),
        vstd::utf8::decode_utf8(b).len() == b.len(),
        forall|j: int| 0 <= j < b.len() ==> vstd::utf8::decode_utf8(b)[j] as u32 == b[j] as u32,
    decreases b.len(),
{
    if b.len() > 0 {
        let b0 = b[0];
        assert(b0 & 0x7f == b0) by (bit_vector)
            requires
                b0 < 0x80,
        ;
        let rest = vstd::utf8::pop_first_scalar(b);
        assert(rest =~= b.skip(1));
        lemma_ascii_utf8(rest);
        let d = vstd::utf8::decode_utf8(b);
        assert(d == seq![(b0 as u32) as char] + vstd::utf8::decode_utf8(rest));
        assert forall|j: int| 0 <= j < b.len() implies d[j] as u32 == b[j] as u32 by {
            if j > 0 {
                assert(d[j] == vstd::utf8::decode_utf8(rest)[j - 1]);
                assert(rest[j - 1] == b[j]);
            }
        }
    }
}

/// The map-name text of a buffer whose bytes before the first zero byte (at
/// position `n`, or `n` the whole length when there is none) are ASCII has
/// exactly those `n` characters, in order.
pub proof fn lemma_c_string_text_ascii(b: Seq<u8>, n: int)
    requires
        0 <= n <= b.len(),
        n == b.len() || b[n] == 0,
        forall|j: int| 0 <= j < n ==> b[j] != 0 && b[j] < 0x80,
    ensures
        c_string_text(b).len() == n,
        forall|j: int| 0 <= j < n ==> c_string_text(b)[j] as u32 == b[j] as u32,
{
    lemma_c_string_len(b);
    let m = c_string_len(b) as int;
    if m < n {
        assert(b[m] == 0);
    }
    if n < m {
        assert(b[n] != 0);
    }
    assert(m == n);
    let head = b.take(n);
    lemma_ascii_utf8(head);
    assert forall|j: int| 0 <= j < n implies c_string_text(b)[j] as u32 == b[j] as u32 by {
        assert(head[j] == b[j]);
    }
}

/// Decodes the NUL-terminated text at the start of `b`.
pub fn c_string_to_string(b: &[u8]) -> (s: String)
    ensures
        s@ == c_string_text(b@),
{
    let n = c_string_end(b);
    proof {
        lemma_c_string_len(b@);
    }
    let (head, _) = b.split_at(n);
    proof {
        assert(head@ =~= b@.take(n as int));
    }
    let s = utf8_lossy(head);
    s
}

} // verus!
