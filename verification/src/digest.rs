//! Content digests and the MD5 accumulator they come from.

use vstd::prelude::*;
use vstd::string::StringExecFns;

verus! {

/// The MD5 accumulator of the `md5` crate, carried through as an opaque value.
#[verifier::external_type_specification]
#[verifier::external_body]
pub struct ExContext(md5::Context);

/// The bytes that an accumulator has been given so far, in order.
pub uninterp spec fn absorbed(context: md5::Context) -> Seq<u8>;

/// The sixteen bytes of the MD5 digest of a byte string.
pub uninterp spec fn md5_of(bytes: Seq<u8>) -> Seq<u8>;

/// `md5::Context::new`: a fresh accumulator has been given no bytes.
#[verifier::external_body]
pub(crate) fn context_new() -> (context: md5::Context)
    ensures
        absorbed(context) == Seq::<u8>::empty(),
{
    md5::Context::new()
}

/// `md5::Context::consume`: the chunk is appended to what the accumulator has
/// been given.
#[verifier::external_body]
pub(crate) fn context_consume(context: &mut md5::Context, chunk: &[u8])
    ensures
        absorbed(*final(context)) == absorbed(*old(context)) + chunk@,
{
    context.consume(chunk)
}

/// `md5::Context::compute`: the digest of everything the accumulator was
/// given, as the sixteen bytes of the crate's `Digest`.
#[verifier::external_body]
pub(crate) fn context_compute(context: md5::Context) -> (bytes: [u8; 16])
    ensures
        bytes@ == md5_of(absorbed(context)),
{
    context.compute().0
}

/// The number that a run of bytes spells when read most significant byte
/// first, truncated to 128 bits.
pub open spec fn packed(bytes: Seq<u8>) -> u128
    decreases bytes.len(),
{
    if bytes.len() == 0 {
        0
    } else {
        (packed(bytes.drop_last()) << 8) | (bytes.last() as u128)
    }
}

/// The lowercase hexadecimal digit for a value below sixteen.
pub open spec fn hex_char(nibble: u128) -> char {
    if nibble == 0 {
        '0'
    } else if nibble == 1 {
        '1'
    } else if nibble == 2 {
        '2'
    } else if nibble == 3 {
        '3'
    } else if nibble == 4 {
        '4'
    } else if nibble == 5 {
        '5'
    } else if nibble == 6 {
        '6'
    } else if nibble == 7 {
        '7'
    } else if nibble == 8 {
        '8'
    } else if nibble == 9 {
        '9'
    } else if nibble == 10 {
        'a'
    } else if nibble == 11 {
        'b'
    } else if nibble == 12 {
        'c'
    } else if nibble == 13 {
        'd'
    } else if nibble == 14 {
        'e'
    } else {
        'f'
    }
}

/// The `index`-th nibble of a 128-bit value, counted from the most
/// significant one.
pub open spec fn nibble_at(value: u128, index: int) -> u128 {
    (value >> ((4 * (31 - index)) as u128)) & 0xf
}

/// The thirty-two lowercase hexadecimal digits of a 128-bit value, most
/// significant first.
pub open spec fn hex_text(value: u128) -> Seq<char> {
    Seq::new(32, |i: int| hex_char(nibble_at(value, i)))
}

/// The digest of a byte string: its MD5 sum as one 128-bit number.
pub open spec fn digest_of(bytes: Seq<u8>) -> u128 {
    packed(md5_of(bytes))
}

/// A fixed-width content fingerprint. Two contents with the same digest are
/// taken to be the same content.
#[derive(Clone, Copy, Debug, PartialEq, Eq, Structural, Hash)]
pub struct ContentDigest {
    pub value: u128,
}

fn hex_digit(nibble: u128) -> (text: &'static str)
    requires
        nibble < 16,
    ensures
        text@ == seq![hex_char(nibble)],
{
    proof {
        reveal_strlit("0");
        reveal_strlit("1");
        reveal_strlit("2");
        reveal_strlit("3");
        reveal_strlit("4");
        reveal_strlit("5");
        reveal_strlit("6");
        reveal_strlit("7");
        reveal_strlit("8");
        reveal_strlit("9");
        reveal_strlit("a");
        reveal_strlit("b");
        reveal_strlit("c");
        reveal_strlit("d");
        reveal_strlit("e");
        reveal_strlit("f");
    }
    let text = if nibble == 0 {
        "0"
    } else if nibble == 1 {
        "1"
    } else if nibble == 2 {
        "2"
    } else if nibble == 3 {
        "3"
    } else if nibble == 4 {
        "4"
    } else if nibble == 5 {
        "5"
    } else if nibble == 6 {
        "6"
    } else if nibble == 7 {
        "7"
    } else if nibble == 8 {
        "8"
    } else if nibble == 9 {
        "9"
    } else if nibble == 10 {
        "a"
    } else if nibble == 11 {
        "b"
    } else if nibble == 12 {
        "c"
    } else if nibble == 13 {
        "d"
    } else if nibble == 14 {
        "e"
    } else {
        "f"
    };
    assert(text@ =~= seq![hex_char(nibble)]);
    text
}

impl ContentDigest {
    /// The digest whose sixteen bytes, most significant first, are `bytes`.
    pub fn from_bytes(bytes: &[u8; 16]) -> (digest: ContentDigest)
        ensures
            digest.value == packed(bytes@),
    {
        let mut value: u128 = 0;
        let mut i: usize = 0;
        while i < 16
            invariant
                i <= 16,
                bytes@.len() == 16,
                value == packed(bytes@.take(i as int)),
            decreases 16 - i,
        {
            assert(bytes@.take(i + 1).drop_last() =~= bytes@.take(i as int));
            value = (value << 8) | (bytes[i] as u128);
            i += 1;
        }
        assert(bytes@.take(16) =~= bytes@);
        ContentDigest { value }
    }

    /// The digest as thirty-two lowercase hexadecimal digits.
    pub fn to_hex(&self) -> (text: String)
        ensures
            text@ == hex_text(self.value),
    {
        let mut text = String::new();
        let mut i: u32 = 0;
        while i < 32
            invariant
                i <= 32,
                text@ == hex_text(self.value).take(i as int),
            decreases 32 - i,
        {
            let value: u128 = self.value;
            let shift: u32 = 4 * (31 - i);
            let nibble: u128 = (value >> shift) & 0xf;
            assert(nibble < 16) by (bit_vector)
                requires
                    nibble == (value >> shift) & 0xf,
            ;
            assert(nibble == nibble_at(self.value, i as int));
            text.append(hex_digit(nibble));
            assert(text@ =~= hex_text(self.value).take(i + 1));
            i += 1;
        }
        assert(hex_text(self.value).take(32) =~= hex_text(self.value));
        text
    }
}

/// The bytes of a short run can be read back from the number they spell:
/// the byte at `at` stands eight bits higher for every byte behind it.
proof fn lemma_packed_byte(bytes: Seq<u8>, count: int, at: int)
    requires
        0 <= at < count <= bytes.len(),
        count <= 16,
    ensures
        (packed(bytes.take(count)) >> ((8 * (count - 1 - at)) as u128)) & 0xff == bytes[at],
        count <= 15 ==> packed(bytes.take(count)) >> ((8 * count) as u128) == 0,
    decreases count,
{
    let earlier = packed(bytes.take(count - 1));
    let last = bytes[count - 1] as u128;
    let whole = packed(bytes.take(count));
    assert(bytes.take(count).drop_last() =~= bytes.take(count - 1));
    assert(whole == (earlier << 8) | last);
    let room = (8 * (count - 1)) as u128;
    if count == 1 {
        assert(earlier == 0);
    } else {
        lemma_packed_byte(bytes, count - 1, 0);
    }
    assert(earlier >> room == 0) by (bit_vector)
        requires
            room == 0 ==> earlier == 0,
            room > 0 ==> earlier >> room == 0,
            room <= 120,
    ;
    if count <= 15 {
        let wide = (8 * count) as u128;
        assert(((earlier << 8) | last) >> wide == 0) by (bit_vector)
            requires
                earlier >> room == 0,
                wide == room + 8,
                room <= 112,
                last < 256,
        ;
    }
    let shift = (8 * (count - 1 - at)) as u128;
    if at == count - 1 {
        assert((((earlier << 8) | last) >> shift) & 0xff == last) by (bit_vector)
            requires
                shift == 0,
                last < 256,
        ;
    } else {
        lemma_packed_byte(bytes, count - 1, at);
        let before = (8 * (count - 2 - at)) as u128;
        assert((((earlier << 8) | last) >> shift) & 0xff == (earlier >> before) & 0xff)
            by (bit_vector)
            requires
                earlier >> room == 0,
                room <= 120,
                shift == before + 8,
                shift <= room,
                last < 256,
        ;
    }
}

/// The hexadecimal text of a digest spells its sixteen bytes in order, each
/// as two digits, the high half first.
pub proof fn lemma_hex_text_spells_bytes(bytes: Seq<u8>, at: int)
    requires
        bytes.len() == 16,
        0 <= at < 16,
    ensures
        hex_text(packed(bytes))[2 * at] == hex_char((bytes[at] / 16) as u128),
        hex_text(packed(bytes))[2 * at + 1] == hex_char((bytes[at] % 16) as u128),
{
    let value = packed(bytes);
    let byte = bytes[at] as u128;
    assert(bytes.take(16) =~= bytes);
    lemma_packed_byte(bytes, 16, at);
    let shift = (8 * (15 - at)) as u128;
    let high = (4 * (31 - 2 * at)) as u128;
    let low = (4 * (31 - (2 * at + 1))) as u128;
    assert((value >> high) & 0xf == byte / 16 && (value >> low) & 0xf == byte % 16)
        by (bit_vector)
        requires
            (value >> shift) & 0xff == byte,
            high == shift + 4,
            low == shift,
            shift <= 120,
            byte < 256,
    ;
}

} // verus!
