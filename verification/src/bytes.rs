use vstd::prelude::*;

verus! {

/// Byte `i` (0 is the most significant) of the big-endian encoding of `w`.
pub open spec fn be_byte(w: u64, i: int) -> u8 {
    ((w >> ((8 * (7 - i)) as u64)) & 0xff) as u8
}

/// The big-endian encoding of a word.
pub open spec fn word_be_bytes(w: u64) -> Seq<u8> {
    seq![be_byte(w, 0), be_byte(w, 1), be_byte(w, 2), be_byte(w, 3),
         be_byte(w, 4), be_byte(w, 5), be_byte(w, 6), be_byte(w, 7)]
}

/// The word whose big-endian encoding is `b`, which has 8 bytes.
pub open spec fn word_from_be(b: Seq<u8>) -> u64 {
    ((b[0] as u64) << 56u64) | ((b[1] as u64) << 48u64) | ((b[2] as u64) << 40u64)
    | ((b[3] as u64) << 32u64) | ((b[4] as u64) << 24u64) | ((b[5] as u64) << 16u64)
    | ((b[6] as u64) << 8u64) | (b[7] as u64)
}

/// Decoding the encoding of a word gives the word back.
pub proof fn law_word_be_roundtrip(w: u64)
    ensures
        word_from_be(word_be_bytes(w)) == w,
        word_be_bytes(w).len() == 8,
{
    let b = word_be_bytes(w);
    assert(b[0] == ((w >> 56u64) & 0xff) as u8);
    assert(b[7] == ((w >> 0u64) & 0xff) as u8);
    let b0 = ((w >> 56u64) & 0xff) as u8;
    let b1 = ((w >> 48u64) & 0xff) as u8;
    let b2 = ((w >> 40u64) & 0xff) as u8;
    let b3 = ((w >> 32u64) & 0xff) as u8;
    let b4 = ((w >> 24u64) & 0xff) as u8;
    let b5 = ((w >> 16u64) & 0xff) as u8;
    let b6 = ((w >> 8u64) & 0xff) as u8;
    let b7 = ((w >> 0u64) & 0xff) as u8;
    assert(((b0 as u64) << 56u64) | ((b1 as u64) << 48u64) | ((b2 as u64) << 40u64)
        | ((b3 as u64) << 32u64) | ((b4 as u64) << 24u64) | ((b5 as u64) << 16u64)
        | ((b6 as u64) << 8u64) | (b7 as u64) == w) by (bit_vector)
        requires
            b0 == ((w >> 56u64) & 0xff) as u8,
            b1 == ((w >> 48u64) & 0xff) as u8,
            b2 == ((w >> 40u64) & 0xff) as u8,
            b3 == ((w >> 32u64) & 0xff) as u8,
            b4 == ((w >> 24u64) & 0xff) as u8,
            b5 == ((w >> 16u64) & 0xff) as u8,
            b6 == ((w >> 8u64) & 0xff) as u8,
            b7 == ((w >> 0u64) & 0xff) as u8,
    ;
}

/// The big-endian encoding of a word.
pub fn word_to_be_bytes(w: u64) -> (r: [u8; 8])
    ensures
        r@ == word_be_bytes(w),
{
    let r = [
        ((w >> 56u64) & 0xff) as u8,
        ((w >> 48u64) & 0xff) as u8,
        ((w >> 40u64) & 0xff) as u8,
        ((w >> 32u64) & 0xff) as u8,
        ((w >> 24u64) & 0xff) as u8,
        ((w >> 16u64) & 0xff) as u8,
        ((w >> 8u64) & 0xff) as u8,
        ((w >> 0u64) & 0xff) as u8,
    ];
    assert(r@ =~= word_be_bytes(w));
    r
}

/// The word whose big-endian encoding is `b`.
pub fn word_from_be_bytes(b: [u8; 8]) -> (r: u64)
    ensures
        r == word_from_be(b@),
{
    ((b[0] as u64) << 56u64) | ((b[1] as u64) << 48u64) | ((b[2] as u64) << 40u64)
    | ((b[3] as u64) << 32u64) | ((b[4] as u64) << 24u64) | ((b[5] as u64) << 16u64)
    | ((b[6] as u64) << 8u64) | (b[7] as u64)
}

} // verus!
