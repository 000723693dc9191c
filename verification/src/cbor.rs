//! The CBOR encoding (RFC 8949) of the few shapes this library writes:
//! a head of a major type with its argument in the shortest form, then
//! text strings, byte strings, integers, arrays and maps built on it.

use vstd::prelude::*;

verus! {

/// The last `n` bytes of `v` in big-endian order.
pub open spec fn be_bytes(v: nat, n: nat) -> Seq<u8>
    decreases n,
{
    if n == 0 {
        Seq::empty()
    } else {
        be_bytes(v / 256, (n - 1) as nat).push((v % 256) as u8)
    }
}

/// The head of a data item of major type `major` (0 to 7) with argument
/// `arg`, in the shortest form that holds the argument.
pub open spec fn cbor_head(major: u8, arg: nat) -> Seq<u8> {
    if arg < 24 {
        seq![(major * 32 + arg) as u8]
    } else if arg < 0x100 {
        seq![(major * 32 + 24) as u8] + be_bytes(arg, 1)
    } else if arg < 0x1_0000 {
        seq![(major * 32 + 25) as u8] + be_bytes(arg, 2)
    } else if arg < 0x1_0000_0000 {
        seq![(major * 32 + 26) as u8] + be_bytes(arg, 4)
    } else {
        seq![(major * 32 + 27) as u8] + be_bytes(arg, 8)
    }
}

/// A text string: its UTF-8 bytes behind a major type 3 head.
pub open spec fn cbor_text(s: Seq<char>) -> Seq<u8> {
    cbor_head(3, vstd::utf8::encode_utf8(s).len()) + vstd::utf8::encode_utf8(s)
}

/// A byte string: the bytes behind a major type 2 head.
pub open spec fn cbor_bytes(b: Seq<u8>) -> Seq<u8> {
    cbor_head(2, b.len()) + b
}

/// An integer: major type 0 for `v >= 0`, major type 1 with argument
/// `-1 - v` below zero.
pub open spec fn cbor_int(v: int) -> Seq<u8> {
    if v >= 0 {
        cbor_head(0, v as nat)
    } else {
        cbor_head(1, (-1 - v) as nat)
    }
}

/// The head of an array of `n` items.
pub open spec fn cbor_array_head(n: nat) -> Seq<u8> {
    cbor_head(4, n)
}

/// The head of a map of `n` pairs.
pub open spec fn cbor_map_head(n: nat) -> Seq<u8> {
    cbor_head(5, n)
}

} // verus!
