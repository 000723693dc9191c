//! Writing CBOR (RFC 8949) data items in their shortest form, and the
//! laws that tie writing to reading: every item written is read back as
//! one item of the same length, with the value written.

use vstd::prelude::*;

use crate::cbor::{be_bytes, cbor_array_head, cbor_bytes, cbor_head, cbor_int, cbor_text};
use crate::cbor_scan::{
    array_elements, bytes_of, cbor_head_of, int_of, item_len, items_len, split_items, text_bytes_of,
    uint_of, MAX_NESTING, lemma_split_len,
};
use crate::csr::{be_value, lemma_be_value_of_be_bytes, pow256};

verus! {

fn push_be(buf: &mut Vec<u8>, v: u64, n: usize)
    requires
        n <= 8,
    ensures
        final(buf)@ == old(buf)@ + be_bytes(v as nat, n as nat),
    decreases n,
{
    if n > 0 {
        push_be(buf, v / 256, n - 1);
        buf.push((v % 256) as u8);
        proof {
            assert((v / 256) as nat == (v as nat) / 256);
        }
    } else {
        assert(old(buf)@ + be_bytes(v as nat, 0) =~= old(buf)@);
    }
}

/// Append the head of major type `major` with argument `arg`, in the
/// shortest form.
pub fn write_head(buf: &mut Vec<u8>, major: u8, arg: u64)
    requires
        major < 8,
    ensures
        final(buf)@ == old(buf)@ + cbor_head(major, arg as nat),
{
    let ghost b0 = buf@;
    if arg < 24 {
        buf.push(major * 32 + arg as u8);
        assert(buf@ =~= b0 + cbor_head(major, arg as nat));
    } else if arg < 0x100 {
        buf.push(major * 32 + 24);
        push_be(buf, arg, 1);
        assert(buf@ =~= b0 + cbor_head(major, arg as nat));
    } else if arg < 0x1_0000 {
        buf.push(major * 32 + 25);
        push_be(buf, arg, 2);
        assert(buf@ =~= b0 + cbor_head(major, arg as nat));
    } else if arg < 0x1_0000_0000 {
        buf.push(major * 32 + 26);
        push_be(buf, arg, 4);
        assert(buf@ =~= b0 + cbor_head(major, arg as nat));
    } else {
        buf.push(major * 32 + 27);
        push_be(buf, arg, 8);
        assert(buf@ =~= b0 + cbor_head(major, arg as nat));
    }
}

/// Append an integer.
pub fn write_int(buf: &mut Vec<u8>, v: i64)
    ensures
        final(buf)@ == old(buf)@ + cbor_int(v as int),
{
    if v >= 0 {
        write_head(buf, 0, v as u64);
    } else {
        let a: u64 = (-1 - (v as i128)) as u64;
        write_head(buf, 1, a);
    }
}

/// Append a byte string.
pub fn write_bytes(buf: &mut Vec<u8>, b: &[u8])
    ensures
        final(buf)@ == old(buf)@ + cbor_bytes(b@),
{
    let ghost b0 = buf@;
    write_head(buf, 2, b.len() as u64);
    crate::csr::append_bytes(buf, b);
    assert(buf@ =~= b0 + cbor_bytes(b@));
}

/// Append a text string.
pub fn write_text(buf: &mut Vec<u8>, s: &str)
    ensures
        final(buf)@ == old(buf)@ + cbor_text(s@),
{
    let ghost b0 = buf@;
    let bytes = s.as_bytes();
    write_head(buf, 3, bytes.len() as u64);
    crate::csr::append_bytes(buf, bytes);
    assert(buf@ =~= b0 + cbor_text(s@));
}

/// The encoding of null.
pub open spec fn cbor_null() -> Seq<u8> {
    seq![0xf6u8]
}

/// Append null.
pub fn write_null(buf: &mut Vec<u8>)
    ensures
        final(buf)@ == old(buf)@ + cbor_null(),
{
    buf.push(0xf6u8);
    assert(buf@ =~= old(buf)@ + cbor_null());
}

/// The items one after another.
pub open spec fn concat_all(parts: Seq<Seq<u8>>) -> Seq<u8>
    decreases parts.len(),
{
    if parts.len() == 0 {
        Seq::empty()
    } else {
        parts[0] + concat_all(parts.drop_first())
    }
}

/// An array of the items `parts`.
pub open spec fn cbor_array(parts: Seq<Seq<u8>>) -> Seq<u8> {
    cbor_array_head(parts.len()) + concat_all(parts)
}

/// `e` is exactly one well-formed item, nested at most `d` deep.
pub open spec fn is_item_at(e: Seq<u8>, d: nat) -> bool {
    item_len(e, d) == Some(e.len())
}

// ------------------------------------------------------------------
// Laws of writing and reading
// ------------------------------------------------------------------

/// A head written in the shortest form is read back, whatever follows.
pub proof fn lemma_head_roundtrip(major: u8, arg: nat, rest: Seq<u8>)
    requires
        major < 8,
        arg < pow256(8),
    ensures
        cbor_head_of(cbor_head(major, arg) + rest) == Some((major, arg, cbor_head(major, arg).len())),
        1 <= cbor_head(major, arg).len() <= 9,
{
    reveal_with_fuel(pow256, 9);
    let h = cbor_head(major, arg);
    let d = h + rest;
    if arg < 24 {
        assert(d[0] == (major * 32 + arg) as u8);
        assert((major * 32 + arg) / 32 == major as int) by (nonlinear_arith)
            requires
                arg < 24,
                major < 8,
        ;
        assert((major * 32 + arg) % 32 == arg as int) by (nonlinear_arith)
            requires
                arg < 24,
                major < 8,
        ;
    } else {
        let (info, n): (nat, nat) = if arg < 0x100 {
            (24, 1)
        } else if arg < 0x1_0000 {
            (25, 2)
        } else if arg < 0x1_0000_0000 {
            (26, 4)
        } else {
            (27, 8)
        };
        assert(arg < pow256(n));
        lemma_be_value_of_be_bytes(arg, n);
        assert(d[0] == (major * 32 + info) as u8);
        assert((major * 32 + info) / 32 == major as int) by (nonlinear_arith)
            requires
                24 <= info <= 27,
                major < 8,
        ;
        assert((major * 32 + info) % 32 == info as int) by (nonlinear_arith)
            requires
                24 <= info <= 27,
                major < 8,
        ;
        assert(d.subrange(1, 1 + n as int) =~= be_bytes(arg, n));
    }
}

/// What an item's length is does not depend on what follows it.
pub proof fn lemma_item_len_append(s: Seq<u8>, t: Seq<u8>, count: nat, d: nat)
    ensures
        item_len(s, d) matches Some(n) ==> item_len(s + t, d) == Some(n),
        items_len(s, count, d) matches Some(m) ==> items_len(s + t, count, d) == Some(m),
    decreases d, count + 1,
{
    crate::cbor_scan::lemma_lengths(s, count, d);
    let st = s + t;
    if let Some((major, arg, hl)) = cbor_head_of(s) {
        assert(cbor_head_of(st) == cbor_head_of(s)) by {
            if s[0] % 32 >= 24 {
                assert(st.subrange(1, hl as int) =~= s.subrange(1, hl as int));
            }
        }
        if major > 3 && major != 7 && d > 0 {
            let rest = s.subrange(hl as int, s.len() as int);
            assert(st.subrange(hl as int, st.len() as int) =~= rest + t);
            if major == 4 {
                lemma_item_len_append(rest, t, arg, (d - 1) as nat);
            } else if major == 5 {
                lemma_item_len_append(rest, t, 2 * arg, (d - 1) as nat);
            } else {
                lemma_item_len_append(rest, t, 0, (d - 1) as nat);
            }
        }
    }
    if count > 0 {
        lemma_item_len_append(s, t, 0, d);
        if let Some(n) = item_len(s, d) {
            if n <= s.len() {
                let r = s.subrange(n as int, s.len() as int);
                assert(st.subrange(n as int, st.len() as int) =~= r + t);
                lemma_item_len_append(r, t, (count - 1) as nat, d);
            }
        }
    }
}

/// Integers, byte strings, text strings and null are items at every
/// nesting depth.
pub proof fn lemma_scalars_are_items(v: int, b: Seq<u8>, s: Seq<char>, d: nat)
    requires
        -pow256(8) <= v < pow256(8),
        b.len() < pow256(8),
        vstd::utf8::encode_utf8(s).len() < pow256(8),
    ensures
        is_item_at(cbor_int(v), d),
        is_item_at(cbor_bytes(b), d),
        is_item_at(cbor_text(s), d),
        is_item_at(cbor_null(), d),
        int_of(cbor_int(v)) == Some(v),
        v >= 0 ==> uint_of(cbor_int(v)) == Some(v as nat),
        bytes_of(cbor_bytes(b)) == Some(b),
        text_bytes_of(cbor_text(s)) == Some(vstd::utf8::encode_utf8(s)),
{
    if v >= 0 {
        lemma_head_roundtrip(0, v as nat, Seq::empty());
        assert(cbor_int(v) + Seq::<u8>::empty() =~= cbor_int(v));
    } else {
        lemma_head_roundtrip(1, (-1 - v) as nat, Seq::empty());
        assert(cbor_int(v) + Seq::<u8>::empty() =~= cbor_int(v));
    }
    lemma_head_roundtrip(2, b.len(), b);
    assert(cbor_bytes(b).subrange(cbor_head(2, b.len()).len() as int, cbor_bytes(b).len() as int) =~= b);
    let u = vstd::utf8::encode_utf8(s);
    lemma_head_roundtrip(3, u.len(), u);
    assert(cbor_text(s).subrange(cbor_head(3, u.len()).len() as int, cbor_text(s).len() as int) =~= u);
    assert(cbor_null()[0] / 32 == 7);
    assert(cbor_null()[0] % 32 == 22);
}


/// Items written one after another are read back as those items.
pub proof fn lemma_split_concat(parts: Seq<Seq<u8>>, rest: Seq<u8>, d: nat)
    requires
        forall|i: int| 0 <= i < parts.len() ==> is_item_at(#[trigger] parts[i], d),
    ensures
        split_items(concat_all(parts) + rest, parts.len(), d) == Some((parts, concat_all(parts).len())),
        items_len(concat_all(parts) + rest, parts.len(), d) == Some(concat_all(parts).len()),
    decreases parts.len(),
{
    let s = concat_all(parts) + rest;
    if parts.len() > 0 {
        let p0 = parts[0];
        let tail = parts.drop_first();
        assert forall|i: int| 0 <= i < tail.len() implies is_item_at(#[trigger] tail[i], d) by {
            assert(tail[i] == parts[i + 1]);
        }
        lemma_split_concat(tail, rest, d);
        assert(s =~= p0 + (concat_all(tail) + rest));
        assert(is_item_at(parts[0], d));
        lemma_item_len_append(p0, concat_all(tail) + rest, 0, d);
        assert(s.subrange(p0.len() as int, s.len() as int) =~= concat_all(tail) + rest);
        assert(s.subrange(0, p0.len() as int) =~= p0);
        assert(seq![p0] + tail =~= parts);
    }
    lemma_split_len(s, parts.len(), d);
}

/// An array of items nested at most `d - 1` deep is an item nested at most
/// `d` deep.
pub proof fn lemma_array_is_item(parts: Seq<Seq<u8>>, d: nat)
    requires
        d > 0,
        parts.len() < pow256(8),
        forall|i: int| 0 <= i < parts.len() ==> is_item_at(#[trigger] parts[i], (d - 1) as nat),
    ensures
        is_item_at(cbor_array(parts), d),
{
    let h = cbor_array_head(parts.len());
    lemma_head_roundtrip(4, parts.len(), concat_all(parts));
    let a = cbor_array(parts);
    assert(a.subrange(h.len() as int, a.len() as int) =~= concat_all(parts) + Seq::<u8>::empty());
    lemma_split_concat(parts, Seq::empty(), (d - 1) as nat);
}

/// The items of an array written from items are those items.
pub proof fn lemma_array_elements_of(parts: Seq<Seq<u8>>)
    requires
        parts.len() < pow256(8),
        forall|i: int| 0 <= i < parts.len() ==> is_item_at(#[trigger] parts[i], (MAX_NESTING - 1) as nat),
    ensures
        array_elements(cbor_array(parts)) == Some(parts),
{
    let h = cbor_array_head(parts.len());
    lemma_head_roundtrip(4, parts.len(), concat_all(parts));
    let a = cbor_array(parts);
    assert(a.subrange(h.len() as int, a.len() as int) =~= concat_all(parts) + Seq::<u8>::empty());
    lemma_split_concat(parts, Seq::empty(), (MAX_NESTING - 1) as nat);
}


/// An item that fits a nesting depth fits every larger one.
pub proof fn lemma_depth_mono(s: Seq<u8>, count: nat, d: nat)
    ensures
        item_len(s, d) matches Some(n) ==> item_len(s, d + 1) == Some(n),
        items_len(s, count, d) matches Some(m) ==> items_len(s, count, d + 1) == Some(m),
    decreases d, count + 1,
{
    crate::cbor_scan::lemma_lengths(s, count, d);
    if let Some((major, arg, hl)) = cbor_head_of(s) {
        if major > 3 && major != 7 && d > 0 {
            let rest = s.subrange(hl as int, s.len() as int);
            if major == 4 {
                lemma_depth_mono(rest, arg, (d - 1) as nat);
            } else if major == 5 {
                lemma_depth_mono(rest, 2 * arg, (d - 1) as nat);
            } else {
                lemma_depth_mono(rest, 0, (d - 1) as nat);
            }
        }
    }
    if count > 0 {
        lemma_depth_mono(s, 0, d);
        if let Some(n) = item_len(s, d) {
            if n <= s.len() {
                lemma_depth_mono(s.subrange(n as int, s.len() as int), (count - 1) as nat, d);
            }
        }
    }
}

/// Items nested at most `d` deep are nested at most `e` deep for every
/// `e >= d`.
pub proof fn lemma_item_deeper(x: Seq<u8>, d: nat, e: nat)
    requires
        is_item_at(x, d),
        d <= e,
    ensures
        is_item_at(x, e),
    decreases e - d,
{
    if d < e {
        lemma_depth_mono(x, 0, d);
        lemma_item_deeper(x, d + 1, e);
    }
}

/// A byte string is an item at every depth.
pub proof fn lemma_bytes_item(e: Seq<u8>, d: nat)
    requires
        bytes_of(e) is Some,
    ensures
        is_item_at(e, d),
{
}

/// When a sequence splits into items that each fit depth `d`, it splits
/// the same way at depth `d`.
pub proof fn lemma_split_at_depth(s: Seq<u8>, n: nat, big: nat, d: nat)
    requires
        split_items(s, n, big) matches Some((parts, m)) && forall|i: int|
            0 <= i < parts.len() ==> is_item_at(#[trigger] parts[i], d),
    ensures
        split_items(s, n, d) == split_items(s, n, big),
        items_len(s, n, d) matches Some(m) && split_items(s, n, big) matches Some((parts, m2)) && m == m2,
    decreases n,
{
    crate::cbor_scan::lemma_split_len(s, n, big);
    if n > 0 {
        let k = item_len(s, big).unwrap();
        let (parts, m) = split_items(s, n, big).unwrap();
        let r = s.subrange(k as int, s.len() as int);
        let (rp, rm) = split_items(r, (n - 1) as nat, big).unwrap();
        assert(parts[0] == s.subrange(0, k as int));
        assert(is_item_at(parts[0], d));
        assert(s =~= s.subrange(0, k as int) + r);
        lemma_item_len_append(s.subrange(0, k as int), r, 0, d);
        assert forall|i: int| 0 <= i < rp.len() implies is_item_at(#[trigger] rp[i], d) by {
            assert(rp[i] == parts[i + 1]);
        }
        lemma_split_at_depth(r, (n - 1) as nat, big, d);
    }
    crate::cbor_scan::lemma_split_len(s, n, d);
}

/// An array whose items (read at the top nesting depth) each fit depth
/// `d - 1` is an item at depth `d`.
pub proof fn lemma_elements_make_item(c: Seq<u8>, d: nat)
    requires
        d > 0,
        array_elements(c) matches Some(parts) && forall|i: int|
            0 <= i < parts.len() ==> is_item_at(#[trigger] parts[i], (d - 1) as nat),
    ensures
        is_item_at(c, d),
{
    let (major, arg, hl) = cbor_head_of(c).unwrap();
    let body = c.subrange(hl as int, c.len() as int);
    assert(major == 4);
    let parts = array_elements(c).unwrap();
    let sp = split_items(body, arg, (MAX_NESTING - 1) as nat);
    assert(sp matches Some((p2, m)) && p2 == parts && hl + m == c.len());
    lemma_split_at_depth(body, arg, (MAX_NESTING - 1) as nat, (d - 1) as nat);
}

/// The items one after another, after more items.
pub proof fn lemma_concat_push(parts: Seq<Seq<u8>>, x: Seq<u8>)
    ensures
        concat_all(parts.push(x)) == concat_all(parts) + x,
    decreases parts.len(),
{
    if parts.len() == 0 {
        reveal_with_fuel(concat_all, 2);
        assert(parts.push(x).drop_first() =~= Seq::<Seq<u8>>::empty());
        assert(concat_all(parts.push(x)) =~= x + Seq::<u8>::empty());
        assert(concat_all(parts) + x =~= x);
    } else {
        lemma_concat_push(parts.drop_first(), x);
        assert(parts.push(x).drop_first() =~= parts.drop_first().push(x));
        assert(concat_all(parts.push(x)) =~= parts[0] + (concat_all(parts.drop_first()) + x));
    }
}

} // verus!
