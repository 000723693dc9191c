//! Reading CBOR (RFC 8949) data items from raw bytes: where an item ends,
//! the raw items of an array, and the plain values (integers, byte and
//! text strings, null) single items hold. Only definite-length items are
//! read, nested at most `MAX_NESTING` deep.

use vstd::prelude::*;

use crate::csr::{be_value, lemma_be_value_bound, pow256};
use crate::Error;

verus! {

/// How deep arrays, maps and tags may nest inside an item.
pub const MAX_NESTING: u32 = 32;

/// The head of the item at the start of `d`: major type, argument and
/// the head's length. Indefinite lengths and the reserved additional
/// information values have no head here.
pub open spec fn cbor_head_of(d: Seq<u8>) -> Option<(u8, nat, nat)> {
    if d.len() == 0 {
        None
    } else {
        let major = d[0] / 32;
        let info = d[0] % 32;
        if info < 24 {
            Some((major, info as nat, 1nat))
        } else if info <= 27 {
            let n: nat = if info == 24 {
                1
            } else if info == 25 {
                2
            } else if info == 26 {
                4
            } else {
                8
            };
            if 1 + n <= d.len() {
                Some((major, be_value(d.subrange(1, 1 + n as int)), 1 + n))
            } else {
                None
            }
        } else {
            None
        }
    }
}

/// The length of the well-formed item at the start of `s`, with arrays,
/// maps and tags nested at most `depth` deep.
pub open spec fn item_len(s: Seq<u8>, depth: nat) -> Option<nat>
    decreases depth, 0nat,
{
    match cbor_head_of(s) {
        None => None,
        Some((major, arg, hl)) => if major <= 1 || major == 7 {
            Some(hl)
        } else if major <= 3 {
            if hl + arg <= s.len() {
                Some(hl + arg)
            } else {
                None
            }
        } else if depth == 0 {
            None
        } else {
            let rest = s.subrange(hl as int, s.len() as int);
            let inner = if major == 4 {
                items_len(rest, arg, (depth - 1) as nat)
            } else if major == 5 {
                items_len(rest, 2 * arg, (depth - 1) as nat)
            } else {
                item_len(rest, (depth - 1) as nat)
            };
            match inner {
                Some(n) => Some(hl + n),
                None => None,
            }
        },
    }
}

/// The length of `count` well-formed items, one after another, at the
/// start of `s`.
pub open spec fn items_len(s: Seq<u8>, count: nat, depth: nat) -> Option<nat>
    decreases depth, count + 1,
{
    if count == 0 {
        Some(0)
    } else {
        match item_len(s, depth) {
            None => None,
            Some(n) => if n <= s.len() {
                match items_len(s.subrange(n as int, s.len() as int), (count - 1) as nat, depth) {
                    Some(m) => Some(n + m),
                    None => None,
                }
            } else {
                None
            },
        }
    }
}

/// The raw items of `count` well-formed items at the start of `s`, and
/// their total length.
pub open spec fn split_items(s: Seq<u8>, count: nat, depth: nat) -> Option<(Seq<Seq<u8>>, nat)>
    decreases count,
{
    if count == 0 {
        Some((Seq::empty(), 0))
    } else {
        match item_len(s, depth) {
            None => None,
            Some(n) => if n <= s.len() {
                match split_items(s.subrange(n as int, s.len() as int), (count - 1) as nat, depth) {
                    Some((rest, m)) => Some((seq![s.subrange(0, n as int)] + rest, n + m)),
                    None => None,
                }
            } else {
                None
            },
        }
    }
}

/// The raw items of the array `d` is exactly the encoding of.
pub open spec fn array_elements(d: Seq<u8>) -> Option<Seq<Seq<u8>>> {
    match cbor_head_of(d) {
        Some((major, arg, hl)) => if major == 4 && MAX_NESTING > 0 {
            match split_items(d.subrange(hl as int, d.len() as int), arg, (MAX_NESTING - 1) as nat) {
                Some((parts, m)) => if hl + m == d.len() {
                    Some(parts)
                } else {
                    None
                },
                None => None,
            }
        } else {
            None
        },
        None => None,
    }
}

/// `d` is exactly one well-formed item.
pub open spec fn is_single_item(d: Seq<u8>) -> bool {
    item_len(d, MAX_NESTING as nat) == Some(d.len())
}

pub(crate) proof fn lemma_head_len(s: Seq<u8>)
    ensures
        cbor_head_of(s) matches Some((major, arg, hl)) ==> 1 <= hl <= s.len() && hl <= 9 && major
            < 8 && arg < pow256(8),
{
    if let Some((major, arg, hl)) = cbor_head_of(s) {
        reveal_with_fuel(pow256, 9);
        let info = s[0] % 32;
        if info >= 24 {
            lemma_be_value_bound(s.subrange(1, hl as int));
            if info == 24 {
                assert(pow256(1) <= pow256(8));
            } else if info == 25 {
                assert(pow256(2) <= pow256(8));
            } else if info == 26 {
                assert(pow256(4) <= pow256(8));
            }
        }
    }
}

pub(crate) proof fn lemma_lengths(s: Seq<u8>, count: nat, depth: nat)
    ensures
        item_len(s, depth) matches Some(n) ==> 1 <= n <= s.len(),
        items_len(s, count, depth) matches Some(m) ==> m <= s.len(),
    decreases depth, count + 1,
{
    lemma_head_len(s);
    if count > 0 {
        lemma_lengths(s, 0, depth);
        if let Some(n) = item_len(s, depth) {
            if n <= s.len() {
                lemma_lengths(s.subrange(n as int, s.len() as int), (count - 1) as nat, depth);
            }
        }
    }
    if let Some((major, arg, hl)) = cbor_head_of(s) {
        if major > 3 && major != 7 && depth > 0 {
            let rest = s.subrange(hl as int, s.len() as int);
            if major == 4 {
                lemma_lengths(rest, arg, (depth - 1) as nat);
            } else if major == 5 {
                lemma_lengths(rest, 2 * arg, (depth - 1) as nat);
            } else {
                lemma_lengths(rest, 0, (depth - 1) as nat);
            }
        }
    }
}

pub(crate) proof fn lemma_split_len(s: Seq<u8>, count: nat, depth: nat)
    ensures
        split_items(s, count, depth) is Some <==> items_len(s, count, depth) is Some,
        split_items(s, count, depth) matches Some((parts, m)) ==> items_len(s, count, depth) == Some(m)
            && parts.len() == count && m <= s.len(),
    decreases count,
{
    lemma_lengths(s, count, depth);
    if count > 0 {
        if let Some(n) = item_len(s, depth) {
            if n <= s.len() {
                lemma_split_len(s.subrange(n as int, s.len() as int), (count - 1) as nat, depth);
            }
        }
    }
}

/// The head of the item at `pos` in `d`.
pub fn read_head(d: &[u8], pos: usize) -> (r: Option<(u8, u64, usize)>)
    requires
        pos <= d@.len(),
    ensures
        r is None <==> cbor_head_of(d@.subrange(pos as int, d@.len() as int)) is None,
        r matches Some((major, arg, hl)) ==> cbor_head_of(d@.subrange(pos as int, d@.len() as int))
            == Some((major, arg as nat, hl as nat)),
{
    let ghost s = d@.subrange(pos as int, d@.len() as int);
    proof {
        lemma_head_len(s);
    }
    if pos >= d.len() {
        return None;
    }
    let ib = d[pos];
    let major = ib / 32;
    let info = ib % 32;
    if info < 24 {
        return Some((major, info as u64, 1));
    }
    if info > 27 {
        return None;
    }
    let n: usize = if info == 24 {
        1
    } else if info == 25 {
        2
    } else if info == 26 {
        4
    } else {
        8
    };
    if n >= d.len() - pos {
        return None;
    }
    let mut v: u64 = 0;
    let mut i: usize = 0;
    while i < n
        invariant
            pos < d@.len(),
            n == 1 || n == 2 || n == 4 || n == 8,
            pos + 1 + n <= d@.len(),
            d@.len() <= usize::MAX,
            i <= n,
            v == be_value(d@.subrange(pos + 1, pos + 1 + i)),
            v < pow256(i as nat),
        decreases n - i,
    {
        proof {
            reveal_with_fuel(pow256, 9);
            let t = d@.subrange(pos + 1, pos + 1 + i + 1);
            assert(t.drop_last() =~= d@.subrange(pos + 1, pos + 1 + i));
            let p = pow256(i as nat);
            assert(p <= 0x100_0000_0000_0000);
            assert(v * 256 + d@[pos + 1 + i] < p * 256) by (nonlinear_arith)
                requires
                    v < p,
                    d@[pos + 1 + i] < 256,
            ;
        }
        let idx: usize = pos + 1 + i;
        let b: u8 = d[idx];
        v = v * 256 + b as u64;
        i = i + 1;
    }
    proof {
        assert(s.subrange(1, 1 + n as int) =~= d@.subrange(pos + 1, pos + 1 + n));
    }
    Some((major, v, 1 + n))
}

/// The length of the well-formed item at `pos` in `d`, nested at most
/// `depth` deep.
pub fn item_len_at(d: &[u8], pos: usize, depth: u32) -> (r: Option<usize>)
    requires
        pos <= d@.len(),
    ensures
        r matches Some(n) ==> item_len(d@.subrange(pos as int, d@.len() as int), depth as nat) == Some(
            n as nat,
        ),
        r is None ==> item_len(d@.subrange(pos as int, d@.len() as int), depth as nat) is None,
    decreases depth, 0nat,
{
    let ghost s = d@.subrange(pos as int, d@.len() as int);
    let dlen: usize = d.len();
    proof {
        lemma_lengths(s, 0, depth as nat);
    }
    let (major, arg, hl) = match read_head(d, pos) {
        Some(h) => h,
        None => {
            return None;
        },
    };
    proof {
        lemma_head_len(s);
        assert(hl as nat <= s.len());
    }
    let next: usize = pos + hl;
    if major <= 1 || major == 7 {
        return Some(hl);
    }
    if major <= 3 {
        let avail: usize = d.len() - pos - hl;
        if arg > avail as u64 {
            return None;
        }
        return Some(hl + arg as usize);
    }
    if depth == 0 {
        return None;
    }
    proof {
        assert(d@.subrange((pos + hl) as int, d@.len() as int) =~= s.subrange(hl as int, s.len() as int));
    }
    proof {
        assert(item_count(arg, false) == arg as nat);
        assert(item_count(arg, true) == 2 * arg as nat);
    }
    let inner = if major == 4 {
        items_len_at(d, next, arg, false, depth - 1)
    } else if major == 5 {
        items_len_at(d, next, arg, true, depth - 1)
    } else {
        item_len_at(d, next, depth - 1)
    };
    match inner {
        Some(n) => {
            proof {
                lemma_lengths(s.subrange(hl as int, s.len() as int), 0, (depth - 1) as nat);
                lemma_lengths(
                    s.subrange(hl as int, s.len() as int),
                    if major == 5 { 2 * arg as nat } else { arg as nat },
                    (depth - 1) as nat,
                );
            }
            Some(hl + n)
        },
        None => None,
    }
}

/// The number of items in `count` entries: twice as many for map pairs.
pub open spec fn item_count(count: u64, pairs: bool) -> nat {
    if pairs {
        2 * count as nat
    } else {
        count as nat
    }
}

/// The total length of `count` items (`2 * count` when `pairs`) at `pos`
/// in `d`.
fn items_len_at(d: &[u8], pos: usize, count: u64, pairs: bool, depth: u32) -> (r: Option<usize>)
    requires
        pos <= d@.len(),
    ensures
        r matches Some(m) ==> items_len(d@.subrange(pos as int, d@.len() as int), item_count(count, pairs), depth as nat)
            == Some(m as nat),
        r is None ==> items_len(d@.subrange(pos as int, d@.len() as int), item_count(count, pairs), depth as nat) is None,
    decreases depth, 1nat,
{
    let ghost c: nat = item_count(count, pairs);
    let ghost s = d@.subrange(pos as int, d@.len() as int);
    let dlen: usize = d.len();
    let mut p: usize = pos;
    let mut left: u64 = count;
    let mut second: bool = false;
    while left > 0 || second
        invariant
            pos <= p <= d@.len(),
            d@.len() == dlen,
            c == item_count(count, pairs),
            s == d@.subrange(pos as int, d@.len() as int),
            !pairs ==> !second,
            items_len(s, c, depth as nat) == (match items_len(
                d@.subrange(p as int, d@.len() as int),
                (if pairs { 2 * left as nat } else { left as nat }) + (if second { 1nat } else { 0nat }),
                depth as nat,
            ) {
                Some(m) => Some(((p - pos) + m) as nat),
                None => None,
            }),
        decreases d@.len() - p,
    {
        let ghost t = d@.subrange(p as int, d@.len() as int);
        let ghost k: nat = (if pairs { 2 * left as nat } else { left as nat }) + (if second { 1nat } else { 0nat });
        proof {
            lemma_lengths(t, k, depth as nat);
        }
        assert(k > 0);
        let n = match item_len_at(d, p, depth) {
            Some(n) => n,
            None => {
                assert(items_len(t, k, depth as nat) is None);
                return None;
            },
        };
        assert(n <= t.len());
        proof {
            assert(d@.subrange((p + n) as int, d@.len() as int) =~= t.subrange(n as int, t.len() as int));
        }
        p = p + n;
        if second {
            second = false;
        } else {
            left = left - 1;
            if pairs {
                second = true;
            }
        }
    }
    proof {
        assert(d@.subrange(p as int, d@.len() as int).len() >= 0);
    }
    Some(p - pos)
}


/// Byte vectors as byte sequences.
pub open spec fn parts_view(v: Seq<Vec<u8>>) -> Seq<Seq<u8>> {
    v.map_values(|x: Vec<u8>| x@)
}

/// The raw items of the array `d` is the encoding of, or `None` when `d`
/// is not exactly one well-formed array.
pub fn split_array(d: &[u8]) -> (r: Option<Vec<Vec<u8>>>)
    ensures
        r is None <==> array_elements(d@) is None,
        r matches Some(parts) ==> array_elements(d@) == Some(parts_view(parts@)),
{
    let dlen: usize = d.len();
    let (major, arg, hl) = match read_head(d, 0) {
        Some(h) => h,
        None => {
            proof {
                assert(d@.subrange(0, d@.len() as int) =~= d@);
            }
            return None;
        },
    };
    proof {
        assert(d@.subrange(0, d@.len() as int) =~= d@);
        lemma_head_len(d@);
    }
    if major != 4 {
        return None;
    }
    let depth: u32 = MAX_NESTING - 1;
    assert(cbor_head_of(d@) == Some((4u8, arg as nat, hl as nat)));
    let ghost body = d@.subrange(hl as int, d@.len() as int);
    let mut parts: Vec<Vec<u8>> = Vec::new();
    let mut p: usize = hl;
    let mut left: u64 = arg;
    while left > 0
        invariant
            hl <= p <= d@.len(),
            d@.len() == dlen,
            depth == MAX_NESTING - 1,
            cbor_head_of(d@) == Some((4u8, arg as nat, hl as nat)),
            body == d@.subrange(hl as int, d@.len() as int),
            parts@.len() + left == arg,
            split_items(body, arg as nat, depth as nat) == (match split_items(
                d@.subrange(p as int, d@.len() as int),
                left as nat,
                depth as nat,
            ) {
                Some((rest, m)) => Some((parts_view(parts@) + rest, ((p - hl) + m) as nat)),
                None => None,
            }),
        decreases d@.len() - p,
    {
        let ghost t = d@.subrange(p as int, d@.len() as int);
        proof {
            lemma_lengths(t, 0, depth as nat);
        }
        let n = match item_len_at(d, p, depth) {
            Some(n) => n,
            None => {
                assert(split_items(t, left as nat, depth as nat) is None);
                assert(split_items(body, arg as nat, depth as nat) is None);
                return None;
            },
        };
        let piece = vstd::slice::slice_to_vec(vstd::slice::slice_subrange(d, p, p + n));
        let ghost before = parts@;
        parts.push(piece);
        proof {
            assert(d@.subrange((p + n) as int, d@.len() as int) =~= t.subrange(n as int, t.len() as int));
            assert(piece@ =~= t.subrange(0, n as int));
            assert(parts_view(parts@) =~= parts_view(before) + seq![t.subrange(0, n as int)]);
            match split_items(t.subrange(n as int, t.len() as int), (left - 1) as nat, depth as nat) {
                Some((rest, m)) => {
                    assert(parts_view(before) + (seq![t.subrange(0, n as int)] + rest) =~= parts_view(
                        parts@,
                    ) + rest);
                },
                None => {},
            }
        }
        p = p + n;
        left = left - 1;
    }
    proof {
        assert(parts_view(parts@) + Seq::<Seq<u8>>::empty() =~= parts_view(parts@));
    }
    if p != dlen {
        return None;
    }
    Some(parts)
}

/// The raw keys and values, alternating, of the map `d` is exactly the
/// encoding of.
pub open spec fn map_items(d: Seq<u8>) -> Option<Seq<Seq<u8>>> {
    match cbor_head_of(d) {
        Some((major, arg, hl)) => if major == 5 && MAX_NESTING > 0 {
            match split_items(d.subrange(hl as int, d.len() as int), 2 * arg, (MAX_NESTING - 1) as nat) {
                Some((parts, m)) => if hl + m == d.len() {
                    Some(parts)
                } else {
                    None
                },
                None => None,
            }
        } else {
            None
        },
        None => None,
    }
}

fn next_piece(d: &[u8], p: usize, depth: u32) -> (r: Option<(Vec<u8>, usize)>)
    requires
        p <= d@.len(),
        depth == MAX_NESTING - 1,
    ensures
        r is None <==> (item_len(d@.subrange(p as int, d@.len() as int), depth as nat) is None),
        r matches Some((piece, n)) ==> {
            &&& item_len(d@.subrange(p as int, d@.len() as int), depth as nat) == Some(n as nat)
            &&& 1 <= n <= d@.len() - p
            &&& piece@ == d@.subrange(p as int, p + n)
        },
{
    let dl = d.len();
    let ghost t = d@.subrange(p as int, d@.len() as int);
    proof {
        lemma_lengths(t, 0, depth as nat);
    }
    match item_len_at(d, p, depth) {
        Some(n) => {
            let piece = vstd::slice::slice_to_vec(vstd::slice::slice_subrange(d, p, p + n));
            Some((piece, n))
        },
        None => None,
    }
}

/// The raw keys and values, alternating, of the map `d` is the encoding
/// of, or `None` when `d` is not exactly one well-formed map.
pub fn split_map(d: &[u8]) -> (r: Option<Vec<Vec<u8>>>)
    ensures
        r is None <==> map_items(d@) is None,
        r matches Some(parts) ==> map_items(d@) == Some(parts_view(parts@)),
{
    let dlen: usize = d.len();
    let (major, arg, hl) = match read_head(d, 0) {
        Some(h) => h,
        None => {
            proof {
                assert(d@.subrange(0, d@.len() as int) =~= d@);
            }
            return None;
        },
    };
    proof {
        assert(d@.subrange(0, d@.len() as int) =~= d@);
        lemma_head_len(d@);
    }
    if major != 5 {
        return None;
    }
    let depth: u32 = MAX_NESTING - 1;
    assert(cbor_head_of(d@) == Some((5u8, arg as nat, hl as nat)));
    let ghost body = d@.subrange(hl as int, d@.len() as int);
    let mut parts: Vec<Vec<u8>> = Vec::new();
    let mut p: usize = hl;
    let mut left: u64 = arg;
    while left > 0
        invariant
            hl <= p <= d@.len(),
            d@.len() == dlen,
            depth == MAX_NESTING - 1,
            cbor_head_of(d@) == Some((5u8, arg as nat, hl as nat)),
            body == d@.subrange(hl as int, d@.len() as int),
            split_items(body, 2 * arg as nat, depth as nat) == (match split_items(
                d@.subrange(p as int, d@.len() as int),
                2 * left as nat,
                depth as nat,
            ) {
                Some((rest, m)) => Some((parts_view(parts@) + rest, ((p - hl) + m) as nat)),
                None => None,
            }),
        decreases d@.len() - p,
    {
        let ghost t = d@.subrange(p as int, d@.len() as int);
        let (key, n1) = match next_piece(d, p, depth) {
            Some(x) => x,
            None => {
                assert(split_items(t, 2 * left as nat, depth as nat) is None);
                return None;
            },
        };
        let ghost t2 = d@.subrange((p + n1) as int, d@.len() as int);
        proof {
            assert(t2 =~= t.subrange(n1 as int, t.len() as int));
            assert(key@ =~= t.subrange(0, n1 as int));
        }
        let (value, n2) = match next_piece(d, p + n1, depth) {
            Some(x) => x,
            None => {
                assert(split_items(t2, (2 * left - 1) as nat, depth as nat) is None);
                assert(split_items(t, 2 * left as nat, depth as nat) is None);
                return None;
            },
        };
        let ghost before = parts@;
        parts.push(key);
        parts.push(value);
        proof {
            let t3 = d@.subrange((p + n1 + n2) as int, d@.len() as int);
            assert(t3 =~= t2.subrange(n2 as int, t2.len() as int));
            assert(value@ =~= t2.subrange(0, n2 as int));
            assert(parts_view(parts@) =~= parts_view(before) + seq![key@, value@]);
            match split_items(t3, (2 * left - 2) as nat, depth as nat) {
                Some((rest, m)) => {
                    assert(split_items(t2, (2 * left - 1) as nat, depth as nat) == Some(
                        (seq![value@] + rest, (n2 + m) as nat),
                    ));
                    assert(split_items(t, 2 * left as nat, depth as nat) == Some(
                        (seq![key@] + (seq![value@] + rest), (n1 + (n2 + m)) as nat),
                    ));
                    assert(parts_view(before) + (seq![key@] + (seq![value@] + rest)) =~= parts_view(
                        parts@,
                    ) + rest);
                },
                None => {
                    assert(split_items(t2, (2 * left - 1) as nat, depth as nat) is None);
                },
            }
        }
        p = p + n1 + n2;
        left = left - 1;
    }
    proof {
        assert(parts_view(parts@) + Seq::<Seq<u8>>::empty() =~= parts_view(parts@));
    }
    if p != dlen {
        return None;
    }
    Some(parts)
}

/// The unsigned integer `e` is exactly the encoding of.
pub open spec fn uint_of(e: Seq<u8>) -> Option<nat> {
    match cbor_head_of(e) {
        Some((major, arg, hl)) => if major == 0 && hl == e.len() {
            Some(arg)
        } else {
            None
        },
        None => None,
    }
}

/// The integer `e` is exactly the encoding of.
pub open spec fn int_of(e: Seq<u8>) -> Option<int> {
    match cbor_head_of(e) {
        Some((major, arg, hl)) => if hl == e.len() && major == 0 {
            Some(arg as int)
        } else if hl == e.len() && major == 1 {
            Some(-1 - arg)
        } else {
            None
        },
        None => None,
    }
}

/// The bytes of the byte string `e` is exactly the encoding of.
pub open spec fn bytes_of(e: Seq<u8>) -> Option<Seq<u8>> {
    match cbor_head_of(e) {
        Some((major, arg, hl)) => if major == 2 && hl + arg == e.len() {
            Some(e.subrange(hl as int, e.len() as int))
        } else {
            None
        },
        None => None,
    }
}

/// The contents (UTF-8 bytes) of the text string `e` is exactly the
/// encoding of.
pub open spec fn text_bytes_of(e: Seq<u8>) -> Option<Seq<u8>> {
    match cbor_head_of(e) {
        Some((major, arg, hl)) => if major == 3 && hl + arg == e.len() {
            Some(e.subrange(hl as int, e.len() as int))
        } else {
            None
        },
        None => None,
    }
}

/// `e` is the encoding of null.
pub open spec fn is_null_item(e: Seq<u8>) -> bool {
    e == seq![0xf6u8]
}

/// The unsigned integer encoded by `e`.
pub fn read_uint(e: &[u8]) -> (r: Option<u64>)
    ensures
        r is None <==> uint_of(e@) is None,
        r matches Some(v) ==> uint_of(e@) == Some(v as nat),
{
    proof {
        assert(e@.subrange(0, e@.len() as int) =~= e@);
    }
    match read_head(e, 0) {
        Some((major, arg, hl)) => if major == 0 && hl == e.len() {
            Some(arg)
        } else {
            None
        },
        None => None,
    }
}

/// The integer encoded by `e`, if it fits an `i128` (every CBOR integer
/// does).
pub fn read_int(e: &[u8]) -> (r: Option<i128>)
    ensures
        r is None <==> int_of(e@) is None,
        r matches Some(v) ==> int_of(e@) == Some(v as int),
{
    proof {
        assert(e@.subrange(0, e@.len() as int) =~= e@);
        lemma_head_len(e@);
        reveal_with_fuel(pow256, 9);
    }
    match read_head(e, 0) {
        Some((major, arg, hl)) => if major == 0 && hl == e.len() {
            Some(arg as i128)
        } else if major == 1 && hl == e.len() {
            Some(-1 - arg as i128)
        } else {
            None
        },
        None => None,
    }
}

/// The bytes of the byte string encoded by `e`.
pub fn read_bytes(e: &[u8]) -> (r: Option<Vec<u8>>)
    ensures
        r is None <==> bytes_of(e@) is None,
        r matches Some(b) ==> bytes_of(e@) == Some(b@),
{
    proof {
        assert(e@.subrange(0, e@.len() as int) =~= e@);
        lemma_head_len(e@);
    }
    match read_head(e, 0) {
        Some((major, arg, hl)) => {
            let avail: usize = e.len() - hl;
            if major == 2 && arg == avail as u64 {
                Some(vstd::slice::slice_to_vec(vstd::slice::slice_subrange(e, hl, e.len())))
            } else {
                None
            }
        },
        None => None,
    }
}

/// Whether `e` encodes null.
pub fn read_null(e: &[u8]) -> (r: bool)
    ensures
        r == is_null_item(e@),
{
    let r = e.len() == 1 && e[0] == 0xf6u8;
    proof {
        if r {
            assert(e@ =~= seq![0xf6u8]);
        }
    }
    r
}

/// std's `str::from_utf8`: the text whose UTF-8 encoding `b` is, when `b`
/// is valid UTF-8. The documentation promises exactly that.
#[verifier::external_body]
fn utf8_decode(b: &[u8]) -> (r: Option<String>)
    ensures
        r is Some <==> vstd::utf8::valid_utf8(b@),
        r matches Some(s) ==> s@ == vstd::utf8::decode_utf8(b@),
{
    std::str::from_utf8(b).ok().map(|s| s.to_string())
}

/// The text of the text string `e` encodes, when its contents are valid
/// UTF-8.
pub fn read_text(e: &[u8]) -> (r: Option<String>)
    ensures
        r is Some <==> (text_bytes_of(e@) matches Some(b) && vstd::utf8::valid_utf8(b)),
        r matches Some(s) ==> (text_bytes_of(e@) matches Some(b) && s@ == vstd::utf8::decode_utf8(b)),
{
    proof {
        assert(e@.subrange(0, e@.len() as int) =~= e@);
        lemma_head_len(e@);
    }
    match read_head(e, 0) {
        Some((major, arg, hl)) => {
            let avail: usize = e.len() - hl;
            if major == 3 && arg == avail as u64 {
                utf8_decode(vstd::slice::slice_subrange(e, hl, e.len()))
            } else {
                None
            }
        },
        None => None,
    }
}


/// The boolean `e` encodes (`0xf4` false, `0xf5` true).
pub open spec fn bool_of(e: Seq<u8>) -> Option<bool> {
    if e == seq![0xf4u8] {
        Some(false)
    } else if e == seq![0xf5u8] {
        Some(true)
    } else {
        None
    }
}

/// The boolean encoded by `e`.
pub fn read_bool(e: &[u8]) -> (r: Option<bool>)
    ensures
        r == bool_of(e@),
{
    if e.len() == 1 && e[0] == 0xf4u8 {
        assert(e@ =~= seq![0xf4u8]);
        Some(false)
    } else if e.len() == 1 && e[0] == 0xf5u8 {
        assert(e@ =~= seq![0xf5u8]);
        Some(true)
    } else {
        None
    }
}

} // verus!
