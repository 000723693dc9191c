//! Decoded CBOR values, as the library's logic reads them: the parts of a
//! value it looks at, held as plain values.

use vstd::prelude::*;

verus! {

/// A decoded CBOR data item (a map is kept as its pairs, in order).
/// Floating-point items are not read by the
/// library's logic and carry no payload here.
#[derive(Debug)]
pub enum CborValue {
    Integer(i128),
    Bytes(Vec<u8>),
    Text(String),
    Array(Vec<CborValue>),
    Pairs(Vec<(CborValue, CborValue)>),
    Tag(u64, Box<CborValue>),
    Bool(bool),
    Null,
    Float,
}

/// The index of the first pair of `pairs` whose key is the integer `key`.
pub open spec fn first_int_key_index(pairs: Seq<(CborValue, CborValue)>, key: i128) -> Option<int>
    decreases pairs.len(),
{
    if pairs.len() == 0 {
        None
    } else if pairs[0].0 == CborValue::Integer(key) {
        Some(0)
    } else {
        match first_int_key_index(pairs.drop_first(), key) {
            Some(i) => Some(i + 1),
            None => None,
        }
    }
}

/// The value a map holds under the integer key `key`.
pub open spec fn map_get_int(pairs: Seq<(CborValue, CborValue)>, key: i128) -> Option<CborValue> {
    match first_int_key_index(pairs, key) {
        Some(i) => Some(pairs[i].1),
        None => None,
    }
}

pub(crate) proof fn lemma_first_int_key_index(pairs: Seq<(CborValue, CborValue)>, key: i128)
    ensures
        first_int_key_index(pairs, key) matches Some(i) ==> 0 <= i < pairs.len()
            && pairs[i].0 == CborValue::Integer(key) && forall|j: int|
            0 <= j < i ==> pairs[j].0 != CborValue::Integer(key),
        first_int_key_index(pairs, key) is None ==> forall|j: int|
            0 <= j < pairs.len() ==> pairs[j].0 != CborValue::Integer(key),
    decreases pairs.len(),
{
    if pairs.len() > 0 {
        lemma_first_int_key_index(pairs.drop_first(), key);
        if first_int_key_index(pairs, key) is None {
            assert forall|j: int| 0 <= j < pairs.len() implies pairs[j].0 != CborValue::Integer(
                key,
            ) by {
                if j > 0 {
                    assert(pairs[j] == pairs.drop_first()[j - 1]);
                }
            }
        } else if pairs[0].0 != CborValue::Integer(key) {
            let i = first_int_key_index(pairs, key).unwrap();
            assert forall|j: int| 0 <= j < i implies pairs[j].0 != CborValue::Integer(key) by {
                if j > 0 {
                    assert(pairs[j] == pairs.drop_first()[j - 1]);
                }
            }
        }
    }
}

/// The value stored under the integer key `key` in the map `pairs`: the
/// first pair with that key.
pub fn map_get_int_key(pairs: &Vec<(CborValue, CborValue)>, key: i128) -> (r: Option<&CborValue>)
    ensures
        r is None <==> map_get_int(pairs@, key) is None,
        r matches Some(v) ==> map_get_int(pairs@, key) == Some(*v),
{
    proof {
        lemma_first_int_key_index(pairs@, key);
    }
    let mut i: usize = 0;
    while i < pairs.len()
        invariant
            i <= pairs@.len(),
            forall|j: int| 0 <= j < i ==> pairs@[j].0 != CborValue::Integer(key),
            first_int_key_index(pairs@, key) matches Some(k) ==> k >= i,
        decreases pairs@.len() - i,
    {
        let is_key = match &pairs[i].0 {
            CborValue::Integer(k) => *k == key,
            _ => false,
        };
        if is_key {
            proof {
                lemma_first_int_key_index(pairs@, key);
            }
            return Some(&pairs[i].1);
        }
        proof {
            lemma_first_int_key_index(pairs@, key);
        }
        i = i + 1;
    }
    proof {
        lemma_first_int_key_index(pairs@, key);
    }
    None
}

} // verus!
