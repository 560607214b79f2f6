//! Lists of simple values in one attribute or text: the values are separated
//! by spaces, `|`, `,` or `;`. Reference types that hold a list deserialize
//! their bytes this way, part by part.

use vstd::prelude::*;

use crate::deserialize_bytes::DeserializeBytes;
use crate::error::Error;

verus! {

/// The bytes that separate the values of a list: space, `|`, `,` and `;`.
pub open spec fn is_separator(b: u8) -> bool {
    b == 0x20u8 || b == 0x7Cu8 || b == 0x2Cu8 || b == 0x3Bu8
}

/// The parts of `bytes` between separators, in order, empty parts included
/// (no bytes give one empty part).
pub open spec fn split_parts(bytes: Seq<u8>) -> Seq<Seq<u8>>
    decreases bytes.len(),
{
    if bytes.len() == 0 {
        seq![Seq::empty()]
    } else {
        let parts = split_parts(bytes.drop_last());
        if is_separator(bytes.last()) {
            parts.push(Seq::empty())
        } else {
            parts.update(parts.len() - 1, parts.last().push(bytes.last()))
        }
    }
}

proof fn lemma_split_parts_nonempty(bytes: Seq<u8>)
    ensures
        split_parts(bytes).len() >= 1,
    decreases bytes.len(),
{
    if bytes.len() > 0 {
        lemma_split_parts_nonempty(bytes.drop_last());
    }
}

fn is_separator_byte(b: u8) -> (r: bool)
    ensures
        r == is_separator(b),
{
    b == 0x20u8 || b == 0x7Cu8 || b == 0x2Cu8 || b == 0x3Bu8
}

/// Splits `bytes` into the parts between separators (see [`split_parts`]).
pub fn split_list(bytes: &[u8]) -> (r: Vec<Vec<u8>>)
    ensures
        r@.len() == split_parts(bytes@).len(),
        forall|i: int| 0 <= i < r@.len() ==> #[trigger] r@[i]@ == split_parts(bytes@)[i],
{
    let mut done: Vec<Vec<u8>> = Vec::new();
    let mut cur: Vec<u8> = Vec::new();
    let mut i: usize = 0;
    while i < bytes.len()
        invariant
            i <= bytes@.len(),
            split_parts(bytes@.subrange(0, i as int)).len() == done@.len() + 1,
            forall|k: int|
                0 <= k < done@.len() ==> #[trigger] done@[k]@ == split_parts(
                    bytes@.subrange(0, i as int),
                )[k],
            cur@ == split_parts(bytes@.subrange(0, i as int)).last(),
        decreases bytes@.len() - i,
    {
        let ghost before = bytes@.subrange(0, i as int);
        assert(bytes@.subrange(0, i + 1).drop_last() =~= before);
        proof {
            lemma_split_parts_nonempty(before);
        }
        let b = bytes[i];
        if is_separator_byte(b) {
            let part = cur;
            done.push(part);
            cur = Vec::new();
            assert(cur@ =~= Seq::<u8>::empty());
        } else {
            cur.push(b);
        }
        i = i + 1;
    }
    assert(bytes@.subrange(0, bytes@.len() as int) =~= bytes@);
    done.push(cur);
    done
}

/// The values of the parts `parts[..n]` all deserialize.
pub open spec fn all_parse<T: DeserializeBytes>(parts: Seq<Seq<u8>>, n: int) -> bool {
    forall|k: int| 0 <= k < n ==> (#[trigger] T::from_bytes_spec(parts[k])) is Some
}

/// `e` is the error of the first of the parts `parts[..n]` that does not
/// deserialize.
pub open spec fn first_rejected<T: DeserializeBytes>(parts: Seq<Seq<u8>>, n: int, e: Error) -> bool {
    exists|j: int|
        0 <= j < n && all_parse::<T>(parts, j) && T::from_bytes_spec(parts[j]) is None
            && #[trigger] T::rejects(parts[j], e)
}

/// `values` are the values of the parts `parts[..n]`, in order.
pub open spec fn values_of<T: DeserializeBytes>(parts: Seq<Seq<u8>>, n: int, values: Seq<T>) -> bool {
    &&& values.len() == n
    &&& forall|k: int|
        0 <= k < n ==> T::from_bytes_spec(parts[k]) == Some((#[trigger] values[k])@)
}

/// Deserializes the first `n` of `parts` in order; the first that fails
/// gives the error.
fn parse_parts<T: DeserializeBytes>(parts: &Vec<Vec<u8>>, n: usize) -> (r: Result<Vec<T>, Error>)
    requires
        n <= parts@.len(),
    ensures
        r is Ok <==> all_parse::<T>(parts@.map_values(|p: Vec<u8>| p@), n as int),
        r matches Ok(v) ==> values_of::<T>(parts@.map_values(|p: Vec<u8>| p@), n as int, v@),
        r matches Err(e) ==> first_rejected::<T>(parts@.map_values(|p: Vec<u8>| p@), n as int, e),
{
    let ghost ps = parts@.map_values(|p: Vec<u8>| p@);
    let mut values: Vec<T> = Vec::new();
    let mut i: usize = 0;
    while i < n
        invariant
            i <= n <= parts@.len(),
            ps == parts@.map_values(|p: Vec<u8>| p@),
            all_parse::<T>(ps, i as int),
            values_of::<T>(ps, i as int, values@),
        decreases n - i,
    {
        assert(ps[i as int] == parts@[i as int]@);
        match T::deserialize_bytes(parts[i].as_slice()) {
            Ok(v) => {
                values.push(v);
                i = i + 1;
                assert(all_parse::<T>(ps, i as int)) by {
                    assert forall|k: int| 0 <= k < i implies (#[trigger] T::from_bytes_spec(ps[k])) is Some by {
                    }
                }
                assert forall|k: int| 0 <= k < i implies T::from_bytes_spec(ps[k]) == Some((#[trigger] values@[k])@) by {
                }
            },
            Err(e) => {
                assert(T::rejects(ps[i as int], e));
                assert(!all_parse::<T>(ps, n as int)) by {
                    assert(T::from_bytes_spec(ps[i as int]) is None);
                }
                return Err(e);
            },
        }
    }
    Ok(values)
}

/// Deserializes a list of any length: the values of all parts of `bytes`
/// (see [`split_parts`]), or the error of the first part that does not
/// deserialize.
pub fn dynamic_list<T: DeserializeBytes>(bytes: &[u8]) -> (r: Result<Vec<T>, Error>)
    ensures
        r is Ok <==> all_parse::<T>(split_parts(bytes@), split_parts(bytes@).len() as int),
        r matches Ok(v) ==> values_of::<T>(split_parts(bytes@), split_parts(bytes@).len() as int, v@),
        r matches Err(e) ==> first_rejected::<T>(split_parts(bytes@), split_parts(bytes@).len() as int, e),
{
    let parts = split_list(bytes);
    assert(parts@.map_values(|p: Vec<u8>| p@) =~= split_parts(bytes@));
    parse_parts(&parts, parts.len())
}

/// Deserializes a list of exactly `size` values. The parts are read in order
/// up to `size` of them: the first that does not deserialize gives its error;
/// otherwise another number of parts is [`Error::InsufficientSize`] with
/// `size` as bounds and the number of parts read.
pub fn static_list<T: DeserializeBytes>(bytes: &[u8], size: usize) -> (r: Result<Vec<T>, Error>)
    ensures
        ({
            let parts = split_parts(bytes@);
            let read = if parts.len() < size {
                parts.len() as int
            } else {
                size as int
            };
            &&& !all_parse::<T>(parts, read) ==> (r matches Err(e) && first_rejected::<T>(
                parts,
                read,
                e,
            ))
            &&& all_parse::<T>(parts, read) && parts.len() != size ==> r == Err::<Vec<T>, Error>(
                Error::InsufficientSize { min: size, max: size, actual: read as usize },
            )
            &&& all_parse::<T>(parts, read) && parts.len() == size ==> (r matches Ok(v)
                && values_of::<T>(parts, read, v@))
        }),
{
    let parts = split_list(bytes);
    assert(parts@.map_values(|p: Vec<u8>| p@) =~= split_parts(bytes@));
    let read = if parts.len() < size {
        parts.len()
    } else {
        size
    };
    let values = parse_parts::<T>(&parts, read)?;
    if parts.len() != size {
        return Err(Error::InsufficientSize { min: size, max: size, actual: read });
    }
    Ok(values)
}

} // verus!
