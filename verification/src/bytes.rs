//! Small verified byte-slice helpers shared by the deserializers.

use vstd::prelude::*;

verus! {

/// The bytes of an ASCII string, one byte per character.
pub open spec fn ascii(s: Seq<char>) -> Seq<u8> {
    s.map_values(|c: char| c as u8)
}

/// Returns the bytes of an ASCII string literal.
pub fn ascii_bytes(s: &str) -> (r: &[u8])
    requires
        s.is_ascii(),
    ensures
        r@ == ascii(s@),
{
    proof {
        vstd::string::is_ascii_spec_bytes(s);
    }
    let r = s.as_bytes();
    assert(r@ =~= ascii(s@));
    r
}

/// Byte-wise equality of two slices.
pub fn bytes_eq(a: &[u8], b: &[u8]) -> (r: bool)
    ensures
        r == (a@ == b@),
{
    if a.len() != b.len() {
        return false;
    }
    let mut i: usize = 0;
    while i < a.len()
        invariant
            i <= a.len(),
            a.len() == b.len(),
            forall|j: int| 0 <= j < i ==> a@[j] == b@[j],
        decreases a.len() - i,
    {
        if a[i] != b[i] {
            assert(a@[i as int] != b@[i as int]);
            return false;
        }
        i = i + 1;
    }
    assert(a@ =~= b@);
    true
}

/// Appends all bytes of `src` to `dst`.
pub fn append_bytes(dst: &mut Vec<u8>, src: &[u8])
    ensures
        final(dst)@ == old(dst)@ + src@,
{
    let mut i: usize = 0;
    while i < src.len()
        invariant
            i <= src.len(),
            dst@ == old(dst)@ + src@.subrange(0, i as int),
        decreases src.len() - i,
    {
        dst.push(src[i]);
        i = i + 1;
        assert(dst@ =~= old(dst)@ + src@.subrange(0, i as int));
    }
    assert(src@.subrange(0, src.len() as int) =~= src@);
}

/// Copies a slice into a new vector.
pub fn to_vec(src: &[u8]) -> (r: Vec<u8>)
    ensures
        r@ == src@,
{
    let mut r: Vec<u8> = Vec::new();
    append_bytes(&mut r, src);
    assert(r@ =~= src@);
    r
}

/// The ASCII whitespace bytes: space, tab, line feed, form feed and carriage return.
pub open spec fn is_ascii_whitespace(b: u8) -> bool {
    b == 0x20u8 || b == 0x09u8 || b == 0x0Au8 || b == 0x0Cu8 || b == 0x0Du8
}

/// Removes leading ASCII whitespace.
pub open spec fn trim_ascii_start(s: Seq<u8>) -> Seq<u8>
    decreases s.len(),
{
    if s.len() > 0 && is_ascii_whitespace(s[0]) {
        trim_ascii_start(s.drop_first())
    } else {
        s
    }
}

/// Removes trailing ASCII whitespace.
pub open spec fn trim_ascii_end(s: Seq<u8>) -> Seq<u8>
    decreases s.len(),
{
    if s.len() > 0 && is_ascii_whitespace(s.last()) {
        trim_ascii_end(s.drop_last())
    } else {
        s
    }
}

/// Removes leading and trailing ASCII whitespace.
pub open spec fn trim_ascii(s: Seq<u8>) -> Seq<u8> {
    trim_ascii_end(trim_ascii_start(s))
}

fn is_ws(b: u8) -> (r: bool)
    ensures
        r == is_ascii_whitespace(b),
{
    b == 0x20u8 || b == 0x09u8 || b == 0x0Au8 || b == 0x0Cu8 || b == 0x0Du8
}

/// Returns a copy of `s` without leading and trailing ASCII whitespace.
pub fn trim_ascii_bytes(s: &[u8]) -> (r: Vec<u8>)
    ensures
        r@ == trim_ascii(s@),
{
    let n = s.len();
    let mut i: usize = 0;
    assert(s@.subrange(0, n as int) =~= s@);
    while i < n && is_ws(s[i])
        invariant
            i <= n,
            n == s@.len(),
            trim_ascii_start(s@) == trim_ascii_start(s@.subrange(i as int, n as int)),
        decreases n - i,
    {
        assert(s@.subrange(i as int, n as int).drop_first() =~= s@.subrange(i + 1, n as int));
        i = i + 1;
    }
    let ghost start = s@.subrange(i as int, n as int);
    assert(trim_ascii_start(s@) == start);
    let mut j: usize = n;
    while j > i && is_ws(s[j - 1])
        invariant
            i <= j <= n,
            n == s@.len(),
            start == s@.subrange(i as int, n as int),
            trim_ascii_end(start) == trim_ascii_end(s@.subrange(i as int, j as int)),
        decreases j - i,
    {
        assert(s@.subrange(i as int, j as int).drop_last() =~= s@.subrange(i as int, j - 1));
        j = j - 1;
    }
    let mut r: Vec<u8> = Vec::new();
    let mut k: usize = i;
    while k < j
        invariant
            i <= k <= j <= n,
            n == s@.len(),
            r@ == s@.subrange(i as int, k as int),
        decreases j - k,
    {
        r.push(s[k]);
        k = k + 1;
        assert(r@ =~= s@.subrange(i as int, k as int));
    }
    r
}

/// The local part of a qualified name: everything after the first `:`,
/// or the whole name when it has no prefix.
pub open spec fn local_name(name: Seq<u8>) -> Seq<u8> {
    if exists|i: int| 0 <= i < name.len() && name[i] == 0x3Au8 {
        let i = choose|i: int|
            0 <= i < name.len() && name[i] == 0x3Au8 && forall|k: int| 0 <= k < i ==> name[k] != 0x3Au8;
        name.subrange(i + 1, name.len() as int)
    } else {
        name
    }
}

/// Computes [`local_name`].
pub fn local_name_of(name: &[u8]) -> (r: Vec<u8>)
    ensures
        r@ == local_name(name@),
{
    let n = name.len();
    let mut i: usize = 0;
    while i < n && name[i] != 0x3Au8
        invariant
            i <= n,
            n == name@.len(),
            forall|k: int| 0 <= k < i ==> name@[k] != 0x3Au8,
        decreases n - i,
    {
        i = i + 1;
    }
    if i == n {
        return to_vec(name);
    }
    proof {
        let c = choose|c: int|
            0 <= c < name@.len() && name@[c] == 0x3Au8 && forall|k: int| 0 <= k < c ==> name@[k] != 0x3Au8;
        assert(name@[i as int] == 0x3Au8);
        if c < i {
        } else if c > i {
        }
        assert(c == i);
    }
    let mut r: Vec<u8> = Vec::new();
    let mut k: usize = i + 1;
    while k < n
        invariant
            i + 1 <= k <= n,
            n == name@.len(),
            r@ == name@.subrange(i + 1, k as int),
        decreases n - k,
    {
        r.push(name[k]);
        k = k + 1;
        assert(r@ =~= name@.subrange(i + 1, k as int));
    }
    r
}

} // verus!
