//! Plain values shared by the registry and the swap marketplace.
use vstd::prelude::*;
use vstd::string::StringSliceAdditionalSpecFns;

verus! {

/// An account or contract address. The host's addresses are interned to a
/// stable numeric handle; the logic only compares them and keys data by them.
#[derive(Clone, Copy, Debug, PartialEq, Eq, Structural)]
pub struct Addr {
    pub id: u64,
}

/// A 32-byte value (commitment hash, secret, blinding factor, nonce ...).
pub type Bytes32 = [u8; 32];

/// Byte-wise equality of two 32-byte values.
pub fn bytes32_eq(a: &Bytes32, b: &Bytes32) -> (r: bool)
    ensures
        r == (a@ == b@),
        r == (*a == *b),
{
    let mut i: usize = 0;
    while i < 32
        invariant
            0 <= i <= 32,
            a@.len() == 32,
            b@.len() == 32,
            forall|j: int| 0 <= j < i ==> a@[j] == b@[j],
        decreases 32 - i,
    {
        if a[i] != b[i] {
            return false;
        }
        i = i + 1;
    }
    assert(a@ =~= b@);
    assert(*a =~= *b);
    true
}

/// Whether every byte of a 32-byte value is zero.
pub fn is_all_zero(a: &Bytes32) -> (r: bool)
    ensures
        r == (forall|j: int| 0 <= j < 32 ==> a@[j] == 0u8),
{
    let mut i: usize = 0;
    while i < 32
        invariant
            0 <= i <= 32,
            a@.len() == 32,
            forall|j: int| 0 <= j < i ==> a@[j] == 0u8,
        decreases 32 - i,
    {
        if a[i] != 0 {
            return false;
        }
        i = i + 1;
    }
    true
}

} // verus!

verus! {

/// Appends the 32 bytes of `h` to `buf`.
pub fn extend_bytes32(buf: &mut Vec<u8>, h: &Bytes32)
    ensures
        final(buf)@ == old(buf)@ + h@,
{
    let ghost start = buf@;
    let mut j: usize = 0;
    while j < 32
        invariant
            0 <= j <= 32,
            h@.len() == 32,
            buf@ == start + h@.subrange(0, j as int),
        decreases 32 - j,
    {
        buf.push(h[j]);
        assert(h@.subrange(0, (j + 1) as int) =~= h@.subrange(0, j as int).push(h@[j as int]));
        j = j + 1;
    }
    assert(h@.subrange(0, 32) =~= h@);
}

/// A copy of a list of plain values.
pub fn copy_vec<T: Copy>(v: &Vec<T>) -> (r: Vec<T>)
    ensures
        r@ == v@,
{
    let mut r: Vec<T> = Vec::new();
    let mut i: usize = 0;
    while i < v.len()
        invariant
            0 <= i <= v@.len(),
            r@ == v@.subrange(0, i as int),
        decreases v@.len() - i,
    {
        r.push(v[i]);
        assert(v@.subrange(0, (i + 1) as int) =~= v@.subrange(0, i as int).push(v@[i as int]));
        i = i + 1;
    }
    assert(v@.subrange(0, v@.len() as int) =~= v@);
    r
}

/// A copy of a list of ids.
pub fn copy_ids(v: &Vec<u64>) -> (r: Vec<u64>)
    ensures
        r@ == v@,
{
    copy_vec(v)
}

/// The big-endian bytes of a `u64`.
pub open spec fn be_bytes_u64(n: u64) -> Seq<u8> {
    Seq::new(8, |k: int| ((n >> ((56 - 8 * k) as u64)) & 0xffu64) as u8)
}

/// Appends the big-endian bytes of `n` to `buf`.
pub fn extend_be_u64(buf: &mut Vec<u8>, n: u64)
    ensures
        final(buf)@ == old(buf)@ + be_bytes_u64(n),
{
    let ghost start = buf@;
    let mut k: u64 = 0;
    while k < 8
        invariant
            0 <= k <= 8,
            buf@ == start + be_bytes_u64(n).subrange(0, k as int),
        decreases 8 - k,
    {
        let b = ((n >> (56 - 8 * k)) & 0xffu64) as u8;
        buf.push(b);
        assert(be_bytes_u64(n).subrange(0, (k + 1) as int) =~= be_bytes_u64(n).subrange(0, k as int).push(b));
        k = k + 1;
    }
    assert(be_bytes_u64(n).subrange(0, 8) =~= be_bytes_u64(n));
}

/// Position of the first occurrence of `x` in `s`.
pub open spec fn first_index<A>(s: Seq<A>, x: A) -> int {
    choose|i: int| 0 <= i < s.len() && s[i] == x && forall|j: int| 0 <= j < i ==> s[j] != x
}

/// `s` without the first occurrence of `x` (unchanged if `x` does not occur).
pub open spec fn remove_first<A>(s: Seq<A>, x: A) -> Seq<A> {
    if s.contains(x) {
        s.remove(first_index(s, x))
    } else {
        s
    }
}

/// Finds the first occurrence of `x` in a list of addrs.
pub fn find_first_addr(v: &Vec<Addr>, x: Addr) -> (r: Option<usize>)
    ensures
        match r {
            Some(i) => v@.contains(x) && i == first_index(v@, x) && i < v@.len(),
            None => !v@.contains(x),
        },
{
    let mut i: usize = 0;
    while i < v.len()
        invariant
            0 <= i <= v@.len(),
            forall|j: int| 0 <= j < i ==> v@[j] != x,
        decreases v@.len() - i,
    {
        if v[i] == x {
            proof {
                assert(v@[i as int] == x);
                let c = first_index(v@, x);
                assert(0 <= c < v@.len() && v@[c] == x && forall|j: int| 0 <= j < c ==> v@[j] != x) by {
                    assert(exists|k: int| 0 <= k < v@.len() && v@[k] == x && forall|j: int| 0 <= j < k ==> v@[j] != x) by {
                        assert(0 <= i < v@.len() && v@[i as int] == x);
                    }
                }
                if c < i {
                } else if c > i {
                    assert(v@[i as int] != x);
                }
            }
            return Some(i);
        }
        i = i + 1;
    }
    None
}

/// Removes the first occurrence of `x` from a list of addrs, if any.
pub fn remove_first_addr(v: &mut Vec<Addr>, x: Addr)
    ensures
        final(v)@ == remove_first(old(v)@, x),
{
    match find_first_addr(v, x) {
        Some(i) => {
            v.remove(i);
        },
        None => {},
    }
}

/// Finds the first occurrence of `x` in a list of ids.
pub fn find_first_id(v: &Vec<u64>, x: u64) -> (r: Option<usize>)
    ensures
        match r {
            Some(i) => v@.contains(x) && i == first_index(v@, x) && i < v@.len(),
            None => !v@.contains(x),
        },
{
    let mut i: usize = 0;
    while i < v.len()
        invariant
            0 <= i <= v@.len(),
            forall|j: int| 0 <= j < i ==> v@[j] != x,
        decreases v@.len() - i,
    {
        if v[i] == x {
            proof {
                assert(v@[i as int] == x);
                let c = first_index(v@, x);
                assert(0 <= c < v@.len() && v@[c] == x && forall|j: int| 0 <= j < c ==> v@[j] != x) by {
                    assert(exists|k: int| 0 <= k < v@.len() && v@[k] == x && forall|j: int| 0 <= j < k ==> v@[j] != x) by {
                        assert(0 <= i < v@.len() && v@[i as int] == x);
                    }
                }
                if c < i {
                } else if c > i {
                    assert(v@[i as int] != x);
                }
            }
            return Some(i);
        }
        i = i + 1;
    }
    None
}

/// From a list without repeats, removing `x` leaves a list without repeats
/// that no longer holds `x` and holds nothing new.
pub proof fn lemma_remove_first_distinct(s: Seq<u64>, x: u64)
    requires
        s.no_duplicates(),
    ensures
        remove_first(s, x).no_duplicates(),
        !remove_first(s, x).contains(x),
        forall|k: int| 0 <= k < remove_first(s, x).len() ==> s.contains(#[trigger] remove_first(s, x)[k]),
{
    if s.contains(x) {
        let w = choose|k: int| 0 <= k < s.len() && s[k] == x;
        assert(0 <= w < s.len() && s[w] == x && forall|j: int| 0 <= j < w ==> s[j] != x);
        let i = first_index(s, x);
        assert(0 <= i < s.len() && s[i] == x);
        let r = s.remove(i);
        assert(r.len() == s.len() - 1);
        assert forall|k: int| 0 <= k < r.len() implies r[k] == (if k < i { s[k] } else { s[k + 1] }) by {}
        assert forall|a: int, b: int| 0 <= a < r.len() && 0 <= b < r.len() && a != b implies r[a] != r[b] by {
            let a2 = if a < i { a } else { a + 1 };
            let b2 = if b < i { b } else { b + 1 };
            assert(s[a2] != s[b2]);
        }
        assert forall|k: int| 0 <= k < r.len() implies r[k] != x by {
            let k2 = if k < i { k } else { k + 1 };
            assert(k2 != i);
            assert(s[k2] != s[i]);
        }
        assert forall|k: int| 0 <= k < r.len() implies s.contains(#[trigger] r[k]) by {
            let k2 = if k < i { k } else { k + 1 };
            assert(s[k2] == r[k]);
        }
    }
}

/// Removes the first occurrence of `x` from a list of ids, if any.
pub fn remove_first_id(v: &mut Vec<u64>, x: u64)
    ensures
        final(v)@ == remove_first(old(v)@, x),
{
    match find_first_id(v, x) {
        Some(i) => {
            v.remove(i);
        },
        None => {},
    }
}

/// Whether an address occurs in a list.
pub fn contains_addr(v: &Vec<Addr>, a: Addr) -> (r: bool)
    ensures
        r == v@.contains(a),
{
    find_first_addr(v, a).is_some()
}

} // verus!

verus! {

/// The UTF-8 bytes of a text.
pub fn bytes_of(text: &str) -> (r: Vec<u8>)
    ensures
        r@ == text.spec_bytes(),
{
    let s: &[u8] = text.as_bytes();
    let mut v: Vec<u8> = Vec::new();
    let mut k: usize = 0;
    while k < s.len()
        invariant
            0 <= k <= s@.len(),
            v@ == s@.subrange(0, k as int),
        decreases s@.len() - k,
    {
        v.push(s[k]);
        assert(s@.subrange(0, (k + 1) as int) =~= s@.subrange(0, k as int).push(s@[k as int]));
        k = k + 1;
    }
    assert(s@.subrange(0, s@.len() as int) =~= s@);
    v
}

} // verus!

verus! {

/// `x` clamped to the range of `i128`.
pub open spec fn clamp_i128(x: int) -> i128 {
    if x > i128::MAX {
        i128::MAX
    } else if x < i128::MIN {
        i128::MIN
    } else {
        x as i128
    }
}

/// `a + b`, saturating at the bounds of `i128`.
pub fn sat_add_i128(a: i128, b: i128) -> (r: i128)
    ensures
        r == clamp_i128(a + b),
{
    if b > 0 && a > i128::MAX - b {
        i128::MAX
    } else if b < 0 && a < i128::MIN - b {
        i128::MIN
    } else {
        a + b
    }
}

/// `a - b`, saturating at the bounds of `i128`.
pub fn sat_sub_i128(a: i128, b: i128) -> (r: i128)
    ensures
        r == clamp_i128(a - b),
{
    if b < 0 && a > i128::MAX + b {
        i128::MAX
    } else if b > 0 && a < i128::MIN + b {
        i128::MIN
    } else {
        a - b
    }
}

} // verus!
