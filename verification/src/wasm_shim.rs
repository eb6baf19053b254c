//! The byte routines of the C library shim (`memcmp`, `memchr`, `memset`,
//! `memcpy`), on slices. Turning the C side's pointers into slices, and the
//! allocator, `memmove` and `strlen`, which cannot be stated on slices, are
//! left to the FFI layer.

use vstd::prelude::*;

verus! {

/// The sign of the lexicographic comparison of two byte strings: `-1` when
/// `a` sorts first, `1` when `b` does, `0` when they are equal.
pub open spec fn lex_sign(a: Seq<u8>, b: Seq<u8>) -> i32
    decreases a.len(),
{
    if a.len() == 0 {
        if b.len() == 0 { 0i32 } else { -1i32 }
    } else if b.len() == 0 {
        1
    } else if a[0] < b[0] {
        -1i32
    } else if a[0] > b[0] {
        1
    } else {
        lex_sign(a.drop_first(), b.drop_first())
    }
}

/// Two byte strings compare equal exactly when they are equal.
pub proof fn lex_sign_zero_iff_equal(a: Seq<u8>, b: Seq<u8>)
    ensures
        lex_sign(a, b) == 0 <==> a == b,
    decreases a.len(),
{
    if a.len() > 0 && b.len() > 0 && a[0] == b[0] {
        lex_sign_zero_iff_equal(a.drop_first(), b.drop_first());
        if a.drop_first() == b.drop_first() {
            assert forall|i: int| 0 <= i < a.len() implies a[i] == b[i] by {
                if i > 0 {
                    assert(a[i] == a.drop_first()[i - 1]);
                    assert(b[i] == b.drop_first()[i - 1]);
                }
            }
            assert(a =~= b);
        }
        if a == b {
            assert(a.drop_first() =~= b.drop_first());
        }
    } else if a.len() > 0 && b.len() > 0 {
        assert(a[0] != b[0]);
    } else if a.len() == 0 && b.len() != 0 {
        assert(a != b);
    } else if a.len() != 0 && b.len() == 0 {
        assert(a != b);
    } else {
        assert(a =~= b);
    }
}

/// Swapping the operands flips the sign of the comparison.
pub proof fn lex_sign_antisymmetric(a: Seq<u8>, b: Seq<u8>)
    ensures
        lex_sign(a, b) == -lex_sign(b, a),
    decreases a.len(),
{
    if a.len() > 0 && b.len() > 0 && a[0] == b[0] {
        lex_sign_antisymmetric(a.drop_first(), b.drop_first());
    }
}

/// The first byte at which two strings differ decides the comparison.
pub proof fn lex_sign_first_difference(a: Seq<u8>, b: Seq<u8>, i: int)
    requires
        0 <= i < a.len(),
        i < b.len(),
        forall|j: int| 0 <= j < i ==> a[j] == b[j],
        a[i] != b[i],
    ensures
        lex_sign(a, b) == (if a[i] < b[i] { -1i32 } else { 1i32 }),
    decreases i,
{
    if i > 0 {
        assert forall|j: int| 0 <= j < i - 1 implies a.drop_first()[j] == b.drop_first()[j] by {
            assert(a.drop_first()[j] == a[j + 1]);
            assert(b.drop_first()[j] == b[j + 1]);
        }
        assert(a[0] == b[0]);
        lex_sign_first_difference(a.drop_first(), b.drop_first(), i - 1);
    }
}

/// A proper prefix sorts first.
pub proof fn lex_sign_proper_prefix(a: Seq<u8>, b: Seq<u8>)
    requires
        a.len() < b.len(),
        forall|j: int| 0 <= j < a.len() ==> a[j] == b[j],
    ensures
        lex_sign(a, b) == -1,
    decreases a.len(),
{
    if a.len() > 0 {
        assert forall|j: int| 0 <= j < a.len() - 1 implies a.drop_first()[j] == b.drop_first()[j] by {
            assert(a.drop_first()[j] == a[j + 1]);
            assert(b.drop_first()[j] == b[j + 1]);
        }
        assert(a[0] == b[0]);
        lex_sign_proper_prefix(a.drop_first(), b.drop_first());
    }
}

/// The bytes of `s` from index `i` on.
pub open spec fn rest(s: Seq<u8>, i: usize) -> Seq<u8> {
    s.skip(i as int)
}

/// Compares `str1` and `str2` byte by byte: `-1`, `0` or `1` as `str1` is
/// less than, equal to or greater than `str2`.
pub fn rust_lzma_wasm_shim_memcmp(str1: &[u8], str2: &[u8]) -> (r: i32)
    ensures
        r == lex_sign(str1@, str2@),
{
    let n1 = str1.len();
    let n2 = str2.len();
    let mut i: usize = 0;
    assert(rest(str1@, i) =~= str1@);
    assert(rest(str2@, i) =~= str2@);
    while i < n1 && i < n2
        invariant
            n1 == str1@.len(),
            n2 == str2@.len(),
            i <= n1,
            i <= n2,
            lex_sign(str1@, str2@) == lex_sign(rest(str1@, i), rest(str2@, i)),
        decreases n1 - i,
    {
        let x = str1[i];
        let y = str2[i];
        if x < y {
            return -1;
        }
        if x > y {
            return 1;
        }
        let ghost before = i;
        i = i + 1;
        assert(rest(str1@, before).drop_first() =~= rest(str1@, i));
        assert(rest(str2@, before).drop_first() =~= rest(str2@, i));
    }
    if i < n1 {
        1
    } else if i < n2 {
        -1
    } else {
        0
    }
}

/// The byte that a C `int` argument stands for: its low eight bits.
pub open spec fn low_byte(c: i32) -> u8 {
    c as u8
}

/// The byte a C `int` stands for is the `int` modulo 256.
pub proof fn low_byte_is_modulo_256(c: i32)
    ensures
        low_byte(c) as int == c as int % 256,
{
    assert((c as u8) as int == c as int % 256) by (bit_vector);
}

/// The index of the first byte of `s` equal to the low byte of `c`, or
/// `None` where there is none.
pub fn rust_lzma_wasm_shim_memchr(s: &[u8], c: i32) -> (r: Option<usize>)
    ensures
        r matches Some(i) ==> i < s@.len() && s@[i as int] == low_byte(c)
            && forall|j: int| 0 <= j < i ==> s@[j] != low_byte(c),
        r is None ==> forall|j: int| 0 <= j < s@.len() ==> s@[j] != low_byte(c),
{
    let b: u8 = #[verifier::truncate] (c as u8);
    let mut i: usize = 0;
    while i < s.len()
        invariant
            i <= s@.len(),
            b == low_byte(c),
            forall|j: int| 0 <= j < i ==> s@[j] != b,
        decreases s@.len() - i,
    {
        if s[i] == b {
            return Some(i);
        }
        i = i + 1;
    }
    None
}

/// Sets every byte of `dest` to the low byte of `c`.
pub fn rust_lzma_wasm_shim_memset(dest: &mut [u8], c: i32)
    ensures
        final(dest)@ == Seq::new(old(dest)@.len(), |_j: int| low_byte(c)),
{
    let b: u8 = #[verifier::truncate] (c as u8);
    let n = dest.len();
    let mut i: usize = 0;
    while i < n
        invariant
            n == dest@.len(),
            n == old(dest)@.len(),
            i <= n,
            b == low_byte(c),
            forall|j: int| 0 <= j < i ==> dest@[j] == b,
        decreases n - i,
    {
        dest[i] = b;
        i = i + 1;
    }
    assert(dest@ =~= Seq::new(old(dest)@.len(), |_j: int| low_byte(c)));
}

/// Copies `src` into `dest`, which has the same length.
pub fn rust_lzma_wasm_shim_memcpy(dest: &mut [u8], src: &[u8])
    requires
        old(dest)@.len() == src@.len(),
    ensures
        final(dest)@ == src@,
{
    let n = src.len();
    let mut i: usize = 0;
    while i < n
        invariant
            n == src@.len(),
            n == dest@.len(),
            i <= n,
            forall|j: int| 0 <= j < i ==> dest@[j] == src@[j],
        decreases n - i,
    {
        dest[i] = src[i];
        i = i + 1;
    }
    assert(dest@ =~= src@);
}

} // verus!
