//! Conversions between native values and their managed (JVM) representations.
//!
//! Unsigned native integers travel as the managed signed integer of the same
//! width, reinterpreting the bits. Byte buffers and strings are copied.
use vstd::prelude::*;

verus! {

/// The value of the two's-complement reading of the low `bits` bits of `v`.
pub open spec fn as_signed(v: int, bits: nat) -> int {
    if v < pow2(bits) / 2 {
        v
    } else {
        v - pow2(bits)
    }
}

/// The unsigned value whose two's-complement reading in `bits` bits is `m`.
pub open spec fn as_unsigned(m: int, bits: nat) -> int {
    if m >= 0 {
        m
    } else {
        m + pow2(bits)
    }
}

pub open spec fn pow2(bits: nat) -> int {
    vstd::arithmetic::power2::pow2(bits) as int
}

proof fn lemma_pow2_values()
    ensures
        pow2(8) == 0x100,
        pow2(32) == 0x1_0000_0000,
        pow2(64) == 0x1_0000_0000_0000_0000,
{
    vstd::arithmetic::power2::lemma2_to64();
    vstd::arithmetic::power2::lemma2_to64_rest();
}

/// A native `u8` as a managed `byte`.
pub fn u8_to_managed(v: u8) -> (r: i8)
    ensures
        r as int == as_signed(v as int, 8),
{
    proof {
        lemma_pow2_values();
    }
    assert(v < 0x80 ==> (v as i8) as i16 == v as i16) by (bit_vector);
    assert(v >= 0x80 ==> (v as i8) as i16 == (v as i16) - 0x100i16) by (bit_vector);
    v as i8
}

/// A managed `byte` as a native `u8`.
pub fn u8_from_managed(m: i8) -> (r: u8)
    ensures
        r as int == as_unsigned(m as int, 8),
{
    proof {
        lemma_pow2_values();
    }
    assert(m >= 0 ==> (m as u8) as i16 == m as i16) by (bit_vector);
    assert(m < 0 ==> (m as u8) as i16 == (m as i16) + 0x100i16) by (bit_vector);
    m as u8
}

/// A native `u32` as a managed `int`.
pub fn u32_to_managed(v: u32) -> (r: i32)
    ensures
        r as int == as_signed(v as int, 32),
{
    proof {
        lemma_pow2_values();
    }
    assert(v < 0x8000_0000 ==> (v as i32) as i64 == v as i64) by (bit_vector);
    assert(v >= 0x8000_0000 ==> (v as i32) as i64 == (v as i64) - 0x1_0000_0000i64)
        by (bit_vector);
    v as i32
}

/// A managed `int` as a native `u32`.
pub fn u32_from_managed(m: i32) -> (r: u32)
    ensures
        r as int == as_unsigned(m as int, 32),
{
    proof {
        lemma_pow2_values();
    }
    assert(m >= 0 ==> (m as u32) as i64 == m as i64) by (bit_vector);
    assert(m < 0 ==> (m as u32) as i64 == (m as i64) + 0x1_0000_0000i64) by (bit_vector);
    m as u32
}

/// A native `u64` as a managed `long`.
pub fn u64_to_managed(v: u64) -> (r: i64)
    ensures
        r as int == as_signed(v as int, 64),
{
    proof {
        lemma_pow2_values();
    }
    assert(v < 0x8000_0000_0000_0000 ==> (v as i64) as i128 == v as i128) by (bit_vector);
    assert(v >= 0x8000_0000_0000_0000 ==> (v as i64) as i128 == (v as i128)
        - 0x1_0000_0000_0000_0000i128) by (bit_vector);
    v as i64
}

/// A managed `long` as a native `u64`.
pub fn u64_from_managed(m: i64) -> (r: u64)
    ensures
        r as int == as_unsigned(m as int, 64),
{
    proof {
        lemma_pow2_values();
    }
    assert(m >= 0 ==> (m as u64) as i128 == m as i128) by (bit_vector);
    assert(m < 0 ==> (m as u64) as i128 == (m as i128) + 0x1_0000_0000_0000_0000i128)
        by (bit_vector);
    m as u64
}

/// A native size as a managed `long`.
pub fn usize_to_managed(v: usize) -> (r: i64)
    ensures
        r as int == as_signed(v as int, 64),
{
    u64_to_managed(v as u64)
}

/// Bit-preserving conversions are undone by the conversion back: for every
/// unsigned width the bridge maps onto a managed signed integer, reading the
/// managed value back yields the native value it came from, and the other way round.
pub proof fn lemma_unsigned_round_trip(v: int, m: int, bits: nat)
    requires
        bits == 8 || bits == 32 || bits == 64,
        0 <= v < pow2(bits),
        -(pow2(bits) / 2) <= m < pow2(bits) / 2,
    ensures
        as_unsigned(as_signed(v, bits), bits) == v,
        as_signed(as_unsigned(m, bits), bits) == m,
        -(pow2(bits) / 2) <= as_signed(v, bits) < pow2(bits) / 2,
        0 <= as_unsigned(m, bits) < pow2(bits),
{
    lemma_pow2_values();
}

/// The managed `byte[]` holding the bytes of `b`, each reinterpreted as signed.
pub open spec fn managed_bytes(b: Seq<u8>) -> Seq<i8> {
    Seq::new(b.len(), |i: int| as_signed(b[i] as int, 8) as i8)
}

/// The native bytes held by a managed `byte[]`.
pub open spec fn native_bytes(m: Seq<i8>) -> Seq<u8> {
    Seq::new(m.len(), |i: int| as_unsigned(m[i] as int, 8) as u8)
}

/// A native byte buffer (pointer and length) as a managed `byte[]`.
pub fn bytes_to_managed(b: &[u8]) -> (r: Vec<i8>)
    ensures
        r@ == managed_bytes(b@),
{
    let mut r: Vec<i8> = Vec::with_capacity(b.len());
    let mut i: usize = 0;
    while i < b.len()
        invariant
            i <= b@.len(),
            r@ == managed_bytes(b@.take(i as int)),
        decreases b@.len() - i,
    {
        let x = u8_to_managed(b[i]);
        r.push(x);
        i += 1;
        assert(r@ =~= managed_bytes(b@.take(i as int)));
    }
    assert(b@.take(b@.len() as int) =~= b@);
    r
}

/// A managed `byte[]` as an owned native byte buffer.
pub fn bytes_from_managed(m: &[i8]) -> (r: Vec<u8>)
    ensures
        r@ == native_bytes(m@),
{
    let mut r: Vec<u8> = Vec::with_capacity(m.len());
    let mut i: usize = 0;
    while i < m.len()
        invariant
            i <= m@.len(),
            r@ == native_bytes(m@.take(i as int)),
        decreases m@.len() - i,
    {
        let x = u8_from_managed(m[i]);
        r.push(x);
        i += 1;
        assert(r@ =~= native_bytes(m@.take(i as int)));
    }
    assert(m@.take(m@.len() as int) =~= m@);
    r
}

/// A fixed-size native byte array as a managed `byte[]` of the same length.
pub fn fixed_bytes_to_managed<const N: usize>(a: &[u8; N]) -> (r: Vec<i8>)
    ensures
        r@ == managed_bytes(a@),
        r@.len() == N,
{
    bytes_to_managed(a.as_slice())
}

/// A managed `byte[]` of length `N` as a fixed-size native byte array.
pub fn fixed_bytes_from_managed<const N: usize>(m: &[i8]) -> (r: [u8; N])
    requires
        m@.len() == N,
    ensures
        r@ == native_bytes(m@),
{
    let mut r: [u8; N] = [0u8; N];
    let mut i: usize = 0;
    while i < N
        invariant
            i <= N,
            m@.len() == N,
            forall|j: int| 0 <= j < i ==> r@[j] == as_unsigned(m@[j] as int, 8) as u8,
        decreases N - i,
    {
        r[i] = u8_from_managed(m[i]);
        i += 1;
    }
    assert(r@ =~= native_bytes(m@));
    r
}

/// A fixed-size array of signed native bytes as a managed `byte[]`: a copy.
pub fn signed_bytes_to_managed<const N: usize>(a: &[i8; N]) -> (r: Vec<i8>)
    ensures
        r@ == a@,
{
    let mut r: Vec<i8> = Vec::with_capacity(N);
    let mut i: usize = 0;
    while i < N
        invariant
            i <= N,
            a@.len() == N,
            r@ == a@.take(i as int),
        decreases N - i,
    {
        r.push(a[i]);
        i += 1;
        assert(r@ =~= a@.take(i as int));
    }
    assert(a@.take(N as int) =~= a@);
    r
}

/// A managed `byte[]` of length `N` as a fixed-size array of signed native bytes.
pub fn signed_bytes_from_managed<const N: usize>(m: &[i8]) -> (r: [i8; N])
    requires
        m@.len() == N,
    ensures
        r@ == m@,
{
    let mut r: [i8; N] = [0i8; N];
    let mut i: usize = 0;
    while i < N
        invariant
            i <= N,
            m@.len() == N,
            forall|j: int| 0 <= j < i ==> r@[j] == m@[j],
        decreases N - i,
    {
        r[i] = m[i];
        i += 1;
    }
    assert(r@ =~= m@);
    r
}

/// A native `int` buffer (pointer and length) as a managed `int[]`: a copy.
pub fn ints_to_managed(b: &[i32]) -> (r: Vec<i32>)
    ensures
        r@ == b@,
{
    let mut r: Vec<i32> = Vec::with_capacity(b.len());
    let mut i: usize = 0;
    while i < b.len()
        invariant
            i <= b@.len(),
            r@ == b@.take(i as int),
        decreases b@.len() - i,
    {
        r.push(b[i]);
        i += 1;
        assert(r@ =~= b@.take(i as int));
    }
    assert(b@.take(b@.len() as int) =~= b@);
    r
}

/// Reading a managed `byte[]` back into native bytes restores a native buffer
/// byte for byte, and with it its length; the same holds the other way round.
pub proof fn lemma_bytes_round_trip(b: Seq<u8>, m: Seq<i8>)
    ensures
        native_bytes(managed_bytes(b)) == b,
        managed_bytes(native_bytes(m)) == m,
        managed_bytes(b).len() == b.len(),
{
    lemma_pow2_values();
    assert forall|i: int| 0 <= i < b.len() implies native_bytes(managed_bytes(b))[i] == b[i] by {
        lemma_unsigned_round_trip(b[i] as int, 0, 8);
    }
    assert forall|i: int| 0 <= i < m.len() implies managed_bytes(native_bytes(m))[i] == m[i] by {
        lemma_unsigned_round_trip(0, m[i] as int, 8);
    }
    assert(native_bytes(managed_bytes(b)) =~= b);
    assert(managed_bytes(native_bytes(m)) =~= m);
}

/// A fixed-size native byte array sent to the managed side and read back as
/// an array of the same size keeps its length and every byte.
pub proof fn lemma_fixed_bytes_round_trip<const N: usize>(a: [u8; N], m: Seq<i8>, back: [u8; N])
    requires
        m == managed_bytes(a@),
        back@ == native_bytes(m),
    ensures
        m.len() == N,
        back@ == a@,
        back == a,
{
    lemma_bytes_round_trip(a@, m);
    assert(back =~= a);
}

/// No byte of `s` is the NUL terminator.
pub open spec fn has_no_nul(s: Seq<u8>) -> bool {
    forall|i: int| 0 <= i < s.len() ==> s[i] != 0
}

/// `s` holds a NUL terminator.
pub open spec fn has_nul(s: Seq<u8>) -> bool {
    exists|i: int| 0 <= i < s.len() && s[i] == 0
}

/// The text of a NUL-terminated string: its bytes before the first NUL.
pub open spec fn c_string_text(c: Seq<u8>, t: Seq<u8>) -> bool {
    t.len() < c.len() && c[t.len() as int] == 0 && has_no_nul(t) && t == c.take(t.len() as int)
}

/// A managed string's bytes as a newly allocated NUL-terminated native string.
///
/// The managed runtime's string encoding never holds a zero byte.
pub fn c_string_from_managed(s: &[u8]) -> (r: Vec<u8>)
    requires
        has_no_nul(s@),
    ensures
        r@ == s@.push(0),
{
    let mut r: Vec<u8> = Vec::with_capacity(s.len());
    let mut i: usize = 0;
    while i < s.len()
        invariant
            i <= s@.len(),
            r@ == s@.take(i as int),
        decreases s@.len() - i,
    {
        r.push(s[i]);
        i += 1;
        assert(r@ =~= s@.take(i as int));
    }
    assert(s@.take(s@.len() as int) =~= s@);
    r.push(0);
    r
}

/// A native NUL-terminated string as the bytes of a managed string, without
/// the terminator.
pub fn c_string_to_managed(c: &[u8]) -> (r: Vec<u8>)
    requires
        has_nul(c@),
    ensures
        c_string_text(c@, r@),
{
    let mut r: Vec<u8> = Vec::new();
    let mut i: usize = 0;
    while c[i] != 0
        invariant
            i < c@.len(),
            has_nul(c@),
            r@ == c@.take(i as int),
            has_no_nul(r@),
        decreases c@.len() - i,
    {
        r.push(c[i]);
        i += 1;
        assert(r@ =~= c@.take(i as int));
        assert(i < c@.len()) by {
            let k = choose|k: int| 0 <= k < c@.len() && c@[k] == 0;
            assert(k >= i) by {
                if k < i {
                    assert(r@[k] == c@[k]);
                }
            }
        }
    }
    r
}

/// A string handed to the native side and read back is byte-equal to the
/// string sent: its text is recovered exactly, and nothing else is.
pub proof fn lemma_c_string_round_trip(s: Seq<u8>, t: Seq<u8>)
    requires
        has_no_nul(s),
        c_string_text(s.push(0), t),
    ensures
        t == s,
{
    if t.len() < s.len() {
        assert(s.push(0)[t.len() as int] == s[t.len() as int]);
    }
    assert(t.len() == s.len());
    assert(t =~= s);
}

/// Every NUL-terminated string has exactly one text.
pub proof fn lemma_c_string_text_unique(c: Seq<u8>, t1: Seq<u8>, t2: Seq<u8>)
    requires
        c_string_text(c, t1),
        c_string_text(c, t2),
    ensures
        t1 == t2,
{
    if t1.len() < t2.len() {
        assert(t2[t1.len() as int] == c[t1.len() as int]);
    } else if t2.len() < t1.len() {
        assert(t1[t2.len() as int] == c[t2.len() as int]);
    }
}

} // verus!
