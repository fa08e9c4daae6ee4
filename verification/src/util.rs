use vstd::prelude::*;

verus! {

/// Whether `n` is a power of two; valid alignments must satisfy this.
pub open spec fn spec_power_of_two(n: nat) -> bool
    decreases n,
{
    if n == 0 {
        false
    } else if n == 1 {
        true
    } else {
        n % 2 == 0 && spec_power_of_two(n / 2)
    }
}

/// Decides whether an alignment value is a power of two.
pub fn is_power_of_two(n: usize) -> (r: bool)
    ensures
        r == spec_power_of_two(n as nat),
{
    let mut m: usize = n;
    if m == 0 {
        return false;
    }
    while m > 1
        invariant
            m >= 1,
            spec_power_of_two(n as nat) == spec_power_of_two(m as nat),
        decreases m,
    {
        if m % 2 != 0 {
            return false;
        }
        m = m / 2;
    }
    true
}

/// Compares two byte slices for equality of their contents.
pub fn bytes_eq(a: &[u8], b: &[u8]) -> (r: bool)
    ensures
        r == (a@ == b@),
{
    if a.len() != b.len() {
        assert(a@ != b@) by {
            assert(a@.len() != b@.len());
        }
        return false;
    }
    let n: usize = a.len();
    let mut i: usize = 0;
    while i < n
        invariant
            n == a@.len() && n == b@.len(),
            0 <= i <= n,
            forall|j: int| 0 <= j < i ==> a@[j] == b@[j],
        decreases n - i,
    {
        if a[i] != b[i] {
            assert(a@ != b@);
            return false;
        }
        i = i + 1;
    }
    assert(a@ =~= b@);
    true
}

/// `i` is the first index of `v` in `s`.
pub open spec fn is_first_index_of(s: Seq<u8>, v: u8, i: int) -> bool {
    &&& 0 <= i < s.len()
    &&& s[i] == v
    &&& forall|j: int| 0 <= j < i ==> s[j] != v
}

/// `i` is the last index of `v` in `s`.
pub open spec fn is_last_index_of(s: Seq<u8>, v: u8, i: int) -> bool {
    &&& 0 <= i < s.len()
    &&& s[i] == v
    &&& forall|j: int| i < j < s.len() ==> s[j] != v
}

/// A window of `n` zero bytes.
pub open spec fn spec_zeros(n: nat) -> Seq<u8> {
    Seq::new(n, |i: int| 0u8)
}

/// A vector of `n` zero bytes.
pub fn zero_vec(n: usize) -> (r: Vec<u8>)
    ensures
        r@ == Seq::new(n as nat, |i: int| 0u8),
{
    let mut v: Vec<u8> = Vec::new();
    let mut i: usize = 0;
    while i < n
        invariant
            0 <= i <= n,
            v@ == Seq::new(i as nat, |j: int| 0u8),
        decreases n - i,
    {
        v.push(0u8);
        assert(v@ =~= Seq::new((i + 1) as nat, |j: int| 0u8));
        i = i + 1;
    }
    v
}

/// `256` raised to the power `n`: the number of values of an `n`-byte
/// unsigned integer.
pub open spec fn spec_pow256(n: nat) -> nat
    decreases n,
{
    if n == 0 {
        1
    } else {
        256 * spec_pow256((n - 1) as nat)
    }
}

/// The power function grows with its exponent.
pub proof fn lemma_pow256_increases(a: nat, b: nat)
    requires
        a <= b,
    ensures
        spec_pow256(a) <= spec_pow256(b),
    decreases b,
{
    if a < b {
        lemma_pow256_increases(a, (b - 1) as nat);
        assert(spec_pow256(b) == 256 * spec_pow256((b - 1) as nat));
        assert(spec_pow256((b - 1) as nat) >= 1) by {
            lemma_pow256_at_least_one((b - 1) as nat);
        }
    }
}

/// The power function is at least one.
pub proof fn lemma_pow256_at_least_one(n: nat)
    ensures
        spec_pow256(n) >= 1,
    decreases n,
{
    if n > 0 {
        lemma_pow256_at_least_one((n - 1) as nat);
    }
}

/// Decides whether `key` is representable in a `size`-byte unsigned
/// integer.
pub fn key_fits(key: usize, size: usize) -> (r: bool)
    ensures
        r == ((key as nat) < spec_pow256(size as nat)),
{
    if size >= 8 {
        proof {
            assert(spec_pow256(8) == 0x1_0000_0000_0000_0000) by {
                assert(spec_pow256(0) == 1);
                assert(spec_pow256(1) == 0x100);
                assert(spec_pow256(2) == 0x1_0000);
                assert(spec_pow256(3) == 0x100_0000);
                assert(spec_pow256(4) == 0x1_0000_0000);
                assert(spec_pow256(5) == 0x100_0000_0000);
                assert(spec_pow256(6) == 0x1_0000_0000_0000);
                assert(spec_pow256(7) == 0x100_0000_0000_0000);
            }
            lemma_pow256_increases(8, size as nat);
        }
        return true;
    }
    let mut t: u64 = 1;
    let mut i: usize = 0;
    while i < size
        invariant
            0 <= i <= size,
            size < 8,
            t == spec_pow256(i as nat),
            t <= 0x100_0000_0000_0000,
        decreases size - i,
    {
        proof {
            lemma_pow256_increases(i as nat, 6);
            assert(spec_pow256(6) == 0x1_0000_0000_0000) by {
                assert(spec_pow256(0) == 1);
                assert(spec_pow256(1) == 0x100);
                assert(spec_pow256(2) == 0x1_0000);
                assert(spec_pow256(3) == 0x100_0000);
                assert(spec_pow256(4) == 0x1_0000_0000);
                assert(spec_pow256(5) == 0x100_0000_0000);
            }
        }
        t = t * 256;
        i = i + 1;
    }
    (key as u64) < t
}

/// The little-endian encoding of `v` in `n` bytes (the value is taken
/// modulo `256^n`).
pub open spec fn spec_le_bytes(v: nat, n: nat) -> Seq<u8>
    decreases n,
{
    if n == 0 {
        Seq::empty()
    } else {
        seq![(v % 256) as u8] + spec_le_bytes(v / 256, (n - 1) as nat)
    }
}

/// The little-endian encoding has exactly `n` bytes.
pub proof fn lemma_le_bytes_len(v: nat, n: nat)
    ensures
        spec_le_bytes(v, n).len() == n,
    decreases n,
{
    if n > 0 {
        lemma_le_bytes_len(v / 256, (n - 1) as nat);
    }
}

/// Encodes `v` as `n` little-endian bytes.
pub fn u64_le_bytes(v: u64, n: usize) -> (r: Vec<u8>)
    ensures
        r@ == spec_le_bytes(v as nat, n as nat),
{
    let mut out: Vec<u8> = Vec::new();
    let mut cur: u64 = v;
    let mut i: usize = 0;
    while i < n
        invariant
            0 <= i <= n,
            spec_le_bytes(v as nat, n as nat) == out@ + spec_le_bytes(
                cur as nat,
                (n - i) as nat,
            ),
            out@.len() == i,
        decreases n - i,
    {
        let b: u8 = (cur % 256) as u8;
        proof {
            assert(spec_le_bytes(cur as nat, (n - i) as nat) == seq![
                (cur as nat % 256) as u8,
            ] + spec_le_bytes(cur as nat / 256, (n - i - 1) as nat));
            assert(out@ + spec_le_bytes(cur as nat, (n - i) as nat) =~= out@.push(b)
                + spec_le_bytes(cur as nat / 256, (n - i - 1) as nat));
        }
        out.push(b);
        cur = cur / 256;
        i = i + 1;
    }
    proof {
        assert(spec_le_bytes(cur as nat, 0) =~= Seq::<u8>::empty());
        assert(out@ + spec_le_bytes(cur as nat, 0) =~= out@);
    }
    out
}

} // verus!
