use vstd::prelude::*;

verus! {

/// Byte order of multi-byte fields.
#[derive(PartialEq, Eq, Debug, Clone, Copy, Structural)]
pub enum Endianness {
    Little,
    Big,
}

/// Unsigned value of `s` read least significant byte first.
pub open spec fn uint_le(s: Seq<u8>) -> nat
    decreases s.len(),
{
    if s.len() == 0 {
        0
    } else {
        s[0] as nat + 256 * uint_le(s.drop_first())
    }
}

/// Unsigned value of `s` read most significant byte first.
pub open spec fn uint_be(s: Seq<u8>) -> nat
    decreases s.len(),
{
    if s.len() == 0 {
        0
    } else {
        uint_be(s.drop_last()) * 256 + s.last() as nat
    }
}

/// Unsigned value of the `n` bytes of `b` that start at `off`, in byte order `e`.
pub open spec fn uint_at(b: Seq<u8>, off: int, n: int, e: Endianness) -> nat {
    let s = b.subrange(off, off + n);
    match e {
        Endianness::Little => uint_le(s),
        Endianness::Big => uint_be(s),
    }
}

/// `256^n`: one more than the largest value of `n` bytes.
pub open spec fn byte_bound(n: nat) -> nat
    decreases n,
{
    if n == 0 {
        1
    } else {
        256 * byte_bound((n - 1) as nat)
    }
}

pub proof fn lemma_uint_le_bound(s: Seq<u8>)
    ensures
        uint_le(s) < byte_bound(s.len()),
    decreases s.len(),
{
    if s.len() > 0 {
        lemma_uint_le_bound(s.drop_first());
    }
}

pub proof fn lemma_uint_be_bound(s: Seq<u8>)
    ensures
        uint_be(s) < byte_bound(s.len()),
    decreases s.len(),
{
    if s.len() > 0 {
        lemma_uint_be_bound(s.drop_last());
    }
}

pub proof fn lemma_byte_bounds()
    ensures
        byte_bound(1) == 0x100,
        byte_bound(2) == 0x1_0000,
        byte_bound(4) == 0x1_0000_0000,
        byte_bound(7) == 0x100_0000_0000_0000,
        byte_bound(8) == 0x1_0000_0000_0000_0000,
{
    reveal_with_fuel(byte_bound, 9);
}

/// Reads the `n` bytes of `b` at `off` as an unsigned integer in byte order `e`.
pub fn read_uint(b: &[u8], off: usize, n: usize, e: Endianness) -> (r: u64)
    requires
        n <= 8,
        off + n <= b@.len(),
    ensures
        r == uint_at(b@, off as int, n as int, e),
{
    let ghost s = b@.subrange(off as int, off + n);
    proof {
        lemma_byte_bounds();
    }
    let len = b.len();
    let mut v: u64 = 0;
    match e {
        Endianness::Little => {
            let mut i: usize = n;
            while i > 0
                invariant
                    n <= 8,
                    off + n <= len,
                    len == b@.len(),
                    s == b@.subrange(off as int, off + n),
                    i <= n,
                    v == uint_le(s.subrange(i as int, n as int)),
                    v < byte_bound((n - i) as nat),
                decreases i,
            {
                let ghost rest = s.subrange(i as int, n as int);
                let ghost next = s.subrange(i - 1, n as int);
                assert(next.drop_first() =~= rest);
                proof {
                    lemma_byte_bounds();
                    assert(byte_bound((n - i + 1) as nat) == 256 * byte_bound((n - i) as nat));
                    assert(byte_bound((n - i) as nat) <= byte_bound(7)) by {
                        lemma_byte_bound_mono((n - i) as nat, 7);
                    }
                }
                v = v * 256 + b[off + i - 1] as u64;
                i = i - 1;
            }
            assert(s.subrange(0, n as int) =~= s);
        },
        Endianness::Big => {
            let mut i: usize = 0;
            while i < n
                invariant
                    n <= 8,
                    off + n <= len,
                    len == b@.len(),
                    s == b@.subrange(off as int, off + n),
                    i <= n,
                    v == uint_be(s.subrange(0, i as int)),
                    v < byte_bound(i as nat),
                decreases n - i,
            {
                let ghost prev = s.subrange(0, i as int);
                let ghost next = s.subrange(0, i + 1);
                assert(next.drop_last() =~= prev);
                proof {
                    lemma_byte_bounds();
                    assert(byte_bound((i + 1) as nat) == 256 * byte_bound(i as nat));
                    assert(byte_bound(i as nat) <= byte_bound(7)) by {
                        lemma_byte_bound_mono(i as nat, 7);
                    }
                }
                v = v * 256 + b[off + i] as u64;
                i = i + 1;
            }
            assert(s.subrange(0, n as int) =~= s);
        },
    }
    v
}

pub proof fn lemma_byte_bound_mono(a: nat, b: nat)
    requires
        a <= b,
    ensures
        byte_bound(a) <= byte_bound(b),
    decreases b,
{
    if a < b {
        lemma_byte_bound_mono(a, (b - 1) as nat);
    }
}

/// Reads a 2-byte unsigned integer at `off`.
pub fn read_u16(b: &[u8], off: usize, e: Endianness) -> (r: u16)
    requires
        off + 2 <= b@.len(),
    ensures
        r == uint_at(b@, off as int, 2, e),
{
    let v = read_uint(b, off, 2, e);
    proof {
        lemma_uint_at_bound(b@, off as int, 2, e);
        lemma_byte_bounds();
    }
    v as u16
}

/// Reads a 4-byte unsigned integer at `off`.
pub fn read_u32(b: &[u8], off: usize, e: Endianness) -> (r: u32)
    requires
        off + 4 <= b@.len(),
    ensures
        r == uint_at(b@, off as int, 4, e),
{
    let v = read_uint(b, off, 4, e);
    proof {
        lemma_uint_at_bound(b@, off as int, 4, e);
        lemma_byte_bounds();
    }
    v as u32
}

pub proof fn lemma_uint_at_bound(b: Seq<u8>, off: int, n: int, e: Endianness)
    requires
        0 <= off,
        0 <= n,
        off + n <= b.len(),
    ensures
        uint_at(b, off, n, e) < byte_bound(n as nat),
{
    let s = b.subrange(off, off + n);
    lemma_uint_le_bound(s);
    lemma_uint_be_bound(s);
}

} // verus!
