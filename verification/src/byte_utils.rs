//! Big-endian reading and writing of unsigned integers and fixed-width byte
//! fields, the primitives of every wire format in this crate.

use vstd::prelude::*;

verus! {

/// `256^n`: the number of distinct values that `n` bytes can hold.
pub open spec fn pow256(n: nat) -> nat
    decreases n,
{
    if n == 0 {
        1
    } else {
        256 * pow256((n - 1) as nat)
    }
}

/// The unsigned integer that `s` encodes, most significant byte first.
pub open spec fn be_value(s: Seq<u8>) -> nat
    decreases s.len(),
{
    if s.len() == 0 {
        0
    } else {
        be_value(s.drop_last()) * 256 + s.last() as nat
    }
}

/// The `n` low-order bytes of `x`, most significant byte first.
pub open spec fn be_bytes(x: nat, n: nat) -> Seq<u8>
    decreases n,
{
    if n == 0 {
        Seq::empty()
    } else {
        be_bytes(x / 256, (n - 1) as nat).push((x % 256) as u8)
    }
}

/// `pow256` grows with its exponent.
pub proof fn lemma_pow256_mono(a: nat, b: nat)
    requires
        a <= b,
    ensures
        1 <= pow256(a) <= pow256(b),
    decreases b,
{
    if b > a {
        lemma_pow256_mono(a, (b - 1) as nat);
    } else if a > 0 {
        lemma_pow256_mono((a - 1) as nat, (a - 1) as nat);
    }
}

/// The widths used by the wire formats, as concrete numbers.
pub proof fn lemma_pow256_values()
    ensures
        pow256(1) == 0x100,
        pow256(2) == 0x1_0000,
        pow256(4) == 0x1_0000_0000,
        pow256(8) == 0x1_0000_0000_0000_0000,
        pow256(16) == 0x1_0000_0000_0000_0000_0000_0000_0000_0000,
{
    reveal_with_fuel(pow256, 17);
}

/// An encoding of `n` bytes has length `n`.
pub proof fn lemma_be_bytes_len(x: nat, n: nat)
    ensures
        be_bytes(x, n).len() == n,
    decreases n,
{
    if n > 0 {
        lemma_be_bytes_len(x / 256, (n - 1) as nat);
    }
}

/// The value that `s` encodes fits in `s.len()` bytes.
pub proof fn lemma_be_value_bound(s: Seq<u8>)
    ensures
        be_value(s) < pow256(s.len()),
    decreases s.len(),
{
    if s.len() > 0 {
        lemma_be_value_bound(s.drop_last());
    }
}

/// Encoding a value that fits in `n` bytes, then decoding it, gives the value back.
pub proof fn lemma_be_value_of_bytes(x: nat, n: nat)
    requires
        x < pow256(n),
    ensures
        be_value(be_bytes(x, n)) == x,
    decreases n,
{
    if n > 0 {
        let p = pow256((n - 1) as nat);
        assert(x / 256 < p) by (nonlinear_arith)
            requires
                x < 256 * p,
        ;
        lemma_be_value_of_bytes(x / 256, (n - 1) as nat);
        let b = be_bytes(x, n);
        assert(b.drop_last() =~= be_bytes(x / 256, (n - 1) as nat));
    } else {
        assert(x == 0);
    }
}

/// Decoding `s`, then encoding the value in `s.len()` bytes, gives `s` back.
pub proof fn lemma_bytes_of_be_value(s: Seq<u8>)
    ensures
        be_bytes(be_value(s), s.len()) =~= s,
    decreases s.len(),
{
    if s.len() > 0 {
        let v = be_value(s);
        let w = be_value(s.drop_last());
        assert(v / 256 == w && v % 256 == s.last() as nat) by (nonlinear_arith)
            requires
                v == w * 256 + s.last() as nat,
                s.last() < 256,
        ;
        lemma_bytes_of_be_value(s.drop_last());
        assert(s.drop_last().push(s.last()) =~= s);
    }
}

/// A single byte encodes itself.
pub proof fn lemma_be_value_single(s: Seq<u8>)
    requires
        s.len() == 1,
    ensures
        be_value(s) == s[0] as nat,
{
    assert(s.drop_last().len() == 0);
    assert(be_value(s.drop_last()) == 0);
}

/// Big-endian order: a single byte encodes itself, and the bytes in front
/// weigh `256^k` times more than the `k` bytes behind them.
pub proof fn lemma_be_value_concat(s1: Seq<u8>, s2: Seq<u8>)
    ensures
        s2.len() == 1 ==> be_value(s2) == s2[0] as nat,
        be_value(s1 + s2) == be_value(s1) * pow256(s2.len()) + be_value(s2),
    decreases s2.len(),
{
    if s2.len() == 1 {
        lemma_be_value_single(s2);
    }
    if s2.len() == 0 {
        assert(s1 + s2 =~= s1);
        assert(pow256(0) == 1);
        assert(be_value(s2) == 0);
        assert(be_value(s1) * 1 == be_value(s1));
    } else {
        let t = s2.drop_last();
        lemma_be_value_concat(s1, t);
        assert((s1 + s2).drop_last() =~= s1 + t);
        let p = pow256(t.len());
        let a = be_value(s1);
        let b = be_value(t);
        assert((s1 + s2).last() == s2.last());
        assert(pow256(s2.len()) == 256 * p);
        assert(be_value(s1 + s2) == be_value(s1 + t) * 256 + s2.last() as nat);
        assert(be_value(s2) == b * 256 + s2.last() as nat);
        assert(be_value(s1 + t) == a * p + b);
        assert((a * p + b) * 256 + s2.last() as nat == a * (256 * p) + (b * 256 + s2.last() as nat))
            by (nonlinear_arith);
    }
}

/// Reads the `width` bytes of `data` from `index` on as a big-endian integer.
pub fn read_be(data: &[u8], index: usize, width: usize) -> (r: u128)
    requires
        width <= 16,
        index + width <= data@.len(),
    ensures
        r as nat == be_value(data@.subrange(index as int, index + width)),
{
    let len = data.len();
    let mut acc: u128 = 0;
    let mut i: usize = 0;
    while i < width
        invariant
            len == data@.len(),
            i <= width,
            width <= 16,
            index + width <= data@.len(),
            acc as nat == be_value(data@.subrange(index as int, index + i)),
        decreases width - i,
    {
        let ghost prefix = data@.subrange(index as int, index + i);
        let ghost next = data@.subrange(index as int, index + i + 1);
        proof {
            lemma_be_value_bound(prefix);
            lemma_pow256_mono((i + 1) as nat, 16);
            lemma_pow256_values();
            assert(next.drop_last() =~= prefix);
        }
        acc = acc * 256 + data[index + i] as u128;
        i = i + 1;
    }
    acc
}

/// The byte at `index`.
pub fn get_u8(data: &[u8], index: usize) -> (r: u8)
    requires
        index < data@.len(),
    ensures
        r == data@[index as int],
{
    data[index]
}

/// The big-endian `u16` at `index`.
pub fn get_u16(data: &[u8], index: usize) -> (r: u16)
    requires
        index + 2 <= data@.len(),
    ensures
        r as nat == be_value(data@.subrange(index as int, index + 2)),
{
    let v = read_be(data, index, 2);
    proof {
        lemma_be_value_bound(data@.subrange(index as int, index + 2));
        lemma_pow256_values();
    }
    v as u16
}

/// The big-endian `u32` at `index`.
pub fn get_u32(data: &[u8], index: usize) -> (r: u32)
    requires
        index + 4 <= data@.len(),
    ensures
        r as nat == be_value(data@.subrange(index as int, index + 4)),
{
    let v = read_be(data, index, 4);
    proof {
        lemma_be_value_bound(data@.subrange(index as int, index + 4));
        lemma_pow256_values();
    }
    v as u32
}

/// The big-endian `u64` at `index`.
pub fn get_u64(data: &[u8], index: usize) -> (r: u64)
    requires
        index + 8 <= data@.len(),
    ensures
        r as nat == be_value(data@.subrange(index as int, index + 8)),
{
    let v = read_be(data, index, 8);
    proof {
        lemma_be_value_bound(data@.subrange(index as int, index + 8));
        lemma_pow256_values();
    }
    v as u64
}

/// The big-endian `u128` at `index`.
pub fn get_u128_be(data: &[u8], index: usize) -> (r: u128)
    requires
        index + 16 <= data@.len(),
    ensures
        r as nat == be_value(data@.subrange(index as int, index + 16)),
{
    read_be(data, index, 16)
}

/// The two big-endian `u128` halves of the 256-bit integer at `index`.
pub fn get_u256(data: &[u8], index: usize) -> (r: (u128, u128))
    requires
        index + 32 <= data@.len(),
    ensures
        r.0 as nat == be_value(data@.subrange(index as int, index + 16)),
        r.1 as nat == be_value(data@.subrange(index + 16, index + 32)),
{
    let _len = data.len();
    (get_u128_be(data, index), get_u128_be(data, index + 16))
}

/// Appends the bytes of `data` from `from` up to `to` to `out`.
pub fn append_range(out: &mut Vec<u8>, data: &[u8], from: usize, to: usize)
    requires
        from <= to <= data@.len(),
    ensures
        final(out)@ == old(out)@ + data@.subrange(from as int, to as int),
{
    let mut i = from;
    while i < to
        invariant
            from <= i <= to,
            to <= data@.len(),
            out@ == old(out)@ + data@.subrange(from as int, i as int),
        decreases to - i,
    {
        out.push(data[i]);
        proof {
            assert(data@.subrange(from as int, i + 1) =~= data@.subrange(from as int, i as int).push(
                data@[i as int],
            ));
        }
        i = i + 1;
    }
}

/// The `N` bytes of `data` from `index` on, as a vector (`N` = 32 for addresses).
pub fn get_bytes32(data: &[u8], index: usize) -> (r: Vec<u8>)
    requires
        index + 32 <= data@.len(),
    ensures
        r@ == data@.subrange(index as int, index + 32),
{
    let _len = data.len();
    let mut out: Vec<u8> = Vec::new();
    append_range(&mut out, data, index, index + 32);
    proof {
        assert(out@ =~= data@.subrange(index as int, index + 32));
    }
    out
}

/// A copy of `data`.
pub fn to_vec(data: &[u8]) -> (r: Vec<u8>)
    ensures
        r@ == data@,
{
    let n = data.len();
    let mut out: Vec<u8> = Vec::new();
    append_range(&mut out, data, 0, n);
    proof {
        assert(out@ =~= data@);
    }
    out
}

/// Appends the `width` low-order bytes of `x` to `out`, most significant first.
pub fn push_be(out: &mut Vec<u8>, x: u128, width: usize)
    requires
        width <= 16,
    ensures
        final(out)@ == old(out)@ + be_bytes(x as nat, width as nat),
    decreases width,
{
    if width == 0 {
        proof {
            assert(old(out)@ + be_bytes(x as nat, 0) =~= old(out)@);
        }
    } else {
        push_be(out, x / 256, width - 1);
        out.push((x % 256) as u8);
        proof {
            assert(be_bytes(x as nat, width as nat) == be_bytes((x / 256) as nat, (width - 1) as nat).push(
                (x % 256) as u8,
            ));
            assert(out@ =~= old(out)@ + be_bytes(x as nat, width as nat));
        }
    }
}

} // verus!
