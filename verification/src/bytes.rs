//! Fixed-width integers as bytes, and reading them back from a buffer.

use vstd::prelude::*;

verus! {

/// The number of values that `width` bytes can hold.
pub open spec fn limit(width: nat) -> nat
    decreases width,
{
    if width == 0 {
        1
    } else {
        256 * limit((width - 1) as nat)
    }
}

/// The `width` bytes of `n`, least significant first.
pub open spec fn le_bytes(n: nat, width: nat) -> Seq<u8>
    decreases width,
{
    if width == 0 {
        Seq::empty()
    } else {
        seq![(n % 256) as u8] + le_bytes(n / 256, (width - 1) as nat)
    }
}

/// The number whose bytes, least significant first, are `b`.
pub open spec fn le_value(b: Seq<u8>) -> nat
    decreases b.len(),
{
    if b.len() == 0 {
        0
    } else {
        b[0] as nat + 256 * le_value(b.drop_first())
    }
}

/// The `width` bytes of `n`, most significant first.
pub open spec fn be_bytes(n: nat, width: nat) -> Seq<u8>
    decreases width,
{
    if width == 0 {
        Seq::empty()
    } else {
        be_bytes(n / 256, (width - 1) as nat).push((n % 256) as u8)
    }
}

/// The number whose bytes, most significant first, are `b`.
pub open spec fn be_value(b: Seq<u8>) -> nat
    decreases b.len(),
{
    if b.len() == 0 {
        0
    } else {
        256 * be_value(b.drop_last()) + b.last() as nat
    }
}

/// The sizes that the integer types of the wire format come in.
pub proof fn lemma_limits()
    ensures
        limit(0) == 1,
        limit(1) == 0x100,
        limit(2) == 0x1_0000,
        limit(4) == 0x1_0000_0000,
        limit(8) == 0x1_0000_0000_0000_0000,
        limit(16) == 0x1_0000_0000_0000_0000_0000_0000_0000_0000,
{
    reveal_with_fuel(limit, 17);
}

/// Bytes written least significant first are read back as the number.
pub proof fn lemma_le_round_trip(n: nat, width: nat)
    requires
        n < limit(width),
    ensures
        le_bytes(n, width).len() == width,
        le_value(le_bytes(n, width)) == n,
    decreases width,
{
    if width > 0 {
        let rest = le_bytes(n / 256, (width - 1) as nat);
        lemma_le_round_trip(n / 256, (width - 1) as nat);
        assert(le_bytes(n, width).drop_first() =~= rest);
    }
}

/// Any `width` bytes are a number below the limit of that width, and writing
/// that number gives the bytes back.
pub proof fn lemma_le_value_bound(b: Seq<u8>)
    ensures
        le_value(b) < limit(b.len()),
        le_bytes(le_value(b), b.len()) == b,
    decreases b.len(),
{
    if b.len() > 0 {
        lemma_le_value_bound(b.drop_first());
        let v = le_value(b.drop_first());
        assert((b[0] as nat + 256 * v) / 256 == v);
        assert((b[0] as nat + 256 * v) % 256 == b[0] as nat);
        assert(le_bytes(le_value(b), b.len()) =~= b);
    } else {
        assert(le_bytes(0, 0) =~= b);
    }
}

/// Bytes written most significant first are read back as the number.
pub proof fn lemma_be_round_trip(n: nat, width: nat)
    requires
        n < limit(width),
    ensures
        be_bytes(n, width).len() == width,
        be_value(be_bytes(n, width)) == n,
    decreases width,
{
    if width > 0 {
        let rest = be_bytes(n / 256, (width - 1) as nat);
        lemma_be_round_trip(n / 256, (width - 1) as nat);
        assert(be_bytes(n, width).drop_last() =~= rest);
    }
}

/// Any `width` bytes, read most significant first, are a number below the
/// limit of that width.
pub proof fn lemma_be_value_bound(b: Seq<u8>)
    ensures
        be_value(b) < limit(b.len()),
    decreases b.len(),
{
    if b.len() > 0 {
        lemma_be_value_bound(b.drop_last());
    }
}

/// A copy of the `len` bytes of `buf` from position `from` on.
pub fn copy_range(buf: &[u8], from: usize, len: usize) -> (out: Vec<u8>)
    requires
        from + len <= buf@.len(),
    ensures
        out@ == buf@.subrange(from as int, from + len),
{
    let total = buf.len();
    let mut out: Vec<u8> = Vec::new();
    let mut i: usize = 0;
    while i < len
        invariant
            i <= len,
            from + len <= buf@.len() == total,
            out@ == buf@.subrange(from as int, from + i),
        decreases len - i,
    {
        out.push(buf[from + i]);
        assert(buf@.subrange(from as int, from + i + 1) =~= buf@.subrange(
            from as int,
            from + i,
        ).push(buf@[from + i]));
        i += 1;
    }
    out
}

/// A wider integer has a larger limit.
pub proof fn lemma_limit_grows(a: nat, b: nat)
    requires
        a <= b,
    ensures
        limit(a) <= limit(b),
        limit(a) >= 1,
    decreases b,
{
    if a < b {
        lemma_limit_grows(a, (b - 1) as nat);
    } else if a > 0 {
        lemma_limit_grows((a - 1) as nat, (b - 1) as nat);
    }
}

/// Appends the `width` bytes of `n`, least significant first.
pub fn put_le(out: &mut Vec<u8>, n: u64, width: usize)
    requires
        width <= 8,
    ensures
        final(out)@ == old(out)@ + le_bytes(n as nat, width as nat),
{
    let mut rest = n;
    let mut i: usize = 0;
    let ghost want = out@ + le_bytes(n as nat, width as nat);
    while i < width
        invariant
            i <= width <= 8,
            want == out@ + le_bytes(rest as nat, (width - i) as nat),
        decreases width - i,
    {
        let ghost before = out@;
        out.push((rest % 256) as u8);
        assert(before + le_bytes(rest as nat, (width - i) as nat) =~= out@ + le_bytes(
            (rest / 256) as nat,
            (width - i - 1) as nat,
        ));
        rest = rest / 256;
        i += 1;
    }
    assert(out@ + le_bytes(rest as nat, 0) =~= out@);
}

/// Appends the `width` bytes of `n`, most significant first.
pub fn put_be(out: &mut Vec<u8>, n: u128, width: usize)
    requires
        width <= 16,
    ensures
        final(out)@ == old(out)@ + be_bytes(n as nat, width as nat),
    decreases width,
{
    if width > 0 {
        put_be(out, n / 256, width - 1);
        out.push((n % 256) as u8);
        assert(final(out)@ =~= old(out)@ + be_bytes(n as nat, width as nat));
    } else {
        assert(old(out)@ + be_bytes(n as nat, 0) =~= old(out)@);
    }
}

/// Reads `width` bytes at `pos` as a number, least significant byte first.
pub fn get_le(buf: &[u8], pos: usize, width: usize) -> (n: u64)
    requires
        width <= 8,
        pos + width <= buf@.len(),
    ensures
        n == le_value(buf@.subrange(pos as int, pos + width)),
{
    let mut n: u64 = 0;
    let mut j: usize = width;
    let len = buf.len();
    let ghost end = pos + width;
    assert(buf@.subrange(end, end).len() == 0);
    while j > 0
        invariant
            j <= width <= 8,
            end == pos + width,
            end <= buf@.len() == len,
            n == le_value(buf@.subrange(pos + j, end)),
        decreases j,
    {
        let ghost tail = buf@.subrange(pos + j, end);
        let ghost next = buf@.subrange(pos + j - 1, end);
        proof {
            lemma_le_value_bound(tail);
            lemma_limit_grows(tail.len(), 7);
            lemma_limits();
            reveal_with_fuel(limit, 8);
            assert(next.drop_first() =~= tail);
        }
        j -= 1;
        n = n * 256 + buf[pos + j] as u64;
    }
    n
}

/// Reads `width` bytes at `pos` as a number, most significant byte first.
pub fn get_be(buf: &[u8], pos: usize, width: usize) -> (n: u128)
    requires
        width <= 16,
        pos + width <= buf@.len(),
    ensures
        n == be_value(buf@.subrange(pos as int, pos + width)),
{
    let mut n: u128 = 0;
    let mut j: usize = 0;
    let len = buf.len();
    assert(buf@.subrange(pos as int, pos as int).len() == 0);
    while j < width
        invariant
            j <= width <= 16,
            pos + width <= buf@.len() == len,
            n == be_value(buf@.subrange(pos as int, pos + j)),
        decreases width - j,
    {
        let ghost head = buf@.subrange(pos as int, pos + j);
        let ghost next = buf@.subrange(pos as int, pos + j + 1);
        proof {
            lemma_be_value_bound(head);
            lemma_limit_grows(head.len(), 15);
            lemma_limits();
            reveal_with_fuel(limit, 16);
            assert(next.drop_last() =~= head);
        }
        n = n * 256 + buf[pos + j] as u128;
        j += 1;
    }
    n
}

} // verus!
