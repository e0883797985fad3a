//! Numbers as runs of bytes, most significant byte first.

use vstd::prelude::*;

use crate::buffer::{be16, be32, be64};
use crate::ingest::demuxer::{num16, num24, num32};
use crate::ingest::rtmp::num32_le;
use crate::package::hls::{be24, be32_value};

verus! {

/// The number that bytes write, most significant first.
pub open spec fn number(s: Seq<u8>) -> nat
    decreases s.len(),
{
    if s.len() == 0 {
        0
    } else {
        number(s.drop_last()) * 256 + s.last() as nat
    }
}

/// The lowest `width` bytes of a number, most significant first.
pub open spec fn written(n: nat, width: nat) -> Seq<u8>
    decreases width,
{
    if width == 0 {
        Seq::empty()
    } else {
        written(n / 256, (width - 1) as nat).push((n % 256) as u8)
    }
}

/// How many numbers `width` bytes can write.
pub open spec fn numbers_of(width: nat) -> nat
    decreases width,
{
    if width == 0 {
        1
    } else {
        256 * numbers_of((width - 1) as nat)
    }
}

/// A number that fits reads back from its bytes.
pub proof fn written_numbers_read_back(n: nat, width: nat)
    requires
        n < numbers_of(width),
    ensures
        written(n, width).len() == width,
        number(written(n, width)) == n,
    decreases width,
{
    if width > 0 {
        written_numbers_read_back(n / 256, (width - 1) as nat);
        assert(written(n, width).drop_last() =~= written(n / 256, (width - 1) as nat));
    }
}

/// Fields are written most significant byte first.
pub proof fn fields_are_written_from_the_top(a: u16, b: u32, c: u64)
    ensures
        be16(a) == written(a as nat, 2),
        be24(b) == written(b as nat, 3),
        be32(b) == written(b as nat, 4),
        be64(c) == written(c as nat, 8),
{
    lemma_four(a as nat);
    lemma_four(b as nat);
    lemma_eight(c as nat);
    assert(be16(a) =~= written(a as nat, 2));
    assert(be24(b) =~= written(b as nat, 3));
    assert(be32(b) =~= written(b as nat, 4));
    lemma_four(c as nat / 0x1_0000_0000);
    let high = (c / 0x1_0000_0000) as u32;
    let low = (c % 0x1_0000_0000) as u32;
    assert(be32(high) =~= written(c as nat / 0x1_0000_0000, 4));
    lemma_four(low as nat);
    assert(be32(low) =~= written(low as nat, 4));
}

proof fn lemma_four(n: nat)
    ensures
        written(n, 2) == seq![(n / 0x100 % 256) as u8, (n % 256) as u8],
        written(n, 3) == seq![
            (n / 0x10000 % 256) as u8,
            (n / 0x100 % 256) as u8,
            (n % 256) as u8,
        ],
        written(n, 4) == seq![
            (n / 0x1000000 % 256) as u8,
            (n / 0x10000 % 256) as u8,
            (n / 0x100 % 256) as u8,
            (n % 256) as u8,
        ],
{
    reveal_with_fuel(written, 5);
    assert(n / 256 / 256 == n / 0x10000);
    assert(n / 256 / 256 / 256 == n / 0x1000000);
    assert(written(n, 2) =~= seq![(n / 0x100 % 256) as u8, (n % 256) as u8]);
    assert(written(n, 3) =~= seq![
        (n / 0x10000 % 256) as u8,
        (n / 0x100 % 256) as u8,
        (n % 256) as u8,
    ]);
    assert(written(n, 4) =~= seq![
        (n / 0x1000000 % 256) as u8,
        (n / 0x10000 % 256) as u8,
        (n / 0x100 % 256) as u8,
        (n % 256) as u8,
    ]);
}

proof fn lemma_low(n: nat, m: nat, low: nat)
    requires
        n == m * 0x1_0000_0000 + low,
        low < 0x1_0000_0000,
    ensures
        n % 256 == low % 256,
        n / 256 % 256 == low / 0x100 % 256,
        n / 256 / 256 % 256 == low / 0x10000 % 256,
        n / 256 / 256 / 256 % 256 == low / 0x1000000 % 256,
        n / 256 / 256 / 256 / 256 == m,
{
    assert(n / 256 == m * 0x100_0000 + low / 256);
    assert(n / 256 / 256 == m * 0x1_0000 + low / 256 / 256);
    assert(n / 256 / 256 / 256 == m * 0x100 + low / 256 / 256 / 256);
    assert(low / 256 / 256 == low / 0x10000);
    assert(low / 256 / 256 / 256 == low / 0x1000000);
}

proof fn lemma_eight(n: nat)
    ensures
        written(n, 8) == written(n / 0x1_0000_0000, 4) + written(n % 0x1_0000_0000, 4),
{
    let m = n / 0x1_0000_0000;
    let low = n % 0x1_0000_0000;
    lemma_four(low);
    lemma_low(n, m, low);
    let n1 = n / 256;
    let n2 = n1 / 256;
    let n3 = n2 / 256;
    let w = written(m, 4);
    assert(written(n3, 5) == w.push((n3 % 256) as u8));
    assert(written(n2, 6) == w.push((n3 % 256) as u8).push((n2 % 256) as u8));
    assert(written(n1, 7) == w.push((n3 % 256) as u8).push((n2 % 256) as u8).push(
        (n1 % 256) as u8,
    ));
    assert(written(n, 8) == w.push((n3 % 256) as u8).push((n2 % 256) as u8).push(
        (n1 % 256) as u8,
    ).push((n % 256) as u8));
    assert(written(n, 8) =~= w + written(low, 4));
}

/// Numbers of messages and tags are read most significant byte first, those of message streams
/// least significant byte first.
pub proof fn fields_are_read_from_the_top(s: Seq<u8>, at: int)
    ensures
        0 <= at <= s.len() - 2 ==> num16(s, at) == number(s.subrange(at, at + 2)),
        0 <= at <= s.len() - 3 ==> num24(s, at) == number(s.subrange(at, at + 3)),
        0 <= at <= s.len() - 4 ==> num32(s, at) == number(s.subrange(at, at + 4)),
        0 <= at <= s.len() - 4 ==> be32_value(s, at) == number(s.subrange(at, at + 4)),
        0 <= at <= s.len() - 4 ==> num32_le(s, at) == number(s.subrange(at, at + 4).reverse()),
{
    reveal_with_fuel(number, 5);
    if 0 <= at <= s.len() - 2 {
        let t = s.subrange(at, at + 2);
        assert(t.drop_last().len() == 1);
        assert(t.drop_last().drop_last().len() == 0);
    }
    if 0 <= at <= s.len() - 3 {
        let t = s.subrange(at, at + 3);
        assert(t.drop_last().drop_last().drop_last().len() == 0);
    }
    if 0 <= at <= s.len() - 4 {
        let t = s.subrange(at, at + 4);
        assert(t.drop_last().drop_last().drop_last().drop_last().len() == 0);
        let u = t.reverse();
        assert(u.drop_last().drop_last().drop_last().drop_last().len() == 0);
    }
}

} // verus!
