//! Little-endian integers: the byte order of every multi-byte field on the wire.
use vstd::prelude::*;

verus! {

/// The `width` low-order base-256 digits of `value`, least significant first.
pub open spec fn le_bytes(value: nat, width: nat) -> Seq<u8>
    decreases width,
{
    if width == 0 {
        Seq::empty()
    } else {
        seq![(value % 256) as u8] + le_bytes(value / 256, (width - 1) as nat)
    }
}

/// The number whose base-256 digits are `bytes`, least significant first.
pub open spec fn le_value(bytes: Seq<u8>) -> nat
    decreases bytes.len(),
{
    if bytes.len() == 0 {
        0
    } else {
        bytes[0] as nat + 256 * le_value(bytes.drop_first())
    }
}

/// How many values fit in `width` bytes: 256 to the power `width`.
pub open spec fn le_limit(width: nat) -> nat
    decreases width,
{
    if width == 0 {
        1
    } else {
        256 * le_limit((width - 1) as nat)
    }
}

/// An integer of `width` bytes takes exactly `width` bytes.
pub broadcast proof fn lemma_le_bytes_len(value: nat, width: nat)
    ensures
        #[trigger] le_bytes(value, width).len() == width,
    decreases width,
{
    if width > 0 {
        lemma_le_bytes_len(value / 256, (width - 1) as nat);
    }
}

/// `width` bytes hold a number below [`le_limit`].
pub proof fn lemma_le_value_bound(bytes: Seq<u8>)
    ensures
        le_value(bytes) < le_limit(bytes.len()),
    decreases bytes.len(),
{
    if bytes.len() > 0 {
        lemma_le_value_bound(bytes.drop_first());
    }
}

/// The limits of the two field widths in use.
pub proof fn lemma_le_limits()
    ensures
        le_limit(4) == u32::MAX + 1,
        le_limit(8) == u64::MAX + 1,
{
    reveal_with_fuel(le_limit, 9);
}

/// A number that fits in `width` bytes is read back from the bytes written for it.
pub proof fn law_le_value_of_le_bytes(value: nat, width: nat)
    requires
        value < le_limit(width),
    ensures
        le_value(le_bytes(value, width)) == value,
    decreases width,
{
    if width > 0 {
        let rest = le_bytes(value / 256, (width - 1) as nat);
        law_le_value_of_le_bytes(value / 256, (width - 1) as nat);
        assert(le_bytes(value, width).drop_first() =~= rest);
    }
}

/// Bytes are recovered by writing the number they stand for in the same width.
pub proof fn law_le_bytes_of_le_value(bytes: Seq<u8>)
    ensures
        le_bytes(le_value(bytes), bytes.len()) == bytes,
    decreases bytes.len(),
{
    if bytes.len() > 0 {
        let rest = bytes.drop_first();
        law_le_bytes_of_le_value(rest);
        let value = le_value(bytes);
        assert(value % 256 == bytes[0] as nat);
        assert(value / 256 == le_value(rest));
        assert(le_bytes(value, bytes.len()) =~= seq![bytes[0]] + rest);
        assert(seq![bytes[0]] + rest =~= bytes);
    } else {
        assert(le_bytes(le_value(bytes), bytes.len()) =~= bytes);
    }
}

/// The first byte counts for itself, and each byte counts 256 times as much as the one before
/// it: the value of four and of eight bytes, byte by byte.
pub proof fn law_low_byte_comes_first(bytes: Seq<u8>)
    ensures
        bytes.len() == 4 ==> le_value(bytes) == bytes[0] + 0x100 * bytes[1] + 0x1_0000 * bytes[2]
            + 0x100_0000 * bytes[3],
        bytes.len() == 8 ==> le_value(bytes) == bytes[0] + 0x100 * bytes[1] + 0x1_0000 * bytes[2]
            + 0x100_0000 * bytes[3] + 0x1_0000_0000 * bytes[4] + 0x100_0000_0000 * bytes[5]
            + 0x1_0000_0000_0000 * bytes[6] + 0x100_0000_0000_0000 * bytes[7],
{
    reveal_with_fuel(le_value, 9);
}

/// Writes `value` into `width` bytes of `buf` from position `at` on, and nothing else.
pub(crate) fn put_le(buf: &mut [u8], at: usize, value: u64, width: usize)
    requires
        at + width <= old(buf)@.len(),
    ensures
        final(buf)@ == old(buf)@.take(at as int) + le_bytes(value as nat, width as nat)
            + old(buf)@.skip(at + width),
{
    broadcast use lemma_le_bytes_len;

    let ghost start = buf@;
    assert(buf.len() == start.len());
    let mut rest: u64 = value;
    let mut i: usize = 0;
    while i < width
        invariant
            i <= width,
            at + width <= start.len() <= usize::MAX,
            buf@.len() == start.len(),
            buf@.take(at as int) == start.take(at as int),
            buf@.skip(at + i) == start.skip(at + i),
            buf@.subrange(at as int, at + i) + le_bytes(rest as nat, (width - i) as nat)
                == le_bytes(value as nat, width as nat),
        decreases width - i,
    {
        let ghost before = buf@;
        let ghost written = before.subrange(at as int, at + i);
        let ghost digit = (rest % 256) as u8;
        let ghost tail = le_bytes((rest / 256) as nat, (width - i - 1) as nat);
        buf[at + i] = (rest % 256) as u8;
        proof {
            assert(buf@.take(at as int) =~= before.take(at as int));
            assert(buf@.skip(at + i + 1) =~= before.skip(at + i).skip(1));
            assert(start.skip(at + i + 1) =~= start.skip(at + i).skip(1));
            assert(buf@.subrange(at as int, at + i + 1) =~= written.push(digit));
            assert(le_bytes(rest as nat, (width - i) as nat) =~= seq![digit] + tail);
            assert(written.push(digit) + tail =~= written + (seq![digit] + tail));
        }
        rest = rest / 256;
        i = i + 1;
    }
    proof {
        let field = buf@.subrange(at as int, at + width);
        assert(field + le_bytes(rest as nat, 0) =~= field);
        assert(buf@ =~= buf@.take(at as int) + field + buf@.skip(at + width));
    }
}

/// Reads the integer held in the `width` bytes of `buf` from position `at` on.
pub(crate) fn get_le(buf: &[u8], at: usize, width: usize) -> (value: u64)
    requires
        at + width <= buf@.len(),
        width <= 8,
    ensures
        value == le_value(buf@.subrange(at as int, at + width)),
        value < le_limit(width as nat),
{
    assert(buf.len() == buf@.len());
    let mut value: u64 = 0;
    let mut i: usize = width;
    while i > 0
        invariant
            i <= width,
            width <= 8,
            at + width <= buf@.len() <= usize::MAX,
            value == le_value(buf@.subrange(at + i, at + width)),
        decreases i,
    {
        i = i - 1;
        proof {
            let digits = buf@.subrange(at + i, at + width);
            assert(digits.drop_first() =~= buf@.subrange(at + i + 1, at + width));
            lemma_le_value_bound(digits);
            lemma_le_limit_monotonic(digits.len(), 8);
            lemma_le_limits();
        }
        value = value * 256 + buf[at + i] as u64;
    }
    proof {
        lemma_le_value_bound(buf@.subrange(at as int, at + width));
    }
    value
}

/// A wider field holds at least as many values.
proof fn lemma_le_limit_monotonic(narrow: nat, wide: nat)
    requires
        narrow <= wide,
    ensures
        le_limit(narrow) <= le_limit(wide),
    decreases wide,
{
    if narrow < wide {
        lemma_le_limit_monotonic(narrow, (wide - 1) as nat);
    }
}

} // verus!
