//! Little-endian integers as they lie in a record's bytes.

use vstd::prelude::*;

verus! {

/// The number that the bytes of `s` spell, least significant byte first.
pub open spec fn le_value(s: Seq<u8>) -> nat
    decreases s.len(),
{
    if s.len() == 0 {
        0
    } else {
        s[0] as nat + 256 * le_value(s.drop_first())
    }
}

/// The `n` low-order bytes of `v`, least significant first.
pub open spec fn le_bytes(v: nat, n: nat) -> Seq<u8>
    decreases n,
{
    if n == 0 {
        Seq::empty()
    } else {
        seq![(v % 256) as u8] + le_bytes(v / 256, (n - 1) as nat)
    }
}

/// 256 to the power `n`: the number of values that `n` bytes can spell.
pub open spec fn span(n: nat) -> nat
    decreases n,
{
    if n == 0 {
        1
    } else {
        256 * span((n - 1) as nat)
    }
}

/// The signed reading of a 16-bit pattern (two's complement).
pub open spec fn signed16(v: nat) -> int {
    if v < 32768 {
        v as int
    } else {
        v - 65536
    }
}

/// The 16-bit pattern of a signed value (two's complement).
pub open spec fn unsigned16(x: int) -> nat {
    if x >= 0 {
        x as nat
    } else {
        (x + 65536) as nat
    }
}

/// `le_bytes` yields exactly `n` bytes.
pub proof fn lemma_le_bytes_len(v: nat, n: nat)
    ensures
        le_bytes(v, n).len() == n,
    decreases n,
{
    if n > 0 {
        lemma_le_bytes_len(v / 256, (n - 1) as nat);
    }
}

/// What `n` bytes spell is below 256 to the `n`.
pub proof fn lemma_le_value_bound(s: Seq<u8>)
    ensures
        le_value(s) < span(s.len()),
    decreases s.len(),
{
    if s.len() > 0 {
        lemma_le_value_bound(s.drop_first());
    }
}

/// Spelling a value that fits and reading it back gives the value.
pub proof fn lemma_le_value_of_bytes(v: nat, n: nat)
    requires
        v < span(n),
    ensures
        le_value(le_bytes(v, n)) == v,
    decreases n,
{
    if n > 0 {
        let rest = le_bytes(v / 256, (n - 1) as nat);
        let s = le_bytes(v, n);
        lemma_le_value_of_bytes(v / 256, (n - 1) as nat);
        assert(s.drop_first() =~= rest);
        assert(s[0] as nat == v % 256);
    }
}

/// Reading bytes and spelling the value again gives the same bytes.
pub proof fn lemma_le_bytes_of_value(s: Seq<u8>)
    ensures
        le_bytes(le_value(s), s.len()) == s,
    decreases s.len(),
{
    if s.len() > 0 {
        let v = le_value(s);
        let tail = s.drop_first();
        lemma_le_bytes_of_value(tail);
        assert(v % 256 == s[0] as nat);
        assert(v / 256 == le_value(tail));
        assert(le_bytes(v, s.len()) =~= s);
    } else {
        assert(le_bytes(le_value(s), s.len()) =~= s);
    }
}

/// What the bytes of `s` from `start` on spell, up to `end`.
pub open spec fn field(s: Seq<u8>, start: int, end: int) -> nat {
    le_value(s.subrange(start, end))
}

proof fn lemma_span_values()
    ensures
        span(0) == 1,
        span(1) == 0x100,
        span(2) == 0x1_0000,
        span(3) == 0x100_0000,
        span(4) == 0x1_0000_0000,
        span(5) == 0x100_0000_0000,
        span(6) == 0x1_0000_0000_0000,
        span(7) == 0x100_0000_0000_0000,
        span(8) == 0x1_0000_0000_0000_0000,
{
    reveal_with_fuel(span, 10);
}

proof fn lemma_span_below(n: nat, m: nat)
    requires
        n <= m,
    ensures
        span(n) <= span(m),
    decreases m,
{
    if n < m {
        lemma_span_below(n, (m - 1) as nat);
    }
}

/// Reads `width` bytes of `data` from `start` on as one little-endian number.
pub fn read_le(data: &[u8], start: usize, width: usize) -> (v: u64)
    requires
        width <= 8,
        start + width <= data.len(),
    ensures
        v as nat == field(data@, start as int, start + width),
{
    let ghost window = data@.subrange(start as int, start + width);
    let mut v: u64 = 0;
    let mut k: usize = width;
    proof {
        assert(window.subrange(width as int, width as int) =~= Seq::<u8>::empty());
    }
    while k > 0
        invariant
            k <= width <= 8,
            start + width <= data.len(),
            window == data@.subrange(start as int, start + width),
            v as nat == le_value(window.subrange(k as int, width as int)),
        decreases k,
    {
        let ghost above = window.subrange(k as int, width as int);
        k = k - 1;
        let b: u8 = data[start + k];
        proof {
            let now = window.subrange(k as int, width as int);
            assert(now.drop_first() =~= above);
            assert(now[0] == b);
            lemma_le_value_bound(above);
            lemma_span_below(above.len(), 7);
            lemma_span_values();
        }
        v = v * 256 + b as u64;
    }
    proof {
        assert(window.subrange(0, width as int) =~= window);
    }
    v
}

/// Reads two bytes of `data` from `start` on as a signed little-endian number.
pub fn read_i16_le(data: &[u8], start: usize) -> (x: i16)
    requires
        start + 2 <= data.len(),
    ensures
        x as int == signed16(field(data@, start as int, start + 2)),
{
    let raw: u64 = read_le(data, start, 2);
    proof {
        lemma_le_value_bound(data@.subrange(start as int, start + 2));
        lemma_span_values();
    }
    if raw < 32768 {
        raw as i16
    } else {
        ((raw - 32768) as i16) - 32767 - 1
    }
}

/// Reads four bytes of `data` from `start` on as a little-endian number.
pub fn read_u32_le(data: &[u8], start: usize) -> (x: u32)
    requires
        start + 4 <= data.len(),
    ensures
        x as nat == field(data@, start as int, start + 4),
{
    let raw: u64 = read_le(data, start, 4);
    proof {
        lemma_le_value_bound(data@.subrange(start as int, start + 4));
        lemma_span_values();
    }
    raw as u32
}

/// Byte `k` of `v`, counted from the least significant one.
pub open spec fn byte_of(v: nat, k: nat) -> u8 {
    ((v / span(k)) % 256) as u8
}

/// The bytes of `le_bytes` are the bytes of the value, in their order.
pub proof fn lemma_le_bytes_index(v: nat, n: nat, k: int)
    requires
        0 <= k < n,
    ensures
        le_bytes(v, n)[k] == byte_of(v, k as nat),
    decreases n,
{
    let rest = le_bytes(v / 256, (n - 1) as nat);
    lemma_le_bytes_len(v / 256, (n - 1) as nat);
    if k == 0 {
        assert(span(0) == 1);
        assert(le_bytes(v, n)[0] == (v % 256) as u8);
    } else {
        let below = span((k - 1) as nat);
        lemma_le_bytes_index(v / 256, (n - 1) as nat, k - 1);
        assert(le_bytes(v, n)[k] == rest[k - 1]);
        lemma_span_positive((k - 1) as nat);
        vstd::arithmetic::div_mod::lemma_div_denominator(v as int, 256, below as int);
        assert(span(k as nat) == 256 * below);
        assert((v / 256) / below == v / span(k as nat));
    }
}

proof fn lemma_span_positive(n: nat)
    ensures
        span(n) > 0,
    decreases n,
{
    if n > 0 {
        lemma_span_positive((n - 1) as nat);
    }
}

/// Byte `k` of `v`, counted from the least significant one.
pub fn le_byte(v: u64, k: usize) -> (b: u8)
    requires
        k < 8,
    ensures
        b == byte_of(v as nat, k as nat),
{
    let mut rest: u64 = v;
    let mut i: usize = 0;
    proof {
        assert(span(0) == 1);
    }
    while i < k
        invariant
            i <= k < 8,
            rest as nat == v as nat / span(i as nat),
        decreases k - i,
    {
        proof {
            lemma_span_positive(i as nat);
            vstd::arithmetic::div_mod::lemma_div_denominator(
                v as int,
                span(i as nat) as int,
                256,
            );
            assert(span((i + 1) as nat) == span(i as nat) * 256);
        }
        rest = rest / 256;
        i = i + 1;
    }
    (rest % 256) as u8
}

/// The 16-bit pattern of `x` (two's complement).
pub fn i16_bits(x: i16) -> (raw: u64)
    ensures
        raw as nat == unsigned16(x as int),
        raw < 65536,
{
    if x >= 0 {
        x as u64
    } else {
        (x + 32767 + 1) as u64 + 32768
    }
}

} // verus!
