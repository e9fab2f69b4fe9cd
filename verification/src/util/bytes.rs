//! Numbers as little-endian bytes.
use vstd::prelude::*;

verus! {

/// The `n` low bytes of `x`, the lowest first.
pub open spec fn le_bytes(x: nat, n: nat) -> Seq<u8>
    decreases n,
{
    if n == 0 {
        Seq::empty()
    } else {
        seq![(x % 256) as u8] + le_bytes(x / 256, (n - 1) as nat)
    }
}

/// The number that the bytes `s` stand for, the lowest first.
pub open spec fn le_value(s: Seq<u8>) -> nat
    decreases s.len(),
{
    if s.len() == 0 {
        0
    } else {
        s[0] as nat + 256 * le_value(s.skip(1))
    }
}

/// How many numbers `n` bytes can tell apart.
pub open spec fn byte_range(n: nat) -> nat
    decreases n,
{
    if n == 0 {
        1
    } else {
        256 * byte_range((n - 1) as nat)
    }
}

/// The ranges of the usual widths.
pub proof fn lemma_byte_ranges()
    ensures
        byte_range(4) == 0x1_0000_0000,
        byte_range(8) == 0x1_0000_0000_0000_0000,
{
    reveal_with_fuel(byte_range, 9);
}

/// There are as many bytes as asked for.
pub proof fn lemma_le_bytes_len(x: nat, n: nat)
    ensures
        le_bytes(x, n).len() == n,
    decreases n,
{
    if n > 0 {
        lemma_le_bytes_len(x / 256, (n - 1) as nat);
    }
}

/// A number that fits is read back from its bytes.
pub proof fn law_value_of_bytes(x: nat, n: nat)
    requires
        x < byte_range(n),
    ensures
        le_value(le_bytes(x, n)) == x,
        le_bytes(x, n).len() == n,
    decreases n,
{
    if n > 0 {
        law_value_of_bytes(x / 256, (n - 1) as nat);
        assert(le_bytes(x, n).skip(1) == le_bytes(x / 256, (n - 1) as nat));
    }
}

/// Bytes are those of the number that they stand for.
pub proof fn law_bytes_of_value(s: Seq<u8>)
    ensures
        le_value(s) < byte_range(s.len()),
        le_bytes(le_value(s), s.len()) == s,
    decreases s.len(),
{
    if s.len() > 0 {
        law_bytes_of_value(s.skip(1));
        let v = le_value(s.skip(1));
        assert((s[0] as nat + 256 * v) / 256 == v);
        assert((s[0] as nat + 256 * v) % 256 == s[0] as nat);
        assert(seq![s[0]] + s.skip(1) == s);
    } else {
        assert(le_bytes(0, 0) == s);
    }
}

/// The `n` low bytes of `x`.
pub fn to_bytes(x: u64, n: usize) -> (r: Vec<u8>)
    ensures
        r@ == le_bytes(x as nat, n as nat),
        r@.len() == n,
{
    let mut r: Vec<u8> = Vec::new();
    let mut rest: u64 = x;
    let mut i: usize = 0;
    while i < n
        invariant
            i <= n,
            r@.len() == i,
            r@ + le_bytes(rest as nat, (n - i) as nat) == le_bytes(x as nat, n as nat),
        decreases n - i,
    {
        let ghost before = r@;
        let low: u8 = (rest % 256) as u8;
        r.push(low);
        assert(r@ + le_bytes((rest / 256) as nat, (n - i - 1) as nat) == before + (seq![low]
            + le_bytes((rest / 256) as nat, (n - i - 1) as nat)));
        rest = rest / 256;
        i = i + 1;
    }
    assert(r@ == le_bytes(x as nat, n as nat));
    r
}

/// The number that the bytes of `s` from `from` up to `to` stand for: at most eight of them.
pub fn from_bytes(s: &[u8], from: usize, to: usize) -> (r: u64)
    requires
        from <= to <= s.len(),
        to - from <= 8,
    ensures
        r as nat == le_value(s@.subrange(from as int, to as int)),
{
    let mut r: u64 = 0;
    let mut i: usize = to;
    assert(s@.subrange(to as int, to as int) == Seq::<u8>::empty());
    while i > from
        invariant
            from <= i <= to <= s.len(),
            to - from <= 8,
            r as nat == le_value(s@.subrange(i as int, to as int)),
        decreases i,
    {
        i = i - 1;
        let ghost part = s@.subrange(i as int, to as int);
        assert(part.skip(1) == s@.subrange(i + 1, to as int));
        proof {
            law_bytes_of_value(part);
            lemma_range_grows(part.len(), 8);
            lemma_byte_ranges();
        }
        r = s[i] as u64 + 256 * r;
    }
    r
}

proof fn lemma_range_grows(a: nat, b: nat)
    requires
        a <= b,
    ensures
        byte_range(a) <= byte_range(b),
    decreases b,
{
    if a < b {
        lemma_range_grows(a, (b - 1) as nat);
    }
}

/// The lowest byte comes first: the first byte of a number is its remainder by 256, and the others are
/// those of the quotient; and so for the number that bytes stand for.
pub proof fn law_lowest_byte_comes_first(x: nat, n: nat, s: Seq<u8>)
    ensures
        le_bytes(x, n).len() == n,
        n > 0 ==> le_bytes(x, n)[0] == x % 256,
        n > 0 ==> le_bytes(x, n).skip(1) == le_bytes(x / 256, (n - 1) as nat),
        s.len() > 0 ==> le_value(s) == s[0] + 256 * le_value(s.skip(1)),
        s.len() == 0 ==> le_value(s) == 0,
{
    lemma_le_bytes_len(x, n);
    if n > 0 {
        assert(le_bytes(x, n).skip(1) == le_bytes(x / 256, (n - 1) as nat));
    }
}

/// Four and eight bytes as numbers.
pub proof fn lemma_values_of_few_bytes(s: Seq<u8>)
    ensures
        s.len() == 4 ==> le_value(s) == s[0] + 0x100 * s[1] + 0x1_0000 * s[2] + 0x100_0000 * s[3],
        s.len() == 8 ==> le_value(s) == s[0] + 0x100 * s[1] + 0x1_0000 * s[2] + 0x100_0000 * s[3]
            + 0x1_0000_0000 * s[4] + 0x100_0000_0000 * s[5] + 0x1_0000_0000_0000 * s[6]
            + 0x100_0000_0000_0000 * s[7],
{
    if s.len() == 4 || s.len() == 8 {
        let a = s.skip(1);
        let b = a.skip(1);
        let c = b.skip(1);
        let d = c.skip(1);
        assert(a[0] == s[1] && b[0] == s[2] && c[0] == s[3]);
        assert(le_value(s) == s[0] + 256 * le_value(a));
        assert(le_value(a) == a[0] + 256 * le_value(b));
        assert(le_value(b) == b[0] + 256 * le_value(c));
        assert(le_value(c) == c[0] + 256 * le_value(d));
        if s.len() == 8 {
            let e = d.skip(1);
            let f = e.skip(1);
            let g = f.skip(1);
            let h = g.skip(1);
            assert(d[0] == s[4] && e[0] == s[5] && f[0] == s[6] && g[0] == s[7]);
            assert(le_value(d) == d[0] + 256 * le_value(e));
            assert(le_value(e) == e[0] + 256 * le_value(f));
            assert(le_value(f) == f[0] + 256 * le_value(g));
            assert(le_value(g) == g[0] + 256 * le_value(h));
            assert(le_value(h) == 0);
        } else {
            assert(le_value(d) == 0);
        }
    }
}

/// The bytes of a number of four and of eight bytes.
pub proof fn lemma_few_bytes_of_value(x: nat)
    ensures
        x < 0x1_0000_0000 ==> le_bytes(x, 4) == seq![
            (x % 256) as u8,
            (x / 0x100 % 256) as u8,
            (x / 0x1_0000 % 256) as u8,
            (x / 0x100_0000) as u8,
        ],
        x < 0x1_0000_0000_0000_0000 ==> le_bytes(x, 8) == seq![
            (x % 256) as u8,
            (x / 0x100 % 256) as u8,
            (x / 0x1_0000 % 256) as u8,
            (x / 0x100_0000 % 256) as u8,
            (x / 0x1_0000_0000 % 256) as u8,
            (x / 0x100_0000_0000 % 256) as u8,
            (x / 0x1_0000_0000_0000 % 256) as u8,
            (x / 0x100_0000_0000_0000) as u8,
        ],
{
    lemma_le_bytes_len(x, 4);
    lemma_le_bytes_len(x, 8);
    let a = x / 256;
    let b = a / 256;
    let c = b / 256;
    let d = c / 256;
    let e = d / 256;
    let f = e / 256;
    let g = f / 256;
    assert(b == x / 0x1_0000);
    assert(c == x / 0x100_0000);
    assert(d == x / 0x1_0000_0000);
    assert(e == x / 0x100_0000_0000);
    assert(f == x / 0x1_0000_0000_0000);
    assert(g == x / 0x100_0000_0000_0000);
    reveal_with_fuel(le_bytes, 9);
    if x < 0x1_0000_0000 {
        assert(le_bytes(x, 4) =~= seq![
            (x % 256) as u8,
            (a % 256) as u8,
            (b % 256) as u8,
            (c % 256) as u8,
        ]);
    }
    if x < 0x1_0000_0000_0000_0000 {
        assert(le_bytes(x, 8) =~= seq![
            (x % 256) as u8,
            (a % 256) as u8,
            (b % 256) as u8,
            (c % 256) as u8,
            (d % 256) as u8,
            (e % 256) as u8,
            (f % 256) as u8,
            (g % 256) as u8,
        ]);
    }
}

} // verus!
