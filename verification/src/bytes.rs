use vstd::prelude::*;

verus! {

/// A run of `n` copies of the byte `b`, as used for field padding.
pub open spec fn repeat_byte(b: u8, n: nat) -> Seq<u8> {
    Seq::new(n, |i| b)
}

/// Fixed-width octal rendering of `n` as ASCII digits, most significant first,
/// padded on the left with `0` digits.
pub open spec fn spec_octal(n: nat, width: nat) -> Seq<u8>
    decreases width,
{
    if width == 0 {
        Seq::empty()
    } else {
        spec_octal(n / 8, (width - 1) as nat) + seq![(0x30 + n % 8) as u8]
    }
}

pub proof fn lemma_octal_len(n: nat, w: nat)
    ensures
        spec_octal(n, w).len() == w,
    decreases w,
{
    if w > 0 {
        lemma_octal_len(n / 8, (w - 1) as nat);
    }
}

/// Decimal rendering of `n` as ASCII digits, without leading zeros.
pub open spec fn spec_decimal(n: nat) -> Seq<u8>
    decreases n,
{
    if n < 10 {
        seq![(0x30 + n) as u8]
    } else {
        spec_decimal(n / 10) + seq![(0x30 + n % 10) as u8]
    }
}

/// Decimal rendering of `n`, left-justified in a field of `width` bytes and
/// padded with spaces.
pub open spec fn spec_decimal_padded(n: nat, width: nat) -> Seq<u8> {
    spec_decimal(n) + repeat_byte(0x20, (width - spec_decimal(n).len()) as nat)
}

/// The plain sum of a byte sequence, as the tar header checksum uses it.
pub open spec fn sum_bytes(s: Seq<u8>) -> int
    decreases s.len(),
{
    if s.len() == 0 {
        0
    } else {
        sum_bytes(s.drop_last()) + s.last()
    }
}

pub proof fn lemma_sum_bytes_bound(s: Seq<u8>)
    ensures
        0 <= sum_bytes(s) <= 255 * s.len(),
    decreases s.len(),
{
    if s.len() > 0 {
        lemma_sum_bytes_bound(s.drop_last());
    }
}

/// Powers of ten, for sizing decimal fields.
pub open spec fn pow10(w: nat) -> nat
    decreases w,
{
    if w == 0 {
        1
    } else {
        10 * pow10((w - 1) as nat)
    }
}

pub proof fn lemma_decimal_len(n: nat, w: nat)
    requires
        w >= 1,
        n < pow10(w),
    ensures
        1 <= spec_decimal(n).len() <= w,
    decreases n,
{
    if n >= 10 {
        assert(pow10(w) == 10 * pow10((w - 1) as nat));
        lemma_decimal_len(n / 10, (w - 1) as nat);
    }
}

/// Appends `n` copies of `b` to `v`.
pub fn push_repeat(v: &mut Vec<u8>, b: u8, n: usize)
    ensures
        final(v)@ == old(v)@ + repeat_byte(b, n as nat),
{
    let mut i: usize = 0;
    while i < n
        invariant
            i <= n,
            v@ == old(v)@ + repeat_byte(b, i as nat),
        decreases n - i,
    {
        v.push(b);
        proof {
            assert(repeat_byte(b, (i + 1) as nat) =~= repeat_byte(b, i as nat).push(b));
            assert(v@ =~= old(v)@ + repeat_byte(b, (i + 1) as nat));
        }
        i = i + 1;
    }
    proof {
        assert(v@ =~= old(v)@ + repeat_byte(b, n as nat));
    }
}

/// Appends the whole content of `s` to `v`.
pub fn push_bytes(v: &mut Vec<u8>, s: &Vec<u8>)
    ensures
        final(v)@ == old(v)@ + s@,
{
    let mut i: usize = 0;
    while i < s.len()
        invariant
            i <= s.len(),
            v@ == old(v)@ + s@.subrange(0, i as int),
        decreases s.len() - i,
    {
        v.push(s[i]);
        proof {
            assert(s@.subrange(0, (i + 1) as int) =~= s@.subrange(0, i as int).push(s@[i as int]));
            assert(v@ =~= old(v)@ + s@.subrange(0, (i + 1) as int));
        }
        i = i + 1;
    }
    proof {
        assert(s@.subrange(0, s@.len() as int) =~= s@);
    }
}

/// Appends the bytes of `s` between `from` and `to` to `v`.
pub fn push_range(v: &mut Vec<u8>, s: &Vec<u8>, from: usize, to: usize)
    requires
        from <= to <= s@.len(),
    ensures
        final(v)@ == old(v)@ + s@.subrange(from as int, to as int),
{
    let mut i: usize = from;
    while i < to
        invariant
            from <= i <= to <= s@.len(),
            v@ == old(v)@ + s@.subrange(from as int, i as int),
        decreases to - i,
    {
        v.push(s[i]);
        proof {
            assert(s@.subrange(from as int, (i + 1) as int) =~= s@.subrange(
                from as int,
                i as int,
            ).push(s@[i as int]));
            assert(v@ =~= old(v)@ + s@.subrange(from as int, (i + 1) as int));
        }
        i = i + 1;
    }
}

/// Appends the fixed-width octal rendering of `n` to `v`.
pub fn push_octal(v: &mut Vec<u8>, n: u64, width: usize)
    ensures
        final(v)@ == old(v)@ + spec_octal(n as nat, width as nat),
    decreases width,
{
    if width > 0 {
        push_octal(v, n / 8, width - 1);
        v.push(0x30 + (n % 8) as u8);
        proof {
            assert(v@ =~= old(v)@ + spec_octal(n as nat, width as nat));
        }
    } else {
        proof {
            assert(v@ =~= old(v)@ + spec_octal(n as nat, 0));
        }
    }
}

/// Appends the decimal rendering of `n` to `v`.
pub fn push_decimal(v: &mut Vec<u8>, n: u64)
    ensures
        final(v)@ == old(v)@ + spec_decimal(n as nat),
    decreases n,
{
    if n < 10 {
        v.push(0x30 + n as u8);
        proof {
            assert(v@ =~= old(v)@ + spec_decimal(n as nat));
        }
    } else {
        push_decimal(v, n / 10);
        v.push(0x30 + (n % 10) as u8);
        proof {
            assert(v@ =~= old(v)@ + spec_decimal(n as nat));
        }
    }
}

/// Appends the decimal rendering of `n`, left-justified and space-padded to
/// `width` bytes.
pub fn push_decimal_padded(v: &mut Vec<u8>, n: u64, width: usize)
    requires
        spec_decimal(n as nat).len() <= width,
    ensures
        final(v)@ == old(v)@ + spec_decimal_padded(n as nat, width as nat),
{
    let start = v.len();
    push_decimal(v, n);
    let used = v.len() - start;
    push_repeat(v, 0x20, width - used);
    proof {
        assert(v@ =~= old(v)@ + spec_decimal_padded(n as nat, width as nat));
    }
}

/// Sums the bytes of `v` between `from` and `to`.
pub(crate) fn sum_range(v: &Vec<u8>, from: usize, to: usize) -> (r: u64)
    requires
        from <= to <= v@.len(),
        to - from <= 65536,
    ensures
        r == sum_bytes(v@.subrange(from as int, to as int)),
{
    let mut sum: u64 = 0;
    let mut i: usize = from;
    while i < to
        invariant
            from <= i <= to <= v@.len(),
            to - from <= 65536,
            sum == sum_bytes(v@.subrange(from as int, i as int)),
            sum <= 255 * (i - from),
        decreases to - i,
    {
        proof {
            assert(v@.subrange(from as int, (i + 1) as int).drop_last() =~= v@.subrange(
                from as int,
                i as int,
            ));
            assert(v@.subrange(from as int, (i + 1) as int).last() == v@[i as int]);
        }
        sum = sum + v[i] as u64;
        i = i + 1;
    }
    sum
}

} // verus!
