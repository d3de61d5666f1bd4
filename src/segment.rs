use vstd::prelude::*;

verus! {

/// Width to which segment and group names are padded with leading zeros.
pub const SEGMENT_NAME_WIDTH: usize = 10;

/// Sizes that split the chain into segments of `segment_size` blocks and groups of
/// `group_size` blocks.
#[derive(Clone, Copy, Debug, PartialEq, Eq, Structural)]
pub struct SegmentOptions {
    pub segment_size: u64,
    pub group_size: u64,
}

pub open spec fn is_pow2(n: nat) -> bool
    decreases n,
{
    if n == 1 {
        true
    } else if n < 1 || n % 2 == 1 {
        false
    } else {
        is_pow2(n / 2)
    }
}

/// ASCII decimal digits of `n`, most significant first, without leading zeros.
pub open spec fn decimal(n: nat) -> Seq<u8>
    decreases n,
{
    if n < 10 {
        seq![(48 + n) as u8]
    } else {
        decimal(n / 10).push((48 + n % 10) as u8)
    }
}

/// `s` preceded by as many `'0'` characters as bring it to `width`.
pub open spec fn zero_padded(s: Seq<u8>, width: nat) -> Seq<u8> {
    if s.len() < width {
        Seq::new((width - s.len()) as nat, |i: int| 48u8) + s
    } else {
        s
    }
}

/// Name under which the segment or group starting at block `start` is stored.
pub open spec fn segment_name(start: u64) -> Seq<u8> {
    zero_padded(decimal(start as nat), SEGMENT_NAME_WIDTH as nat)
}

/// Appends the decimal digits of `n` to `out`.
pub fn push_decimal(out: &mut Vec<u8>, n: u64)
    ensures
        final(out)@ == old(out)@ + decimal(n as nat),
    decreases n,
{
    if n >= 10 {
        push_decimal(out, n / 10);
    }
    let d: u8 = (n % 10) as u8;
    out.push(48u8 + d);
    assert(final(out)@ =~= old(out)@ + decimal(n as nat));
}

impl SegmentOptions {
    /// Both sizes are powers of two and a group holds a whole number of segments.
    pub open spec fn wf(&self) -> bool {
        &&& is_pow2(self.segment_size as nat)
        &&& is_pow2(self.group_size as nat)
        &&& self.group_size % self.segment_size == 0
    }

    /// Segments and groups hold at least one block.
    pub open spec fn sizes_positive(&self) -> bool {
        self.segment_size > 0 && self.group_size > 0
    }

    pub open spec fn spec_segment_start(&self, n: u64) -> u64 {
        (n - n % self.segment_size) as u64
    }

    pub open spec fn spec_group_start(&self, n: u64) -> u64 {
        (n - n % self.group_size) as u64
    }

    /// Checks that the options describe a valid layout.
    pub fn is_valid(&self) -> (r: bool)
        ensures
            r == self.wf(),
    {
        is_power_of_two(self.segment_size) && is_power_of_two(self.group_size)
            && self.group_size % self.segment_size == 0
    }

    /// First block number of the segment that holds block `n`.
    pub fn segment_start(&self, n: u64) -> (r: u64)
        requires
            self.segment_size > 0,
        ensures
            r == self.spec_segment_start(n),
            r <= n,
            r % self.segment_size == 0,
            n - r < self.segment_size,
    {
        proof {
            lemma_round_down(n, self.segment_size);
        }
        n - n % self.segment_size
    }

    /// First block number of the group that holds block `n`.
    pub fn segment_group_start(&self, n: u64) -> (r: u64)
        requires
            self.group_size > 0,
        ensures
            r == self.spec_group_start(n),
            r <= n,
            r % self.group_size == 0,
            n - r < self.group_size,
    {
        proof {
            lemma_round_down(n, self.group_size);
        }
        n - n % self.group_size
    }

    /// Zero-padded decimal name of the segment that starts at `start`.
    pub fn format_segment_name(&self, start: u64) -> (r: Vec<u8>)
        ensures
            r@ == segment_name(start),
    {
        let mut digits: Vec<u8> = Vec::new();
        push_decimal(&mut digits, start);
        assert(digits@ =~= decimal(start as nat));
        let mut r: Vec<u8> = Vec::new();
        let mut i: usize = digits.len();
        while i < SEGMENT_NAME_WIDTH
            invariant
                digits@ == decimal(start as nat),
                digits.len() <= i <= SEGMENT_NAME_WIDTH || (i == digits.len() && i >= SEGMENT_NAME_WIDTH),
                r@ =~= Seq::new((i - digits.len()) as nat, |j: int| 48u8),
            decreases SEGMENT_NAME_WIDTH - i,
        {
            r.push(48u8);
            i = i + 1;
        }
        let mut k: usize = 0;
        let ghost pad = r@;
        while k < digits.len()
            invariant
                0 <= k <= digits.len(),
                r@ =~= pad + digits@.subrange(0, k as int),
            decreases digits.len() - k,
        {
            r.push(digits[k]);
            k = k + 1;
            assert(r@ =~= pad + digits@.subrange(0, k as int));
        }
        assert(digits@.subrange(0, digits.len() as int) =~= digits@);
        assert(r@ =~= segment_name(start));
        r
    }
}

/// Facts about rounding `n` down to a multiple of `m`.
pub proof fn lemma_round_down(n: u64, m: u64)
    requires
        m > 0,
    ensures
        n % m <= n,
        n % m < m,
        ((n - n % m) as u64) % m == 0,
{
    let q = n as int / m as int;
    vstd::arithmetic::div_mod::lemma_fundamental_div_mod(n as int, m as int);
    vstd::arithmetic::div_mod::lemma_mod_multiples_basic(q, m as int);
    assert(q * m == m * q) by (nonlinear_arith);
    assert((n - n % m) as int == q * m);
    assert(n % m <= n) by (nonlinear_arith)
        requires m > 0;
}

/// Whether `n` is a power of two.
pub fn is_power_of_two(n: u64) -> (r: bool)
    ensures
        r == is_pow2(n as nat),
{
    let mut m: u64 = n;
    while m > 1 && m % 2 == 0
        invariant
            is_pow2(m as nat) == is_pow2(n as nat),
        decreases m,
    {
        m = m / 2;
    }
    m == 1
}

} // verus!
