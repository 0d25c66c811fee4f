//! The `/ByteRange` value of a signature dictionary.
use crate::error::Error;
use crate::text::{ascii_chars, ascii_string, is_ascii_bytes};
use vstd::prelude::*;

verus! {

/// The ASCII decimal rendering of `n`, most significant digit first.
pub open spec fn decimal(n: nat) -> Seq<u8>
    decreases n,
{
    if n < 10 {
        seq![(48 + n) as u8]
    } else {
        decimal(n / 10).push((48 + n % 10) as u8)
    }
}

/// The values of `s` in decimal, separated by single spaces.
pub open spec fn list_text(s: Seq<usize>) -> Seq<u8>
    decreases s.len(),
{
    if s.len() == 0 {
        Seq::empty()
    } else if s.len() == 1 {
        decimal(s[0] as nat)
    } else {
        list_text(s.drop_last()).push(32u8) + decimal(s.last() as nat)
    }
}

/// The sum of the lengths of the first `k` pairs.
pub open spec fn pair_lengths(s: Seq<usize>, k: nat) -> nat
    decreases k,
{
    if k == 0 {
        0
    } else {
        pair_lengths(s, (k - 1) as nat) + s[2 * k - 1] as nat
    }
}

/// The sum of the lengths, the values at odd positions; an unpaired last
/// offset counts for nothing.
pub open spec fn total_length(s: Seq<usize>) -> nat {
    pair_lengths(s, s.len() / 2)
}

/// `n` spaces.
pub open spec fn spaces(n: nat) -> Seq<u8> {
    Seq::new(n, |i: int| 32u8)
}

/// The list of `s` right-padded with spaces to `width` bytes.
pub open spec fn padded_list(s: Seq<usize>, width: nat) -> Seq<u8> {
    list_text(s) + spaces((width - list_text(s).len()) as nat)
}

/// A list of `(offset, length)` pairs, stored flat.
#[derive(Debug, Clone)]
pub struct ByteRange(pub Vec<usize>);

impl View for ByteRange {
    type V = Seq<usize>;

    open spec fn view(&self) -> Seq<usize> {
        self.0@
    }
}

/// Appends the decimal digits of `n` to `out`.
fn push_decimal(out: &mut Vec<u8>, n: usize)
    ensures
        final(out)@ == old(out)@ + decimal(n as nat),
    decreases n,
{
    if n >= 10 {
        push_decimal(out, n / 10);
    }
    out.push(48u8 + (n % 10) as u8);
    assert(final(out)@ =~= old(out)@ + decimal(n as nat));
}

impl ByteRange {
    /// The values in decimal separated by single spaces.
    pub fn list_bytes(&self) -> (r: Vec<u8>)
        ensures
            r@ == list_text(self@),
    {
        let mut out: Vec<u8> = Vec::new();
        let mut i: usize = 0;
        while i < self.0.len()
            invariant
                i <= self@.len(),
                out@ == list_text(self@.subrange(0, i as int)),
            decreases self@.len() - i,
        {
            if i > 0 {
                out.push(32u8);
            }
            push_decimal(&mut out, self.0[i]);
            proof {
                let s = self@.subrange(0, i + 1);
                assert(s.drop_last() =~= self@.subrange(0, i as int));
            }
            i = i + 1;
        }
        assert(self@.subrange(0, self@.len() as int) =~= self@);
        out
    }

    /// The list right-padded with spaces to exactly `fixed_width` bytes.
    pub fn to_list_bytes(&self, fixed_width: usize) -> (r: Result<Vec<u8>, Error>)
        ensures
            fixed_width < list_text(self@).len() <==> r is Err,
            r matches Err(e) ==> e == (Error::FixedWidthTooSmall {
                width: fixed_width,
                needed: list_text(self@).len() as usize,
            }),
            r matches Ok(b) ==> b@ == padded_list(self@, fixed_width as nat),
    {
        let mut out = self.list_bytes();
        if fixed_width < out.len() {
            return Err(Error::FixedWidthTooSmall { width: fixed_width, needed: out.len() });
        }
        let ghost listed = out@;
        while out.len() < fixed_width
            invariant
                listed.len() <= out@.len() <= fixed_width,
                out@ == listed + spaces((out@.len() - listed.len()) as nat),
                listed == list_text(self@),
            decreases fixed_width - out@.len(),
        {
            out.push(32u8);
            assert(out@ =~= listed + spaces((out@.len() - listed.len()) as nat));
        }
        Ok(out)
    }

    /// The list right-padded with spaces to exactly `fixed_width` characters, so
    /// that it can later be overwritten in place by a list of another length.
    pub fn to_list(&self, fixed_width: usize) -> (r: Result<String, Error>)
        ensures
            fixed_width < list_text(self@).len() <==> r is Err,
            r matches Err(e) ==> e == (Error::FixedWidthTooSmall {
                width: fixed_width,
                needed: list_text(self@).len() as usize,
            }),
            r matches Ok(s) ==> s@ == ascii_chars(padded_list(self@, fixed_width as nat)),
    {
        match self.to_list_bytes(fixed_width) {
            Ok(b) => {
                proof {
                    lemma_padded_list_ascii(self@, fixed_width as nat);
                }
                Ok(ascii_string(b))
            },
            Err(e) => Err(e),
        }
    }

    /// The half-open span `offset .. offset + length` of pair `range_pair_index`,
    /// written as the inclusive range of its first and last byte.
    pub fn get_range(&self, range_pair_index: usize) -> (r: std::ops::RangeInclusive<usize>)
        requires
            2 * range_pair_index + 1 < self@.len(),
            1 <= self@[2 * range_pair_index] + self@[2 * range_pair_index + 1] <= usize::MAX,
        ensures
            r@.start == self@[2 * range_pair_index],
            r@.end == self@[2 * range_pair_index] + self@[2 * range_pair_index + 1] - 1,
            !r@.exhausted,
    {
        let _len = self.0.len();
        let index = range_pair_index * 2;
        std::ops::RangeInclusive::new(self.0[index], self.0[index] + self.0[index + 1] - 1)
    }

    /// The number of bytes that the spans cover together: the sum of the lengths.
    pub fn get_capacity_inclusive(&self) -> (r: usize)
        requires
            total_length(self@) <= usize::MAX,
        ensures
            r == total_length(self@),
    {
        let mut total: usize = 0;
        let mut i: usize = 0;
        while i + 1 < self.0.len()
            invariant
                i % 2 == 0,
                i <= self@.len(),
                total == pair_lengths(self@, (i / 2) as nat),
                total_length(self@) <= usize::MAX,
            decreases self@.len() - i,
        {
            proof {
                lemma_pair_lengths_monotonic(self@, (i / 2 + 1) as nat, self@.len() / 2);
            }
            total = total + self.0[i + 1];
            i = i + 2;
        }
        total
    }
}

proof fn lemma_decimal_ascii(n: nat)
    ensures
        is_ascii_bytes(decimal(n)),
        forall|i: int| 0 <= i < decimal(n).len() ==> 48 <= #[trigger] decimal(n)[i] <= 57,
    decreases n,
{
    if n >= 10 {
        lemma_decimal_ascii(n / 10);
    }
}

proof fn lemma_list_text_ascii(s: Seq<usize>)
    ensures
        is_ascii_bytes(list_text(s)),
    decreases s.len(),
{
    if s.len() == 1 {
        lemma_decimal_ascii(s[0] as nat);
    } else if s.len() > 1 {
        lemma_list_text_ascii(s.drop_last());
        lemma_decimal_ascii(s.last() as nat);
        let a = list_text(s.drop_last()).push(32u8);
        assert(is_ascii_bytes(a));
        assert(list_text(s) == a + decimal(s.last() as nat));
    }
}

proof fn lemma_padded_list_ascii(s: Seq<usize>, width: nat)
    ensures
        is_ascii_bytes(padded_list(s, width)),
{
    lemma_list_text_ascii(s);
}

proof fn lemma_pair_lengths_monotonic(s: Seq<usize>, k: nat, m: nat)
    requires
        k <= m,
        2 * m <= s.len(),
    ensures
        pair_lengths(s, k) <= pair_lengths(s, m),
    decreases m,
{
    if k < m {
        lemma_pair_lengths_monotonic(s, k, (m - 1) as nat);
    }
}

} // verus!
