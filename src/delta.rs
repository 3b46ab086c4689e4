//! Delta-coded integer columns.
use vstd::prelude::*;
use crate::wire::{zigzag, twos, decode_zigzag, decode_twos};

verus! {

/// The sum of the first `n` deltas.
pub open spec fn prefix_sum(d: Seq<i64>, n: int) -> int
    decreases n,
{
    if n <= 0 || n > d.len() {
        0
    } else {
        prefix_sum(d, n - 1) + d[n - 1]
    }
}

/// Every running sum of `d` fits in an `i64`.
pub open spec fn sums_fit(d: Seq<i64>) -> bool {
    forall|n: int| 0 < n <= d.len() ==> i64::MIN <= #[trigger] prefix_sum(d, n) <= i64::MAX
}

/// The absolute values of a delta-coded column: `a[i] = d[0] + ... + d[i]`.
pub open spec fn running_sums(d: Seq<i64>) -> Seq<i64> {
    Seq::new(d.len(), |i: int| prefix_sum(d, i + 1) as i64)
}

/// Decodes a delta column, the accumulator starting at zero; `None` when a
/// running sum leaves the range of `i64`.
pub fn delta_decode(d: &Vec<i64>) -> (r: Option<Vec<i64>>)
    ensures
        r is Some <==> sums_fit(d@),
        r matches Some(a) ==> a@ == running_sums(d@),
{
    let mut out: Vec<i64> = Vec::new();
    let mut acc: i64 = 0;
    let mut i: usize = 0;
    while i < d.len()
        invariant
            i <= d@.len(),
            acc == prefix_sum(d@, i as int),
            out@.len() == i,
            forall|n: int| 0 < n <= i ==> i64::MIN <= #[trigger] prefix_sum(d@, n) <= i64::MAX,
            forall|j: int| 0 <= j < i ==> out@[j] == prefix_sum(d@, j + 1),
        decreases d@.len() - i,
    {
        let x = d[i];
        if (x > 0 && acc > i64::MAX - x) || (x < 0 && acc < i64::MIN - x) {
            assert(!(i64::MIN <= prefix_sum(d@, i + 1) <= i64::MAX));
            return None;
        }
        acc = acc + x;
        out.push(acc);
        i = i + 1;
    }
    assert(out@ =~= running_sums(d@));
    Some(out)
}

pub open spec fn zigzag_all(c: Seq<u64>) -> Seq<i64> {
    Seq::new(c.len(), |i: int| zigzag(c[i]) as i64)
}

pub open spec fn twos_all(c: Seq<u64>) -> Seq<i64> {
    Seq::new(c.len(), |i: int| twos(c[i]) as i64)
}

/// Reads a column of `sint64`/`sint32` values.
pub fn unzigzag_column(c: &Vec<u64>) -> (r: Vec<i64>)
    ensures
        r@ == zigzag_all(c@),
{
    let mut out: Vec<i64> = Vec::new();
    let mut i: usize = 0;
    while i < c.len()
        invariant
            i <= c@.len(),
            out@ =~= zigzag_all(c@).take(i as int),
        decreases c@.len() - i,
    {
        let v = decode_zigzag(c[i]);
        out.push(v);
        i = i + 1;
    }
    assert(zigzag_all(c@).take(i as int) =~= zigzag_all(c@));
    out
}

/// Reads a column of `int32`/`int64`/`uint32` values.
pub fn signed_column(c: &Vec<u64>) -> (r: Vec<i64>)
    ensures
        r@ == twos_all(c@),
{
    let mut out: Vec<i64> = Vec::new();
    let mut i: usize = 0;
    while i < c.len()
        invariant
            i <= c@.len(),
            out@ =~= twos_all(c@).take(i as int),
        decreases c@.len() - i,
    {
        let v = decode_twos(c[i]);
        out.push(v);
        i = i + 1;
    }
    assert(twos_all(c@).take(i as int) =~= twos_all(c@));
    out
}

} // verus!
