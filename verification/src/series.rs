//! Price series and the first difference.

use vstd::prelude::*;

verus! {

/// The first difference of a series: entry `i` is `s[i + 1] - s[i]`.
pub open spec fn diff_spec(s: Seq<u64>) -> Seq<int> {
    Seq::new(
        if s.len() == 0 { 0nat } else { (s.len() - 1) as nat },
        |i: int| s[i + 1] - s[i],
    )
}

/// First difference of `series`, without the undefined leading entry.
pub fn diff(series: &[u64]) -> (out: Vec<i128>)
    ensures
        out@.len() == diff_spec(series@).len(),
        forall|i: int| 0 <= i < out@.len() ==> out@[i] == diff_spec(series@)[i],
{
    let mut out: Vec<i128> = Vec::new();
    let n: usize = series.len();
    if n == 0 {
        return out;
    }
    let mut i: usize = 0;
    while i + 1 < n
        invariant
            n == series@.len(),
            n >= 1,
            i + 1 <= n,
            out@.len() == i,
            forall|k: int| 0 <= k < i ==> out@[k] == series@[k + 1] - series@[k],
        decreases n - i,
    {
        let a: i128 = series[i] as i128;
        let b: i128 = series[i + 1] as i128;
        out.push(b - a);
        i = i + 1;
    }
    out
}

} // verus!
