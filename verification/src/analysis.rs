//! Return maps from the local maxima of a signal, and the separation of two
//! trajectories sample by sample.

use vstd::prelude::*;
use crate::error::AnalysisError;
use crate::scalar::Scalar;
use crate::state::{Point, State};

verus! {

/// `i` is an interior index of `s` whose value is strictly above both of its
/// neighbours.
pub open spec fn is_peak(s: Seq<Scalar>, i: int) -> bool {
    0 < i < s.len() - 1 && s[i - 1].lt(s[i]) && s[i + 1].lt(s[i])
}

/// The peaks of `s` among the indices below `n`, in increasing order.
pub open spec fn peaks_below(s: Seq<Scalar>, n: int) -> Seq<int>
    decreases n,
{
    if n <= 0 {
        Seq::empty()
    } else if is_peak(s, n - 1) {
        peaks_below(s, n - 1).push(n - 1)
    } else {
        peaks_below(s, n - 1)
    }
}

/// Every peak of `s`, in increasing order.
pub open spec fn peak_indices(s: Seq<Scalar>) -> Seq<int> {
    peaks_below(s, s.len() as int)
}

/// The maxima sequence of `s`: a leading `+0`, then the value at each peak in
/// order of occurrence.
pub open spec fn maxima_of(s: Seq<Scalar>) -> Seq<Scalar> {
    seq![Scalar::zero()] + peak_indices(s).map_values(|i: int| s[i])
}

/// Collects the strict interior local maxima of `x` in order of occurrence,
/// behind a leading `+0`.
///
/// The leading zero is always there and is no maximum of the signal; the
/// first true maximum is at index 1 of the result.
pub fn find_maxima(x: &Vec<Scalar>) -> (maxima: Vec<Scalar>)
    ensures
        maxima@ == maxima_of(x@),
{
    let mut maxima: Vec<Scalar> = Vec::new();
    maxima.push(Scalar::new_zero());
    let n: usize = x.len();
    if n < 3 {
        proof {
            lemma_no_peaks_at_edges(x@, n as int);
            assert(peak_indices(x@) =~= Seq::<int>::empty());
            assert(maxima@ =~= maxima_of(x@));
        }
        return maxima;
    }
    proof {
        lemma_no_peaks_at_edges(x@, 1);
    }
    let mut i: usize = 1;
    while i < n - 1
        invariant
            n == x@.len(),
            n >= 3,
            1 <= i <= n - 1,
            maxima@ == seq![Scalar::zero()] + peaks_below(x@, i as int).map_values(
                |j: int| x@[j],
            ),
        decreases n - i,
    {
        let ghost before = peaks_below(x@, i as int);
        if x[i - 1].less_than(x[i]) && x[i + 1].less_than(x[i]) {
            maxima.push(x[i]);
            proof {
                assert(is_peak(x@, i as int));
                assert(peaks_below(x@, i + 1) == before.push(i as int));
                assert(before.push(i as int).map_values(|j: int| x@[j]) =~= before.map_values(
                    |j: int| x@[j],
                ).push(x@[i as int]));
            }
        } else {
            proof {
                assert(!is_peak(x@, i as int));
                assert(peaks_below(x@, i + 1) == before);
            }
        }
        i = i + 1;
    }
    proof {
        assert(!is_peak(x@, n - 1));
        assert(peaks_below(x@, n as int) == peaks_below(x@, n - 1));
    }
    maxima
}

/// `ratios` holds, for each pair of neighbours in `z`, what `divide` returned
/// for the later one over the earlier one.
pub open spec fn is_ratio_sequence<F: Fn(Scalar, Scalar) -> Scalar>(
    divide: F,
    z: Seq<Scalar>,
    ratios: Seq<Scalar>,
) -> bool {
    &&& ratios.len() == if z.len() == 0 {
        0
    } else {
        z.len() - 1
    }
    &&& forall|i: int|
        0 <= i < ratios.len() ==> call_ensures(divide, (z[i + 1], z[i]), #[trigger] ratios[i])
}

/// Divides each entry of `z_n` behind the first by the entry before it, with
/// the division that the caller supplies.
///
/// An earlier entry of zero is no error: the ratio is then whatever `divide`
/// yields for a zero divisor, which under IEEE 754 is an infinity or a NaN.
/// The leading zero of a maxima sequence always gives such a first ratio.
pub fn normalize_z_n<F: Fn(Scalar, Scalar) -> Scalar>(z_n: &Vec<Scalar>, divide: F) -> (z_next:
    Vec<Scalar>)
    requires
        forall|a: Scalar, b: Scalar| call_requires(divide, (a, b)),
    ensures
        is_ratio_sequence(divide, z_n@, z_next@),
{
    let mut z_next: Vec<Scalar> = Vec::new();
    let n: usize = z_n.len();
    if n == 0 {
        return z_next;
    }
    let mut i: usize = 0;
    while i < n - 1
        invariant
            n == z_n@.len(),
            n >= 1,
            i <= n - 1,
            z_next@.len() == i,
            forall|a: Scalar, b: Scalar| call_requires(divide, (a, b)),
            forall|j: int|
                0 <= j < i ==> call_ensures(divide, (z_n@[j + 1], z_n@[j]), #[trigger] z_next@[j]),
        decreases n - i,
    {
        let ratio = divide(z_n[i + 1], z_n[i]);
        z_next.push(ratio);
        i = i + 1;
    }
    z_next
}

/// Joins three coordinate sequences into one sequence of points.
///
/// Fails with `PreconditionViolation` exactly when the three lengths are not
/// all equal.
pub fn vectors_to_states(x: &Vec<Scalar>, y: &Vec<Scalar>, z: &Vec<Scalar>) -> (points: Result<
    Vec<Point>,
    AnalysisError,
>)
    ensures
        x@.len() == y@.len() && y@.len() == z@.len() ==> points is Ok && points.unwrap()@
            == Seq::new(x@.len(), |i: int| State { x: x@[i], y: y@[i], z: z@[i] }),
        !(x@.len() == y@.len() && y@.len() == z@.len()) ==> points == Err::<Vec<Point>, _>(
            AnalysisError::PreconditionViolation,
        ),
{
    if x.len() != y.len() || y.len() != z.len() {
        return Err(AnalysisError::PreconditionViolation);
    }
    let mut points: Vec<Point> = Vec::new();
    let n: usize = x.len();
    let mut i: usize = 0;
    while i < n
        invariant
            n == x@.len(),
            n == y@.len(),
            n == z@.len(),
            i <= n,
            points@ == Seq::new(i as nat, |j: int| State { x: x@[j], y: y@[j], z: z@[j] }),
        decreases n - i,
    {
        points.push(State::new(x[i], y[i], z[i]));
        i = i + 1;
        assert(points@ =~= Seq::new(i as nat, |j: int| State { x: x@[j], y: y@[j], z: z@[j] }));
    }
    Ok(points)
}

/// `values` holds, for each index, what `f` returned for the two points at
/// that index.
pub open spec fn is_pairwise_result<F: Fn(&Point, &Point) -> Scalar>(
    f: F,
    path_1: Seq<Point>,
    path_2: Seq<Point>,
    values: Seq<Scalar>,
) -> bool {
    &&& values.len() == path_1.len()
    &&& forall|i: int|
        0 <= i < values.len() ==> call_ensures(f, (&path_1[i], &path_2[i]), #[trigger] values[i])
}

/// Applies `f` to the two paths index by index.
///
/// The paths are compared by position, not by time. Fails with
/// `PreconditionViolation` exactly when their lengths differ; nothing is
/// cut off to make them fit.
pub fn analyze_two_paths<F: Fn(&Point, &Point) -> Scalar>(
    path_1: &Vec<Point>,
    path_2: &Vec<Point>,
    f: F,
) -> (values: Result<Vec<Scalar>, AnalysisError>)
    requires
        forall|a: &Point, b: &Point| call_requires(f, (a, b)),
    ensures
        path_1@.len() == path_2@.len() ==> values is Ok && is_pairwise_result(
            f,
            path_1@,
            path_2@,
            values.unwrap()@,
        ),
        path_1@.len() != path_2@.len() ==> values == Err::<Vec<Scalar>, _>(
            AnalysisError::PreconditionViolation,
        ),
{
    if path_1.len() != path_2.len() {
        return Err(AnalysisError::PreconditionViolation);
    }
    let mut values: Vec<Scalar> = Vec::new();
    let n: usize = path_1.len();
    let mut i: usize = 0;
    while i < n
        invariant
            n == path_1@.len(),
            n == path_2@.len(),
            i <= n,
            values@.len() == i,
            forall|a: &Point, b: &Point| call_requires(f, (a, b)),
            forall|j: int|
                0 <= j < i ==> call_ensures(f, (&path_1@[j], &path_2@[j]), #[trigger] values@[j]),
        decreases n - i,
    {
        let value = f(&path_1[i], &path_2[i]);
        values.push(value);
        i = i + 1;
    }
    Ok(values)
}

/// The points of the first-return map of `z_n`: each entry but the last
/// against the entry behind it.
///
/// Both sequences are one shorter than `z_n`, and empty where `z_n` is.
pub fn return_map(z_n: &Vec<Scalar>) -> (points: (Vec<Scalar>, Vec<Scalar>))
    ensures
        z_n@.len() == 0 ==> points.0@.len() == 0 && points.1@.len() == 0,
        z_n@.len() > 0 ==> points.0@ == z_n@.take(z_n@.len() - 1) && points.1@ == z_n@.skip(1),
{
    let mut earlier: Vec<Scalar> = Vec::new();
    let mut later: Vec<Scalar> = Vec::new();
    let n: usize = z_n.len();
    if n == 0 {
        return (earlier, later);
    }
    let mut i: usize = 0;
    while i < n - 1
        invariant
            n == z_n@.len(),
            n >= 1,
            i <= n - 1,
            earlier@ == z_n@.take(i as int),
            later@ == z_n@.skip(1).take(i as int),
        decreases n - i,
    {
        earlier.push(z_n[i]);
        later.push(z_n[i + 1]);
        i = i + 1;
        assert(earlier@ =~= z_n@.take(i as int));
        assert(later@ =~= z_n@.skip(1).take(i as int));
    }
    assert(z_n@.skip(1).take(n - 1) =~= z_n@.skip(1));
    (earlier, later)
}

/// Every entry of `v` is strictly above zero, so its logarithm is a number.
pub open spec fn all_positive(v: Seq<Scalar>) -> bool {
    forall|i: int| 0 <= i < v.len() ==> (#[trigger] v[i]).is_positive()
}

/// `logs` holds, for each entry of `v`, what `ln` returned for it.
pub open spec fn is_log_sequence<F: Fn(Scalar) -> Scalar>(
    ln: F,
    v: Seq<Scalar>,
    logs: Seq<Scalar>,
) -> bool {
    &&& logs.len() == v.len()
    &&& forall|i: int| 0 <= i < logs.len() ==> call_ensures(ln, (v[i],), #[trigger] logs[i])
}

/// Takes the logarithm of every entry of `v`, with the logarithm that the
/// caller supplies.
///
/// Fails with `NumericDomainError` exactly when some entry is not strictly
/// above zero (a zero, a negative number or a NaN); `ln` is then never
/// applied to such an entry, and no infinity or NaN is handed back in its
/// place.
pub fn ln_of_vec<F: Fn(Scalar) -> Scalar>(v: &Vec<Scalar>, ln: F) -> (log_v: Result<
    Vec<Scalar>,
    AnalysisError,
>)
    requires
        forall|a: Scalar| a.is_positive() ==> call_requires(ln, (a,)),
    ensures
        all_positive(v@) ==> log_v is Ok && is_log_sequence(ln, v@, log_v.unwrap()@),
        !all_positive(v@) ==> log_v == Err::<Vec<Scalar>, _>(AnalysisError::NumericDomainError),
{
    let mut log_v: Vec<Scalar> = Vec::new();
    let n: usize = v.len();
    let mut i: usize = 0;
    while i < n
        invariant
            n == v@.len(),
            i <= n,
            log_v@.len() == i,
            forall|a: Scalar| a.is_positive() ==> call_requires(ln, (a,)),
            forall|j: int| 0 <= j < i ==> (#[trigger] v@[j]).is_positive(),
            forall|j: int| 0 <= j < i ==> call_ensures(ln, (v@[j],), #[trigger] log_v@[j]),
        decreases n - i,
    {
        if !v[i].is_positive_value() {
            assert(!(#[trigger] v@[i as int]).is_positive());
            return Err(AnalysisError::NumericDomainError);
        }
        let value = ln(v[i]);
        log_v.push(value);
        i = i + 1;
    }
    Ok(log_v)
}

/// `out` is what comparing the two trajectories gives: a failure where some
/// lengths do not agree or a separation is not above zero, and else the
/// logarithm of what `distance` returned at each index.
pub open spec fn is_log_separation<D: Fn(&Point, &Point) -> Scalar, L: Fn(Scalar) -> Scalar>(
    distance: D,
    ln: L,
    reference: Seq<Point>,
    neighbour: Seq<Point>,
    out: Result<Vec<Scalar>, AnalysisError>,
) -> bool {
    if reference.len() != neighbour.len() {
        out matches Err(AnalysisError::PreconditionViolation)
    } else {
        exists|separation: Seq<Scalar>| #[trigger]
            is_pairwise_result(distance, reference, neighbour, separation) && if all_positive(
                separation,
            ) {
                out matches Ok(logs) && is_log_sequence(ln, separation, logs@)
            } else {
                out matches Err(AnalysisError::NumericDomainError)
            }
    }
}

/// The logarithm of the separation of two trajectories, sample by sample.
///
/// The trajectories are compared by position. Fails with
/// `PreconditionViolation` exactly when they differ in length, and with
/// `NumericDomainError` when some separation is not strictly above zero.
pub fn log_separation<D: Fn(&Point, &Point) -> Scalar, L: Fn(Scalar) -> Scalar>(
    reference: &Vec<Point>,
    neighbour: &Vec<Point>,
    distance: D,
    ln: L,
) -> (out: Result<Vec<Scalar>, AnalysisError>)
    requires
        forall|a: &Point, b: &Point| call_requires(distance, (a, b)),
        forall|a: Scalar| a.is_positive() ==> call_requires(ln, (a,)),
    ensures
        is_log_separation(distance, ln, reference@, neighbour@, out),
{
    match analyze_two_paths(reference, neighbour, distance) {
        Ok(separation) => {
            let out = ln_of_vec(&separation, ln);
            assert(is_pairwise_result(distance, reference@, neighbour@, separation@));
            out
        },
        Err(e) => Err(e),
    }
}

/// The ratios of a maxima sequence are one fewer than its entries, whatever
/// the signal and whatever the division.
pub proof fn lemma_normalized_maxima_len<F: Fn(Scalar, Scalar) -> Scalar>(
    divide: F,
    s: Seq<Scalar>,
    ratios: Seq<Scalar>,
)
    requires
        is_ratio_sequence(divide, maxima_of(s), ratios),
    ensures
        ratios.len() == maxima_of(s).len() - 1,
{
}

/// Where `distance` gives zero for a finite point and itself, comparing a
/// path of finite points with itself gives zero at every index.
pub proof fn lemma_self_separation_is_zero<F: Fn(&Point, &Point) -> Scalar>(
    distance: F,
    path: Seq<Point>,
    values: Seq<Scalar>,
)
    requires
        forall|i: int| 0 <= i < path.len() ==> (#[trigger] path[i]).is_finite(),
        forall|p: &Point, d: Scalar|
            p.is_finite() && #[trigger] call_ensures(distance, (p, p), d) ==> d.is_zero(),
        is_pairwise_result(distance, path, path, values),
    ensures
        values.len() == path.len(),
        forall|i: int| 0 <= i < values.len() ==> (#[trigger] values[i]).is_zero(),
{
    assert forall|i: int| 0 <= i < values.len() implies (#[trigger] values[i]).is_zero() by {
        assert(path[i].is_finite());
        assert(call_ensures(distance, (&path[i], &path[i]), values[i]));
    }
}

/// Nothing at index 0 or at the last index is a peak, so a count that stops
/// at index 1, or a signal shorter than three samples, finds none.
proof fn lemma_no_peaks_at_edges(s: Seq<Scalar>, n: int)
    requires
        n <= 1 || (n <= s.len() && s.len() < 3),
    ensures
        peaks_below(s, n) =~= Seq::<int>::empty(),
    decreases n,
{
    if n > 0 {
        lemma_no_peaks_at_edges(s, n - 1);
    }
}

/// What `peaks_below` holds: only peaks, each below `n`, in strictly
/// increasing order, and every peak below `n`.
proof fn lemma_peaks_below(s: Seq<Scalar>, n: int)
    ensures
        forall|k: int|
            0 <= k < peaks_below(s, n).len() ==> is_peak(s, #[trigger] peaks_below(s, n)[k])
                && peaks_below(s, n)[k] < n,
        forall|j: int, k: int|
            #![trigger peaks_below(s, n)[j], peaks_below(s, n)[k]]
            0 <= j < k < peaks_below(s, n).len() ==> peaks_below(s, n)[j] < peaks_below(s, n)[k],
        forall|i: int| 0 <= i < n && is_peak(s, i) ==> peaks_below(s, n).contains(i),
    decreases n,
{
    if n > 0 {
        lemma_peaks_below(s, n - 1);
        let prev = peaks_below(s, n - 1);
        let cur = peaks_below(s, n);
        assert forall|i: int| 0 <= i < n && is_peak(s, i) implies cur.contains(i) by {
            if i < n - 1 {
                assert(prev.contains(i));
                let k = choose|k: int| 0 <= k < prev.len() && prev[k] == i;
                assert(cur[k] == i);
            } else {
                assert(cur[cur.len() - 1] == i);
            }
        }
    }
}

/// Every entry of the maxima sequence behind the leading zero is the value
/// at a strict interior local maximum of the signal: an index `i` with
/// `s[i-1] < s[i]` and `s[i+1] < s[i]`. The indices come in increasing order,
/// no two of them are neighbours, and no such index is left out.
pub proof fn lemma_maxima_are_strict_peaks(s: Seq<Scalar>)
    ensures
        maxima_of(s).len() == peak_indices(s).len() + 1,
        maxima_of(s)[0] == Scalar::zero(),
        forall|k: int|
            0 <= k < peak_indices(s).len() ==> {
                let i = #[trigger] peak_indices(s)[k];
                &&& 0 < i < s.len() - 1
                &&& s[i - 1].lt(s[i])
                &&& s[i + 1].lt(s[i])
                &&& maxima_of(s)[k + 1] == s[i]
            },
        forall|k: int|
            0 <= k < peak_indices(s).len() - 1 ==> peak_indices(s)[k] + 2 <= #[trigger] peak_indices(
                s,
            )[k + 1],
        forall|i: int| is_peak(s, i) ==> peak_indices(s).contains(i),
{
    let n = s.len() as int;
    let p = peak_indices(s);
    lemma_peaks_below(s, n);
    assert forall|k: int| 0 <= k < p.len() - 1 implies p[k] + 2 <= #[trigger] p[k + 1] by {
        assert(is_peak(s, p[k]));
        assert(is_peak(s, p[k + 1]));
        assert(p[k] < p[k + 1]);
    }
}

} // verus!
