//! Cobweb paths of a one-dimensional map.
//!
//! A cobweb path starts on the axis below the starting value, climbs to the
//! curve of the map, moves across to the diagonal, climbs to the curve again,
//! and so on. Its corners show how the iteration `r -> map(r)` runs.

use vstd::prelude::*;
use crate::error::AnalysisError;
use crate::scalar::Scalar;

verus! {

/// `xs` and `ys` are the coordinates of the first points of a cobweb path of
/// `map` from `start`.
///
/// The first point is `(start, 0)`. A point at an odd index stands on the
/// curve, straight above or below the point before it. A point at an even
/// index behind the first stands on the diagonal, level with the point
/// before it.
pub open spec fn is_cobweb_prefix<F: Fn(Scalar) -> Scalar>(
    map: F,
    start: Scalar,
    xs: Seq<Scalar>,
    ys: Seq<Scalar>,
) -> bool {
    &&& xs.len() == ys.len()
    &&& xs.len() > 0 ==> xs[0] == start && ys[0] == Scalar::zero()
    &&& (forall|i: int|
        #![trigger xs[i]]
        0 < i < xs.len() && i % 2 == 1 ==> xs[i] == xs[i - 1] && call_ensures(
            map,
            (xs[i],),
            ys[i],
        ))
    &&& (forall|i: int|
        #![trigger xs[i]]
        0 < i < xs.len() && i % 2 == 0 ==> xs[i] == ys[i - 1] && ys[i] == ys[i - 1])
}

/// Every point on the curve has finite coordinates: the map was applied to
/// numbers only and gave numbers only.
pub open spec fn stays_in_domain(xs: Seq<Scalar>, ys: Seq<Scalar>) -> bool {
    forall|i: int|
        #![trigger xs[i]]
        0 < i < xs.len() && i % 2 == 1 ==> xs[i].is_finite() && ys[i].is_finite()
}

/// Within its first `n` points, some cobweb path of `map` from `start`
/// reaches a point on the curve where the map is not defined: it is asked
/// for its value at `start`, which is no finite number, or it yields a value
/// that is none.
pub open spec fn leaves_domain<F: Fn(Scalar) -> Scalar>(map: F, start: Scalar, n: int) -> bool {
    n >= 2 && (!start.is_finite() || exists|xs: Seq<Scalar>, ys: Seq<Scalar>|
        #![trigger is_cobweb_prefix(map, start, xs, ys)]
        {
            &&& is_cobweb_prefix(map, start, xs, ys)
            &&& 2 <= xs.len() <= n
            &&& xs.len() % 2 == 0
            &&& !ys[xs.len() - 1].is_finite()
        })
}

/// The first `n` points of the cobweb path of `map` from `start`, as their
/// x-coordinates and their y-coordinates.
///
/// The map is applied once for each point on the curve, to finite numbers
/// only. Fails with `NumericDomainError` when the map would have to be
/// applied to a `start` that is not finite, or yields a value that is not
/// finite; no coordinates are returned then.
pub fn make_cobweb<F: Fn(Scalar) -> Scalar>(map: F, n: usize, start: Scalar) -> (path: Result<
    (Vec<Scalar>, Vec<Scalar>),
    AnalysisError,
>)
    requires
        forall|r: Scalar| r.is_finite() ==> call_requires(map, (r,)),
    ensures
        path matches Ok((xs, ys)) ==> {
            &&& xs@.len() == n
            &&& is_cobweb_prefix(map, start, xs@, ys@)
            &&& stays_in_domain(xs@, ys@)
        },
        path matches Err(e) ==> e == AnalysisError::NumericDomainError && leaves_domain(
            map,
            start,
            n as int,
        ),
{
    let mut xs: Vec<Scalar> = Vec::new();
    let mut ys: Vec<Scalar> = Vec::new();
    if n == 0 {
        return Ok((xs, ys));
    }
    xs.push(start);
    ys.push(Scalar::new_zero());
    if n == 1 {
        return Ok((xs, ys));
    }
    if !start.is_finite_value() {
        return Err(AnalysisError::NumericDomainError);
    }
    let mut r: Scalar = start;
    let mut i: usize = 1;
    while i < n
        invariant
            1 <= i <= n,
            xs@.len() == i,
            is_cobweb_prefix(map, start, xs@, ys@),
            stays_in_domain(xs@, ys@),
            r.is_finite(),
            i % 2 == 1 ==> xs@[i - 1] == r,
            i % 2 == 0 ==> ys@[i - 1] == r,
            forall|a: Scalar| a.is_finite() ==> call_requires(map, (a,)),
        decreases n - i,
    {
        if i % 2 != 0 {
            let value: Scalar = map(r);
            proof {
                lemma_push_on_curve(map, start, xs@, ys@, value);
            }
            if !value.is_finite_value() {
                assert(ys@.push(value)[xs@.push(r).len() - 1] == value);
                return Err(AnalysisError::NumericDomainError);
            }
            proof {
                lemma_push_in_domain(xs@, ys@, r, value);
            }
            xs.push(r);
            ys.push(value);
            r = value;
        } else {
            proof {
                lemma_push_on_diagonal(map, start, xs@, ys@);
                lemma_push_in_domain(xs@, ys@, r, r);
            }
            xs.push(r);
            ys.push(r);
        }
        i = i + 1;
    }
    Ok((xs, ys))
}

/// The value after `k` applications of `m` to `start`.
pub open spec fn iterate(m: spec_fn(Scalar) -> Scalar, start: Scalar, k: nat) -> Scalar
    decreases k,
{
    if k == 0 {
        start
    } else {
        m(iterate(m, start, (k - 1) as nat))
    }
}

/// Where `map` is a function, with `m` as its graph, its cobweb path is
/// fixed by the iterates of `start`: point `i` has the x-coordinate
/// `iterate(i / 2)`, and behind the first point, whose y-coordinate is zero,
/// the y-coordinate `iterate((i + 1) / 2)`.
pub proof fn lemma_cobweb_of_function<F: Fn(Scalar) -> Scalar>(
    map: F,
    m: spec_fn(Scalar) -> Scalar,
    start: Scalar,
    xs: Seq<Scalar>,
    ys: Seq<Scalar>,
)
    requires
        forall|r: Scalar, v: Scalar| #[trigger] call_ensures(map, (r,), v) ==> v == m(r),
        is_cobweb_prefix(map, start, xs, ys),
    ensures
        forall|i: int| 0 <= i < xs.len() ==> #[trigger] xs[i] == iterate(m, start, (i / 2) as nat),
        forall|i: int|
            0 < i < ys.len() ==> #[trigger] ys[i] == iterate(m, start, ((i + 1) / 2) as nat),
        ys.len() > 0 ==> ys[0] == Scalar::zero(),
    decreases xs.len(),
{
    if xs.len() > 1 {
        let n = xs.len() - 1;
        let px = xs.drop_last();
        let py = ys.drop_last();
        assert(is_cobweb_prefix(map, start, px, py)) by {
            assert forall|i: int| #![trigger px[i]] 0 < i < px.len() && i % 2 == 1 implies px[i]
                == px[i - 1] && call_ensures(map, (px[i],), py[i]) by {
                assert(px[i] == xs[i]);
            }
            assert forall|i: int| #![trigger px[i]] 0 < i < px.len() && i % 2 == 0 implies px[i]
                == py[i - 1] && py[i] == py[i - 1] by {
                assert(px[i] == xs[i]);
            }
        }
        lemma_cobweb_of_function(map, m, start, px, py);
        assert(px[n - 1] == xs[n - 1]);
        assert(xs[n] == xs[n]);
        if n % 2 == 1 {
            assert(xs[n] == xs[n - 1] && call_ensures(map, (xs[n],), ys[n]));
            assert(n / 2 == (n - 1) / 2);
            assert((n + 1) / 2 == n / 2 + 1);
        } else {
            assert(n % 2 == 0 && 0 < n < xs.len());
            assert(xs[n] == ys[n - 1]);
            assert(ys[n] == ys[n - 1]);
            assert(py[n - 1] == ys[n - 1]);
            assert(n / 2 == (n - 1 + 1) / 2);
            assert((n + 1) / 2 == n / 2);
        }
        assert forall|i: int| 0 <= i < xs.len() implies #[trigger] xs[i] == iterate(
            m,
            start,
            (i / 2) as nat,
        ) by {
            if i < n {
                assert(px[i] == xs[i]);
            }
        }
        assert forall|i: int| 0 < i < ys.len() implies #[trigger] ys[i] == iterate(
            m,
            start,
            ((i + 1) / 2) as nat,
        ) by {
            if i < n {
                assert(py[i] == ys[i]);
            }
        }
    }
}

/// Where `map` is a function, with `m` as its graph, whether the first `n`
/// points of its cobweb path can be had is settled by the iterates of
/// `start` up to the `n / 2`-th: a path that stays in the domain shows them
/// all to be finite, and a path that leaves it shows one that is not.
pub proof fn lemma_cobweb_domain_of_function<F: Fn(Scalar) -> Scalar>(
    map: F,
    m: spec_fn(Scalar) -> Scalar,
    start: Scalar,
    n: int,
    xs: Seq<Scalar>,
    ys: Seq<Scalar>,
)
    requires
        forall|r: Scalar, v: Scalar| #[trigger] call_ensures(map, (r,), v) ==> v == m(r),
    ensures
        is_cobweb_prefix(map, start, xs, ys) && stays_in_domain(xs, ys) && xs.len() == n && n >= 2
            ==> forall|k: int| 0 <= k <= n / 2 ==> (#[trigger] iterate(m, start, k as nat)).is_finite(),
        leaves_domain(map, start, n) ==> exists|k: int|
            0 <= k <= n / 2 && !(#[trigger] iterate(m, start, k as nat)).is_finite(),
{
    if is_cobweb_prefix(map, start, xs, ys) && stays_in_domain(xs, ys) && xs.len() == n && n >= 2 {
        lemma_cobweb_of_function(map, m, start, xs, ys);
        assert forall|k: int| 0 <= k <= n / 2 implies (#[trigger] iterate(
            m,
            start,
            k as nat,
        )).is_finite() by {
            if k == 0 {
                assert(xs[1].is_finite());
                assert(xs[1] == iterate(m, start, (1int / 2) as nat));
            } else {
                let i = 2 * k - 1;
                assert(0 < i < xs.len() && i % 2 == 1);
                assert(xs[i].is_finite());
                assert(ys[i].is_finite());
                assert((i + 1) / 2 == k);
            }
        }
    }
    if leaves_domain(map, start, n) {
        if !start.is_finite() {
            let k: int = 0;
            assert(0 <= k <= n / 2 && !iterate(m, start, k as nat).is_finite());
        } else {
            let (fx, fy) = choose|fx: Seq<Scalar>, fy: Seq<Scalar>|
                #![trigger is_cobweb_prefix(map, start, fx, fy)]
                {
                    &&& is_cobweb_prefix(map, start, fx, fy)
                    &&& 2 <= fx.len() <= n
                    &&& fx.len() % 2 == 0
                    &&& !fy[fx.len() - 1].is_finite()
                };
            lemma_cobweb_of_function(map, m, start, fx, fy);
            let i = fx.len() - 1;
            let k = fx.len() as int / 2;
            assert((i + 1) / 2 == k);
            assert(fy[i] == iterate(m, start, k as nat));
            assert(0 <= k <= n / 2 && !iterate(m, start, k as nat).is_finite());
        }
    }
}

/// A path that stays in the domain still does so with one more point, where
/// that point is off the curve or has finite coordinates.
proof fn lemma_push_in_domain(xs: Seq<Scalar>, ys: Seq<Scalar>, x: Scalar, y: Scalar)
    requires
        stays_in_domain(xs, ys),
        xs.len() == ys.len(),
        xs.len() % 2 == 1 ==> x.is_finite() && y.is_finite(),
    ensures
        stays_in_domain(xs.push(x), ys.push(y)),
{
    let fx = xs.push(x);
    let fy = ys.push(y);
    assert forall|j: int| #![trigger fx[j]] 0 < j < fx.len() && j % 2 == 1 implies fx[j].is_finite()
        && fy[j].is_finite() by {
        if j < xs.len() {
            assert(fx[j] == xs[j] && fy[j] == ys[j]);
        }
    }
}

/// A prefix that ends on the axis or on the diagonal goes on with the point
/// on the curve above or below its last point.
proof fn lemma_push_on_curve<F: Fn(Scalar) -> Scalar>(
    map: F,
    start: Scalar,
    xs: Seq<Scalar>,
    ys: Seq<Scalar>,
    value: Scalar,
)
    requires
        is_cobweb_prefix(map, start, xs, ys),
        xs.len() % 2 == 1,
        call_ensures(map, (xs.last(),), value),
    ensures
        is_cobweb_prefix(map, start, xs.push(xs.last()), ys.push(value)),
{
    let fx = xs.push(xs.last());
    let fy = ys.push(value);
    assert forall|i: int| #![trigger fx[i]] 0 < i < fx.len() && i % 2 == 1 implies fx[i] == fx[i
        - 1] && call_ensures(map, (fx[i],), fy[i]) by {
        if i < xs.len() {
            assert(fx[i] == xs[i]);
        }
    }
    assert forall|i: int| #![trigger fx[i]] 0 < i < fx.len() && i % 2 == 0 implies fx[i] == fy[i
        - 1] && fy[i] == fy[i - 1] by {
        assert(fx[i] == xs[i]);
    }
}

/// A prefix that ends on the curve goes on with the point on the diagonal
/// level with its last point.
proof fn lemma_push_on_diagonal<F: Fn(Scalar) -> Scalar>(
    map: F,
    start: Scalar,
    xs: Seq<Scalar>,
    ys: Seq<Scalar>,
)
    requires
        is_cobweb_prefix(map, start, xs, ys),
        xs.len() % 2 == 0,
        xs.len() > 0,
    ensures
        is_cobweb_prefix(map, start, xs.push(ys.last()), ys.push(ys.last())),
{
    let fx = xs.push(ys.last());
    let fy = ys.push(ys.last());
    assert forall|i: int| #![trigger fx[i]] 0 < i < fx.len() && i % 2 == 1 implies fx[i] == fx[i
        - 1] && call_ensures(map, (fx[i],), fy[i]) by {
        assert(fx[i] == xs[i]);
    }
    assert forall|i: int| #![trigger fx[i]] 0 < i < fx.len() && i % 2 == 0 implies fx[i] == fy[i
        - 1] && fy[i] == fy[i - 1] by {
        if i < xs.len() {
            assert(fx[i] == xs[i]);
        }
    }
}

/// The cobweb path of `n_iterations` applications of `map` from `start`: two
/// points for each application, `2 * n_iterations` in all.
///
/// The first pair of points is `(start, 0)` and `(start, map(start))`; every
/// later pair is a point on the diagonal and the point on the curve above or
/// below it. Fails as `make_cobweb` does.
pub fn cobweb_path<F: Fn(Scalar) -> Scalar>(map: F, n_iterations: usize, start: Scalar) -> (path:
    Result<(Vec<Scalar>, Vec<Scalar>), AnalysisError>)
    requires
        2 * n_iterations <= usize::MAX,
        forall|r: Scalar| r.is_finite() ==> call_requires(map, (r,)),
    ensures
        path matches Ok((xs, ys)) ==> {
            &&& xs@.len() == 2 * n_iterations
            &&& ys@.len() == 2 * n_iterations
            &&& is_cobweb_prefix(map, start, xs@, ys@)
            &&& stays_in_domain(xs@, ys@)
        },
        path matches Err(e) ==> e == AnalysisError::NumericDomainError && leaves_domain(
            map,
            start,
            2 * n_iterations,
        ),
{
    make_cobweb(map, 2 * n_iterations, start)
}

} // verus!
