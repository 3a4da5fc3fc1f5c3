//! Walking a sequence in order and stopping at the first failure.
use vstd::prelude::*;
use crate::error::ErrorView;

verus! {

/// Applies `step` to each element of `xs` in order, starting from `init`,
/// and stops at the first step that fails.
pub open spec fn scan<S, X>(
    xs: Seq<X>,
    init: S,
    step: spec_fn(S, X) -> Result<S, ErrorView>,
) -> Result<S, ErrorView>
    decreases xs.len(),
{
    if xs.len() == 0 {
        Ok(init)
    } else {
        match scan(xs.drop_last(), init, step) {
            Ok(s) => step(s, xs.last()),
            Err(e) => Err(e),
        }
    }
}

/// The step that reads one element with `read` and appends what it gives.
pub open spec fn collect<V, X>(read: spec_fn(X) -> Result<V, ErrorView>) -> spec_fn(
    Seq<V>,
    X,
) -> Result<Seq<V>, ErrorView> {
    |acc: Seq<V>, x: X|
        match read(x) {
            Ok(v) => Ok(acc.push(v)),
            Err(e) => Err(e),
        }
}

/// One more element: the scan of the first `i + 1` elements is the scan of
/// the first `i` followed by one step.
pub proof fn lemma_scan_next<S, X>(
    xs: Seq<X>,
    init: S,
    step: spec_fn(S, X) -> Result<S, ErrorView>,
    i: int,
)
    requires
        0 <= i < xs.len(),
    ensures
        scan(xs.take(i + 1), init, step) == match scan(xs.take(i), init, step) {
            Ok(s) => step(s, xs[i]),
            Err(e) => Err(e),
        },
{
    assert(xs.take(i + 1).drop_last() =~= xs.take(i));
}

/// Once a prefix fails, the whole scan fails the same way.
pub proof fn lemma_scan_stops<S, X>(
    xs: Seq<X>,
    init: S,
    step: spec_fn(S, X) -> Result<S, ErrorView>,
    k: int,
)
    requires
        0 <= k <= xs.len(),
        scan(xs.take(k), init, step) is Err,
    ensures
        scan(xs, init, step) == scan(xs.take(k), init, step),
    decreases xs.len() - k,
{
    if k == xs.len() {
        assert(xs.take(k) =~= xs);
    } else {
        lemma_scan_next(xs, init, step, k);
        lemma_scan_stops(xs, init, step, k + 1);
    }
}

/// A scan of the whole sequence is the scan of its full prefix.
pub proof fn lemma_scan_all<S, X>(xs: Seq<X>, init: S, step: spec_fn(S, X) -> Result<S, ErrorView>)
    ensures
        scan(xs.take(xs.len() as int), init, step) == scan(xs, init, step),
{
    assert(xs.take(xs.len() as int) =~= xs);
}

/// Collecting succeeds with `vs` exactly when each element reads as the
/// element of `vs` at its place.
pub proof fn lemma_collect<V, X>(xs: Seq<X>, read: spec_fn(X) -> Result<V, ErrorView>, vs: Seq<V>)
    ensures
        scan(xs, Seq::<V>::empty(), collect(read)) == Ok::<Seq<V>, ErrorView>(vs) <==> (
        vs.len() == xs.len() && forall|i: int| 0 <= i < xs.len() ==> #[trigger] read(xs[i]) == Ok::<V, ErrorView>(vs[i])),
    decreases xs.len(),
{
    if xs.len() == 0 {
        assert(vs.len() == 0 ==> vs =~= Seq::<V>::empty());
    } else {
        let us = xs.drop_last();
        let last = xs.last();
        assert(xs[xs.len() - 1] == last);
        lemma_collect(us, read, vs.drop_last());
        if vs.len() == xs.len() && forall|i: int|
            0 <= i < xs.len() ==> #[trigger] read(xs[i]) == Ok::<V, ErrorView>(vs[i]) {
            assert forall|i: int| 0 <= i < us.len() implies #[trigger] read(us[i]) == Ok::<V, ErrorView>(
                vs.drop_last()[i],
            ) by {
                assert(us[i] == xs[i]);
            }
            assert(read(last) == Ok::<V, ErrorView>(vs.last()));
            assert(vs.drop_last().push(vs.last()) =~= vs);
        }
        match scan(us, Seq::<V>::empty(), collect(read)) {
            Ok(acc) => {
                lemma_collect(us, read, acc);
                if scan(xs, Seq::<V>::empty(), collect(read)) == Ok::<Seq<V>, ErrorView>(vs) {
                    let v = read(last)->Ok_0;
                    assert(vs == acc.push(v));
                    assert forall|i: int| 0 <= i < xs.len() implies #[trigger] read(xs[i]) == Ok::<V, ErrorView>(vs[i]) by {
                        if i < us.len() {
                            assert(us[i] == xs[i]);
                            assert(read(us[i]) == Ok::<V, ErrorView>(acc[i]));
                        }
                    }
                }
            },
            Err(e) => {},
        }
    }
}

/// Every failure of a scan is a failure of its step.
pub proof fn lemma_scan_error_kind<S, X>(
    xs: Seq<X>,
    init: S,
    step: spec_fn(S, X) -> Result<S, ErrorView>,
    kind: spec_fn(ErrorView) -> bool,
)
    requires
        forall|s: S, x: X| #[trigger] step(s, x) is Err ==> kind(step(s, x)->Err_0),
    ensures
        scan(xs, init, step) is Err ==> kind(scan(xs, init, step)->Err_0),
    decreases xs.len(),
{
    if xs.len() > 0 {
        lemma_scan_error_kind(xs.drop_last(), init, step, kind);
    }
}

/// Where the step fails at element `k` whatever comes before, and every
/// failure of the step is of the kind `kind`, the scan fails with that kind.
pub proof fn lemma_scan_fails<S, X>(
    xs: Seq<X>,
    init: S,
    step: spec_fn(S, X) -> Result<S, ErrorView>,
    k: int,
    kind: spec_fn(ErrorView) -> bool,
)
    requires
        0 <= k < xs.len(),
        forall|s: S| #[trigger] step(s, xs[k]) is Err,
        forall|s: S, x: X| #[trigger] step(s, x) is Err ==> kind(step(s, x)->Err_0),
    ensures
        scan(xs, init, step) is Err,
        kind(scan(xs, init, step)->Err_0),
    decreases xs.len(),
{
    let us = xs.drop_last();
    if k < us.len() {
        assert(us[k] == xs[k]);
        lemma_scan_fails(us, init, step, k, kind);
    } else {
        assert(xs.last() == xs[k]);
        match scan(us, init, step) {
            Ok(s) => {
                assert(step(s, xs[k]) is Err);
            },
            Err(e) => {
                lemma_scan_error_kind(us, init, step, kind);
            },
        }
    }
}

} // verus!
