use vstd::prelude::*;
use vstd::pervasive::strictly_cloned;

verus! {

// Each predicate below states what a produced callable `r` is, in terms of the
// operands it was built from. The first clause says on which arguments `r` may be
// called: those on which every operand call it would make is allowed. The second
// says that every result of `r` is the result of the operands' calls, wired as the
// combinator routes them.

/// `r(x, y)` is `outer(inner(x, y))`.
pub open spec fn is_atop<A, B, C, D, R, M, P>(r: R, outer: M, inner: P) -> bool
    where
        R: Fn(A, B) -> D,
        M: Fn(C) -> D,
        P: Fn(A, B) -> C,
{
    &&& forall|x: A, y: B|
        inner.requires((x, y)) && (forall|c: C| #[trigger] inner.ensures((x, y), c) ==> outer.requires((c,)))
            ==> #[trigger] r.requires((x, y))
    &&& forall|x: A, y: B, d: D| #[trigger]
        r.ensures((x, y), d) ==> exists|c: C| inner.ensures((x, y), c) && outer.ensures((c,), d)
}

/// `r(x, y)` is `outer(pre(x), pre(y))`.
pub open spec fn is_appose<A, B, C, R, M, P>(r: R, outer: M, pre: P) -> bool
    where
        R: Fn(A, A) -> C,
        M: Fn(B, B) -> C,
        P: Fn(A) -> B,
{
    &&& forall|x: A, y: A|
        pre.requires((x,)) && pre.requires((y,)) && (forall|b1: B, b2: B|
            #[trigger] pre.ensures((x,), b1) && #[trigger] pre.ensures((y,), b2) ==> outer.requires((b1, b2)))
            ==> #[trigger] r.requires((x, y))
    &&& forall|x: A, y: A, c: C| #[trigger]
        r.ensures((x, y), c) ==> exists|b1: B, b2: B|
            pre.ensures((x,), b1) && pre.ensures((y,), b2) && outer.ensures((b1, b2), c)
}

/// `r(y)` is `outer(inner(y))`.
pub open spec fn is_compose<B, C, D, R, M, P>(r: R, outer: M, inner: P) -> bool
    where
        R: Fn(B) -> D,
        M: Fn(C) -> D,
        P: Fn(B) -> C,
{
    &&& forall|y: B|
        inner.requires((y,)) && (forall|c: C| #[trigger] inner.ensures((y,), c) ==> outer.requires((c,)))
            ==> #[trigger] r.requires((y,))
    &&& forall|y: B, d: D| #[trigger]
        r.ensures((y,), d) ==> exists|c: C| inner.ensures((y,), c) && outer.ensures((c,), d)
}

/// `r(x, y)` is `outer(x, pre(y))`.
pub open spec fn is_hook<A, B, C, D, R, M, P>(r: R, outer: M, pre: P) -> bool
    where
        R: Fn(A, B) -> D,
        M: Fn(A, C) -> D,
        P: Fn(B) -> C,
{
    &&& forall|x: A, y: B|
        pre.requires((y,)) && (forall|c: C| #[trigger] pre.ensures((y,), c) ==> outer.requires((x, c)))
            ==> #[trigger] r.requires((x, y))
    &&& forall|x: A, y: B, d: D| #[trigger]
        r.ensures((x, y), d) ==> exists|c: C| pre.ensures((y,), c) && outer.ensures((x, c), d)
}

/// `r(x, y)` is `outer(y, pre(x))`.
pub open spec fn is_revhook<A, B, C, D, R, M, P>(r: R, outer: M, pre: P) -> bool
    where
        R: Fn(A, B) -> D,
        M: Fn(B, C) -> D,
        P: Fn(A) -> C,
{
    &&& forall|x: A, y: B|
        pre.requires((x,)) && (forall|c: C| #[trigger] pre.ensures((x,), c) ==> outer.requires((y, c)))
            ==> #[trigger] r.requires((x, y))
    &&& forall|x: A, y: B, d: D| #[trigger]
        r.ensures((x, y), d) ==> exists|c: C| pre.ensures((x,), c) && outer.ensures((y, c), d)
}

/// `r(y)` is `outer(y', pre(y))`, where `y'` is a clone of `y`.
pub open spec fn is_monohook<B, C, D, R, M, P>(r: R, outer: M, pre: P) -> bool
    where
        B: Clone,
        R: Fn(B) -> D,
        M: Fn(B, C) -> D,
        P: Fn(B) -> C,
{
    &&& forall|y: B|
        pre.requires((y,)) && (forall|dup: B, c: C|
            #[trigger] strictly_cloned(y, dup) && #[trigger] pre.ensures((y,), c) ==> outer.requires((dup, c)))
            ==> #[trigger] r.requires((y,))
    &&& forall|y: B, d: D| #[trigger]
        r.ensures((y,), d) ==> exists|dup: B, c: C|
            strictly_cloned(y, dup) && pre.ensures((y,), c) && outer.ensures((dup, c), d)
}

/// `r(y)` is `outer(y', y)`, where `y'` is a clone of `y`.
pub open spec fn is_reflex<B, C, R, M>(r: R, outer: M) -> bool
    where
        B: Clone,
        R: Fn(B) -> C,
        M: Fn(B, B) -> C,
{
    &&& forall|y: B|
        (forall|dup: B| #[trigger] strictly_cloned(y, dup) ==> outer.requires((dup, y)))
            ==> #[trigger] r.requires((y,))
    &&& forall|y: B, c: C| #[trigger]
        r.ensures((y,), c) ==> exists|dup: B| strictly_cloned(y, dup) && outer.ensures((dup, y), c)
}

/// `r(x, y)` is `outer(y, x)`.
pub open spec fn is_flip<A, B, C, R, M>(r: R, outer: M) -> bool
    where
        R: Fn(B, A) -> C,
        M: Fn(A, B) -> C,
{
    &&& forall|x: B, y: A| outer.requires((y, x)) ==> #[trigger] r.requires((x, y))
    &&& forall|x: B, y: A, c: C| #[trigger] r.ensures((x, y), c) ==> outer.ensures((y, x), c)
}

/// Feeds the single result of the binary `d` into the unary `m`.
pub fn atop<A, B, C, D, Mono, Duo>(m: Mono, d: Duo) -> (r: impl Fn(A, B) -> D)
    where
        Mono: Fn(C) -> D,
        Duo: Fn(A, B) -> C,
    ensures
        is_atop(r, m, d),
{
    move |x: A, y: B| -> (out: D)
        requires
            d.requires((x, y)),
            forall|c: C| d.ensures((x, y), c) ==> m.requires((c,)),
        ensures
            exists|c: C| d.ensures((x, y), c) && m.ensures((c,), out),
    {
        let c = d(x, y);
        m(c)
    }
}

/// Applies `m` to each of two arguments, the first before the second, and combines
/// the two results with `d`.
pub fn appose<A, B, C, Duo, Mono>(d: Duo, m: Mono) -> (r: impl Fn(A, A) -> C)
    where
        Duo: Fn(B, B) -> C,
        Mono: Fn(A) -> B,
    ensures
        is_appose(r, d, m),
{
    move |x: A, y: A| -> (out: C)
        requires
            m.requires((x,)),
            m.requires((y,)),
            forall|b1: B, b2: B| m.ensures((x,), b1) && m.ensures((y,), b2) ==> d.requires((b1, b2)),
        ensures
            exists|b1: B, b2: B| m.ensures((x,), b1) && m.ensures((y,), b2) && d.ensures((b1, b2), out),
    {
        let b1 = m(x);
        let b2 = m(y);
        d(b1, b2)
    }
}

/// Function composition: `m1` after `m2`.
pub fn compose<B, C, D, Mono1, Mono2>(m1: Mono1, m2: Mono2) -> (r: impl Fn(B) -> D)
    where
        Mono1: Fn(C) -> D,
        Mono2: Fn(B) -> C,
    ensures
        is_compose(r, m1, m2),
{
    move |y: B| -> (out: D)
        requires
            m2.requires((y,)),
            forall|c: C| m2.ensures((y,), c) ==> m1.requires((c,)),
        ensures
            exists|c: C| m2.ensures((y,), c) && m1.ensures((c,), out),
    {
        let c = m2(y);
        m1(c)
    }
}

/// Passes the first argument through and the second through `m`, then applies `d`.
pub fn hook<A, B, C, D, Duo, Mono>(d: Duo, m: Mono) -> (r: impl Fn(A, B) -> D)
    where
        Duo: Fn(A, C) -> D,
        Mono: Fn(B) -> C,
    ensures
        is_hook(r, d, m),
{
    move |x: A, y: B| -> (out: D)
        requires
            m.requires((y,)),
            forall|c: C| m.ensures((y,), c) ==> d.requires((x, c)),
        ensures
            exists|c: C| m.ensures((y,), c) && d.ensures((x, c), out),
    {
        let c = m(y);
        d(x, c)
    }
}

/// Gives `d` a clone of the argument first and the argument through `m` second.
/// The clone is taken before `m` runs.
pub fn monohook<B, C, D, Duo, Mono>(d: Duo, m: Mono) -> (r: impl Fn(B) -> D)
    where
        Duo: Fn(B, C) -> D,
        Mono: Fn(B) -> C,
        B: Clone,
    ensures
        is_monohook(r, d, m),
{
    move |y: B| -> (out: D)
        requires
            m.requires((y,)),
            forall|dup: B, c: C| strictly_cloned(y, dup) && m.ensures((y,), c) ==> d.requires((dup, c)),
        ensures
            exists|dup: B, c: C| strictly_cloned(y, dup) && m.ensures((y,), c) && d.ensures((dup, c), out),
    {
        let dup = y.clone();
        let c = m(y);
        d(dup, c)
    }
}

/// Gives `d` the second argument as is, in its first place, and the first argument
/// through `m`, in its second place.
pub fn revhook<A, B, C, D, Duo, Mono>(d: Duo, m: Mono) -> (r: impl Fn(A, B) -> D)
    where
        Duo: Fn(B, C) -> D,
        Mono: Fn(A) -> C,
    ensures
        is_revhook(r, d, m),
{
    move |x: A, y: B| -> (out: D)
        requires
            m.requires((x,)),
            forall|c: C| m.ensures((x,), c) ==> d.requires((y, c)),
        ensures
            exists|c: C| m.ensures((x,), c) && d.ensures((y, c), out),
    {
        let c = m(x);
        d(y, c)
    }
}

/// Gives `d` a clone of the argument and the argument itself.
pub fn reflex<B, C, Duo>(d: Duo) -> (r: impl Fn(B) -> C)
    where
        Duo: Fn(B, B) -> C,
        B: Clone,
    ensures
        is_reflex(r, d),
{
    move |y: B| -> (out: C)
        requires
            forall|dup: B| strictly_cloned(y, dup) ==> d.requires((dup, y)),
        ensures
            exists|dup: B| strictly_cloned(y, dup) && d.ensures((dup, y), out),
    {
        let dup = y.clone();
        // instantiates the requires above at this clone
        assert(strictly_cloned(y, dup));
        d(dup, y)
    }
}

/// Exchanges the two arguments of `d`.
pub fn flip<A, B, C, Duo>(d: Duo) -> (r: impl Fn(B, A) -> C)
    where
        Duo: Fn(A, B) -> C,
    ensures
        is_flip(r, d),
{
    move |x: B, y: A| -> (out: C)
        requires
            d.requires((y, x)),
        ensures
            d.ensures((y, x), out),
    {
        d(y, x)
    }
}

} // verus!
