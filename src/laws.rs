use vstd::prelude::*;
use crate::combinators::{is_compose, is_flip, is_hook, is_revhook};

verus! {

/// `f` gives at most one result on each argument.
pub open spec fn unary_pure<A, R, F>(f: F) -> bool
    where
        F: Fn(A) -> R,
{
    forall|a: A, r1: R, r2: R| #[trigger] f.ensures((a,), r1) && #[trigger] f.ensures((a,), r2) ==> r1 == r2
}

/// `f` gives at most one result on each pair of arguments.
pub open spec fn binary_pure<A, B, R, F>(f: F) -> bool
    where
        F: Fn(A, B) -> R,
{
    forall|a: A, b: B, r1: R, r2: R|
        #[trigger] f.ensures((a, b), r1) && #[trigger] f.ensures((a, b), r2) ==> r1 == r2
}

/// Composition is associative. With `fg = compose(f, g)`, `left = compose(fg, h)`,
/// `gh = compose(g, h)` and `right = compose(f, gh)`: both `left` and `right` accept
/// every argument on which `h`, then `g`, then `f` can run; each result of either
/// is `f(g(h(y)))`; and where `f`, `g` and `h` are pure, the two give the same result.
pub proof fn lemma_compose_associative<B, C, D, E, F, G, H, FG, L, GH, R>(
    f: F,
    g: G,
    h: H,
    fg: FG,
    left: L,
    gh: GH,
    right: R,
)
    where
        F: Fn(D) -> E,
        G: Fn(C) -> D,
        H: Fn(B) -> C,
        FG: Fn(C) -> E,
        L: Fn(B) -> E,
        GH: Fn(B) -> D,
        R: Fn(B) -> E,
    requires
        is_compose(fg, f, g),
        is_compose(left, fg, h),
        is_compose(gh, g, h),
        is_compose(right, f, gh),
    ensures
        forall|y: B|
            h.requires((y,)) && (forall|c: C| #[trigger] h.ensures((y,), c) ==> g.requires((c,)) && (forall|d: D|
                #[trigger] g.ensures((c,), d) ==> f.requires((d,))))
                ==> left.requires((y,)) && right.requires((y,)),
        forall|y: B, e: E| #[trigger] left.ensures((y,), e) ==>
            exists|c: C, d: D| h.ensures((y,), c) && g.ensures((c,), d) && f.ensures((d,), e),
        forall|y: B, e: E| #[trigger] right.ensures((y,), e) ==>
            exists|c: C, d: D| h.ensures((y,), c) && g.ensures((c,), d) && f.ensures((d,), e),
        unary_pure(f) && unary_pure(g) && unary_pure(h) ==> forall|y: B, e1: E, e2: E|
            #[trigger] left.ensures((y,), e1) && #[trigger] right.ensures((y,), e2) ==> e1 == e2,
{
    assert forall|y: B, e: E| #[trigger] left.ensures((y,), e) implies
        exists|c: C, d: D| h.ensures((y,), c) && g.ensures((c,), d) && f.ensures((d,), e) by {
        let c = choose|c: C| h.ensures((y,), c) && fg.ensures((c,), e);
        let d = choose|d: D| g.ensures((c,), d) && f.ensures((d,), e);
        assert(h.ensures((y,), c) && g.ensures((c,), d) && f.ensures((d,), e));
    }
    assert forall|y: B, e: E| #[trigger] right.ensures((y,), e) implies
        exists|c: C, d: D| h.ensures((y,), c) && g.ensures((c,), d) && f.ensures((d,), e) by {
        let d = choose|d: D| gh.ensures((y,), d) && f.ensures((d,), e);
        let c = choose|c: C| h.ensures((y,), c) && g.ensures((c,), d);
        assert(h.ensures((y,), c) && g.ensures((c,), d) && f.ensures((d,), e));
    }
    if unary_pure(f) && unary_pure(g) && unary_pure(h) {
        assert forall|y: B, e1: E, e2: E| #[trigger] left.ensures((y,), e1) && #[trigger] right.ensures(
            (y,),
            e2,
        ) implies e1 == e2 by {
            let c1 = choose|c: C| h.ensures((y,), c) && fg.ensures((c,), e1);
            let d1 = choose|d: D| g.ensures((c1,), d) && f.ensures((d,), e1);
            let d2 = choose|d: D| gh.ensures((y,), d) && f.ensures((d,), e2);
            let c2 = choose|c: C| h.ensures((y,), c) && g.ensures((c,), d2);
            assert(c1 == c2);
            assert(d1 == d2);
        }
    }
}

/// Hook and reverse hook route the same operands in mirror image: with
/// `hk = hook(outer, pre)` and `rh = revhook(outer, pre)`, `rh(q, p)` is
/// `hk(p, q)`, that is `outer(p, pre(q))`. Both accept `(p, q)`, resp. `(q, p)`,
/// where `pre` accepts `q` and `outer` accepts `p` with each result of `pre(q)`,
/// and where `outer` and `pre` are pure they give the same result. So on one pair
/// `(x, y)` the two differ whenever `outer(x, pre(y))` and `outer(y, pre(x))` do.
pub proof fn lemma_revhook_mirrors_hook<P, Q, C, D, M, N, HK, RH>(outer: M, pre: N, hk: HK, rh: RH)
    where
        M: Fn(P, C) -> D,
        N: Fn(Q) -> C,
        HK: Fn(P, Q) -> D,
        RH: Fn(Q, P) -> D,
    requires
        is_hook(hk, outer, pre),
        is_revhook(rh, outer, pre),
    ensures
        forall|p: P, q: Q|
            pre.requires((q,)) && (forall|c: C| #[trigger] pre.ensures((q,), c) ==> outer.requires((p, c)))
                ==> hk.requires((p, q)) && rh.requires((q, p)),
        forall|p: P, q: Q, d: D| #[trigger] rh.ensures((q, p), d) ==>
            exists|c: C| pre.ensures((q,), c) && outer.ensures((p, c), d),
        binary_pure(outer) && unary_pure(pre) ==> forall|p: P, q: Q, d1: D, d2: D|
            #[trigger] hk.ensures((p, q), d1) && #[trigger] rh.ensures((q, p), d2) ==> d1 == d2,
{
    if binary_pure(outer) && unary_pure(pre) {
        assert forall|p: P, q: Q, d1: D, d2: D| #[trigger] hk.ensures((p, q), d1) && #[trigger] rh.ensures(
            (q, p),
            d2,
        ) implies d1 == d2 by {
            let c1 = choose|c: C| pre.ensures((q,), c) && outer.ensures((p, c), d1);
            let c2 = choose|c: C| pre.ensures((q,), c) && outer.ensures((p, c), d2);
            assert(c1 == c2);
        }
    }
}

/// Flipping twice gives back the original function: with `g = flip(f)` and
/// `gg = flip(g)`, `gg` accepts every pair that `f` accepts, and each result of
/// `gg(x, y)` is a result of `f(x, y)`.
pub proof fn lemma_flip_involutive<A, B, C, F, G, GG>(f: F, g: G, gg: GG)
    where
        F: Fn(A, B) -> C,
        G: Fn(B, A) -> C,
        GG: Fn(A, B) -> C,
    requires
        is_flip(g, f),
        is_flip(gg, g),
    ensures
        forall|x: A, y: B| f.requires((x, y)) ==> #[trigger] gg.requires((x, y)),
        forall|x: A, y: B, c: C| #[trigger] gg.ensures((x, y), c) ==> f.ensures((x, y), c),
{
}

} // verus!
