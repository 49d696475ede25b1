use pointfree::{appose, atop, compose, flip, hook, monohook, reflex, revhook};
use std::cell::{Cell, RefCell};

#[test]
fn it_works() {
    let id = compose(|x: i32| x, |x: i32| x);
    assert_eq!(id(7), 7);
}

#[test]
fn atop_feeds_binary_result_to_unary() {
    let f = |c: i32| c * 10;
    let g = |a: i32, b: i32| a - b;
    let at = atop(f, g);
    for x in -3..4 {
        for y in -3..4 {
            assert_eq!(at(x, y), f(g(x, y)));
        }
    }
    assert_eq!(at(7, 2), 50);
}

#[test]
fn atop_accepts_differently_typed_arguments() {
    let at = atop(|n: usize| n * 2, |s: &str, k: usize| s.len() + k);
    assert_eq!(at("abc", 4), 14);
}

#[test]
fn compose_applies_inner_first() {
    let cp = compose(|c: i32| c + 1, |y: i32| y * 3);
    assert_eq!(cp(5), 16);
    let text = compose(|n: usize| n % 2 == 0, |s: String| s.len());
    assert!(text(String::from("abcd")));
    assert!(!text(String::from("abc")));
}

#[test]
fn compose_is_associative() {
    let f = |x: i64| x * 2;
    let g = |x: i64| x - 7;
    let h = |x: i64| x * x;
    let left = compose(compose(f, g), h);
    let right = compose(f, compose(g, h));
    for y in -20..21 {
        assert_eq!(left(y), right(y));
        assert_eq!(left(y), f(g(h(y))));
    }
    assert_eq!(left(3), 4);
}

#[test]
fn appose_transforms_both_arguments() {
    let ap = appose(|a: i32, b: i32| a - b, |c: i32| c * 2);
    assert_eq!(ap(10, 3), 14);
    let lens = appose(|a: usize, b: usize| a + b, |s: &str| s.len());
    assert_eq!(lens("ab", "cde"), 5);
}

#[test]
fn appose_calls_pre_on_first_argument_first() {
    let log = RefCell::new(Vec::new());
    let pre = |c: char| {
        log.borrow_mut().push(c);
        c.to_ascii_uppercase()
    };
    let ap = appose(|a: char, b: char| format!("{}{}", a, b), pre);
    assert_eq!(ap('x', 'y'), "XY");
    assert_eq!(*log.borrow(), vec!['x', 'y']);
    assert_eq!(ap('b', 'a'), "BA");
    assert_eq!(*log.borrow(), vec!['x', 'y', 'b', 'a']);
}

#[test]
fn appose_calls_pre_exactly_twice() {
    let calls = Cell::new(0u32);
    let ap = appose(
        |a: i32, b: i32| a + b,
        |c: i32| {
            calls.set(calls.get() + 1);
            c
        },
    );
    assert_eq!(ap(1, 2), 3);
    assert_eq!(calls.get(), 2);
}

#[test]
fn hook_and_revhook_route_differently() {
    let outer = |a: String, b: String| format!("{}{}", a, b);
    let pre = |s: String| s.to_uppercase();
    let hk = hook(outer, pre);
    let rh = revhook(outer, pre);
    let x = String::from("ab");
    let y = String::from("cd");
    assert_eq!(hk(x.clone(), y.clone()), "abCD");
    assert_eq!(rh(x.clone(), y.clone()), "cdAB");
    assert_ne!(hk(x.clone(), y.clone()), rh(x.clone(), y.clone()));
    assert_eq!(hk(x.clone(), y.clone()), outer(x.clone(), pre(y.clone())));
    assert_eq!(rh(x.clone(), y.clone()), outer(y.clone(), pre(x.clone())));
}

#[test]
fn revhook_mirrors_hook() {
    let outer = |a: i32, b: i32| a * 100 + b;
    let pre = |c: i32| c + 1;
    let hk = hook(outer, pre);
    let rh = revhook(outer, pre);
    for p in 0..5 {
        for q in 0..5 {
            assert_eq!(rh(q, p), hk(p, q));
        }
    }
}

#[test]
fn scenario_hook_revhook_flip_reflex() {
    let outer = |a: i32, b: i32| a - b;
    let pre = |c: i32| c * 2;
    assert_eq!(hook(outer, pre)(3, 4), -5);
    assert_eq!(revhook(outer, pre)(3, 4), -2);
    assert_eq!(flip(outer)(3, 4), 1);
    assert_eq!(reflex(outer)(5), 0);
}

#[test]
fn flip_swaps_arguments() {
    let fl = flip(|a: &str, n: usize| a.repeat(n));
    assert_eq!(fl(3, "ab"), "ababab");
}

#[test]
fn flip_twice_is_identity() {
    let f = |a: i32, b: i32| a * 10 - b;
    let ff = flip(flip(f));
    for x in -4..5 {
        for y in -4..5 {
            assert_eq!(ff(x, y), f(x, y));
        }
    }
}

/// A value whose clones carry a fresh tag, so that two copies can be told apart.
struct Tagged {
    tag: u32,
    payload: Vec<i32>,
    next: std::rc::Rc<Cell<u32>>,
}

impl Clone for Tagged {
    fn clone(&self) -> Self {
        let tag = self.next.get();
        self.next.set(tag + 1);
        Tagged { tag, payload: self.payload.clone(), next: self.next.clone() }
    }
}

fn tagged(payload: Vec<i32>) -> Tagged {
    Tagged { tag: 0, payload, next: std::rc::Rc::new(Cell::new(1)) }
}

#[test]
fn reflex_passes_independent_duplicates() {
    let rf = reflex(|mut a: Tagged, b: Tagged| {
        a.payload.push(99);
        (a.tag, b.tag, a.payload, b.payload)
    });
    let (ta, tb, pa, pb) = rf(tagged(vec![1, 2]));
    assert_eq!(ta, 1);
    assert_eq!(tb, 0);
    assert_eq!(pa, vec![1, 2, 99]);
    assert_eq!(pb, vec![1, 2]);
}

#[test]
fn monohook_passes_clone_first_and_transformed_original_second() {
    let mh = monohook(
        |mut a: Tagged, b: (u32, usize)| {
            a.payload.clear();
            (a.tag, a.payload.len(), b)
        },
        |t: Tagged| (t.tag, t.payload.len()),
    );
    let (ta, la, b) = mh(tagged(vec![4, 5, 6]));
    assert_eq!(ta, 1);
    assert_eq!(la, 0);
    assert_eq!(b, (0, 3));
}

#[test]
fn monohook_clones_before_pre_runs() {
    let log = RefCell::new(Vec::new());
    let v = tagged(vec![]);
    let counter = v.next.clone();
    let mh = monohook(
        |a: Tagged, b: u32| a.tag + b,
        |t: Tagged| {
            log.borrow_mut().push(counter.get());
            t.tag
        },
    );
    assert_eq!(mh(v), 1);
    assert_eq!(*log.borrow(), vec![2]);
}

#[test]
fn monohook_on_numbers() {
    let mh = monohook(|a: i32, b: i32| a - b, |c: i32| c * 2);
    assert_eq!(mh(7), -7);
}
