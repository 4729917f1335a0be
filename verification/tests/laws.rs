#![allow(dead_code)]

use crab_fp::{identity, Applicative, Bifunctor, Functor, Monad};

fn add_one(x: i32) -> i32 {
    x + 1
}

fn multiply_by_two(x: i32) -> i32 {
    x * 2
}

fn square(x: i32) -> i32 {
    x * x
}

fn describe(x: i32) -> String {
    format!("<{}>", x)
}

// Functor

#[test]
fn functor_identity_holds_for_every_family() {
    assert_eq!(Some(7).fmap(identity), Some(7));
    assert_eq!(None::<i32>.fmap(identity), None);
    assert_eq!(Ok::<i32, &str>(7).fmap(identity), Ok(7));
    assert_eq!(Err::<i32, &str>("bad").fmap(identity), Err("bad"));
    assert_eq!(vec![1, 2, 3].fmap(identity), vec![1, 2, 3]);
    assert_eq!(Vec::<i32>::new().fmap(identity), Vec::<i32>::new());
}

#[test]
fn functor_composition_holds_for_every_family() {
    let both = |a: i32| describe(add_one(a));
    assert_eq!(Some(7).fmap(add_one).fmap(describe), Some(7).fmap(both));
    assert_eq!(Some(7).fmap(both), Some("<8>".to_string()));
    assert_eq!(None::<i32>.fmap(add_one).fmap(describe), None::<i32>.fmap(both));
    assert_eq!(
        Ok::<i32, &str>(7).fmap(add_one).fmap(describe),
        Ok::<i32, &str>(7).fmap(both)
    );
    assert_eq!(
        Err::<i32, &str>("bad").fmap(add_one).fmap(describe),
        Err::<i32, &str>("bad").fmap(both)
    );
    assert_eq!(
        vec![1, 2, 3].fmap(add_one).fmap(describe),
        vec![1, 2, 3].fmap(both)
    );
    assert_eq!(
        vec![1, 2, 3].fmap(both),
        vec!["<2>".to_string(), "<3>".to_string(), "<4>".to_string()]
    );
    assert_eq!(
        Vec::<i32>::new().fmap(add_one).fmap(describe),
        Vec::<i32>::new().fmap(both)
    );
}

#[test]
fn fmap_keeps_the_number_and_order_of_slots() {
    let mut seen = Vec::new();
    let out = vec![10, 20, 30].fmap(|a: i32| {
        seen.push(a);
        a / 10
    });
    assert_eq!(out, vec![1, 2, 3]);
    assert_eq!(seen, vec![10, 20, 30]);
}

// Applicative

#[test]
fn applicative_identity_holds_for_every_family() {
    assert_eq!(Some(3).apply(Option::pure(identity::<i32>)), Some(3));
    assert_eq!(None::<i32>.apply(Option::pure(identity::<i32>)), None);
    assert_eq!(
        Ok::<i32, &str>(3).apply(Result::<_, &str>::pure(identity::<i32>)),
        Ok(3)
    );
    assert_eq!(
        Err::<i32, &str>("bad").apply(Result::<_, &str>::pure(identity::<i32>)),
        Err("bad")
    );
    let id: fn(i32) -> i32 = identity;
    assert_eq!(vec![1, 2, 3].apply(Vec::pure(id)), vec![1, 2, 3]);
    assert_eq!(Vec::<i32>::new().apply(Vec::pure(id)), Vec::<i32>::new());
}

#[test]
fn applicative_homomorphism_holds_for_every_family() {
    assert_eq!(
        Option::pure(4).apply(Option::pure(square)),
        Option::pure(square(4))
    );
    assert_eq!(Option::pure(4).apply(Option::pure(square)), Some(16));
    let lifted: Result<i32, &str> = Result::pure(4);
    let expected: Result<i32, &str> = Result::pure(square(4));
    assert_eq!(lifted.apply(Result::pure(square)), expected);
    let f: fn(i32) -> i32 = square;
    assert_eq!(Vec::pure(4).apply(Vec::pure(f)), Vec::pure(square(4)));
    assert_eq!(Vec::pure(4).apply(Vec::pure(f)), vec![16]);
}

#[test]
fn applicative_interchange_holds_for_every_family() {
    let y = 5;
    let call_with_y = |f: fn(i32) -> i32| f(y);
    let f: fn(i32) -> i32 = add_one;
    let g: fn(i32) -> i32 = multiply_by_two;

    assert_eq!(
        Option::pure(y).apply(Some(f)),
        Some(f).apply(Option::pure(call_with_y))
    );
    assert_eq!(
        Option::pure(y).apply(None::<fn(i32) -> i32>),
        None::<fn(i32) -> i32>.apply(Option::pure(call_with_y))
    );

    let held: Result<fn(i32) -> i32, &str> = Ok(f);
    let lifted: Result<i32, &str> = Result::pure(y);
    assert_eq!(lifted.apply(held), held.apply(Result::pure(call_with_y)));
    let failed: Result<fn(i32) -> i32, &str> = Err("no function");
    assert_eq!(lifted.apply(failed), failed.apply(Result::pure(call_with_y)));
    assert_eq!(lifted.apply(failed), Err("no function"));

    assert_eq!(
        Vec::pure(y).apply(vec![f, g]),
        vec![f, g].apply(vec![call_with_y])
    );
    assert_eq!(Vec::pure(y).apply(vec![f, g]), vec![6, 10]);
    assert_eq!(
        Vec::pure(y).apply(Vec::<fn(i32) -> i32>::new()),
        Vec::<fn(i32) -> i32>::new().apply(vec![call_with_y])
    );
}

type Step = fn(i32) -> i32;

// Composes a function with another, one argument at a time.
fn composing(f: Step) -> Box<dyn Fn(Step) -> Box<dyn Fn(i32) -> i32>> {
    Box::new(move |g: Step| Box::new(move |a: i32| f(g(a))))
}

#[test]
fn applicative_composition_holds_for_every_family() {
    let f: Step = add_one;
    let g: Step = multiply_by_two;
    let h: Step = square;

    // Option, full and absent
    let left = Some(5).apply(Some(g)).apply(Some(f));
    let composed = Some(g).apply(Some(f).apply(Option::pure(composing)));
    let right = Some(5).apply(composed);
    assert_eq!(left, right);
    assert_eq!(left, Some(11));
    let left = None::<i32>.apply(Some(g)).apply(Some(f));
    let composed = Some(g).apply(Some(f).apply(Option::pure(composing)));
    assert_eq!(left, None::<i32>.apply(composed));
    let left = Some(5).apply(None::<Step>).apply(Some(f));
    let composed = None::<Step>.apply(Some(f).apply(Option::pure(composing)));
    assert_eq!(left, Some(5).apply(composed));

    // Result, success and error
    let w: Result<i32, &str> = Ok(5);
    let v: Result<Step, &str> = Ok(g);
    let u: Result<Step, &str> = Ok(f);
    let left = w.apply(v).apply(u);
    let right = w.apply(v.apply(u.apply(Result::pure(composing))));
    assert_eq!(left, right);
    assert_eq!(left, Ok(11));
    let w: Result<i32, &str> = Err("no value");
    let left = w.apply(v).apply(u);
    let right = w.apply(v.apply(u.apply(Result::pure(composing))));
    assert_eq!(left, right);
    assert_eq!(left, Err("no value"));

    // Vec, full and empty
    let w = vec![1, 2, 3];
    let v = vec![g, h];
    let u = vec![f, h];
    let left = w.clone().apply(v.clone()).apply(u.clone());
    let composer: fn(Step) -> Box<dyn Fn(Step) -> Box<dyn Fn(i32) -> i32>> = composing;
    let right = w.clone().apply(v.clone().apply(u.clone().apply(vec![composer])));
    assert_eq!(left, right);
    assert_eq!(left, vec![3, 5, 7, 2, 5, 10, 4, 16, 36, 1, 16, 81]);
    let left = Vec::<i32>::new().apply(v.clone()).apply(u.clone());
    let right = Vec::<i32>::new().apply(v.apply(u.apply(vec![composer])));
    assert_eq!(left, right);
    assert_eq!(left, Vec::<i32>::new());
}

// Monad

#[test]
fn monad_left_identity_holds_for_every_family() {
    let halve = |x: i32| if x % 2 == 0 { Some(x / 2) } else { None };
    assert_eq!(Option::pure(8).bind(halve), halve(8));
    assert_eq!(Option::pure(7).bind(halve), halve(7));
    assert_eq!(Option::pure(7).bind(halve), None);

    let checked = |x: i32| if x >= 0 { Ok(x) } else { Err("negative") };
    assert_eq!(Result::pure(3).bind(checked), checked(3));
    assert_eq!(Result::pure(-3).bind(checked), checked(-3));
    assert_eq!(Result::pure(-3).bind(checked), Err("negative"));

    let repeat = |x: i32| vec![x; if x > 0 { x as usize } else { 0 }];
    assert_eq!(Vec::pure(3).bind(repeat), repeat(3));
    assert_eq!(Vec::pure(0).bind(repeat), repeat(0));
    assert_eq!(Vec::pure(0).bind(repeat), Vec::<i32>::new());
}

#[test]
fn monad_right_identity_holds_for_every_family() {
    assert_eq!(Some(8).bind(Option::pure), Some(8));
    assert_eq!(None::<i32>.bind(Option::pure), None);
    assert_eq!(Ok::<i32, &str>(8).bind(Result::pure), Ok(8));
    assert_eq!(Err::<i32, &str>("bad").bind(Result::pure), Err("bad"));
    assert_eq!(vec![1, 2, 3].bind(Vec::pure), vec![1, 2, 3]);
    assert_eq!(Vec::<i32>::new().bind(Vec::pure), Vec::<i32>::new());
}

#[test]
fn monad_associativity_holds_for_every_family() {
    let halve = |x: i32| if x % 2 == 0 { Some(x / 2) } else { None };
    let small = |x: i32| if x < 10 { Some(x.to_string()) } else { None };
    for m in [Some(8), Some(7), Some(40), None] {
        assert_eq!(m.bind(halve).bind(small), m.bind(|x| halve(x).bind(small)));
    }
    assert_eq!(Some(8).bind(halve).bind(small), Some("4".to_string()));
    assert_eq!(Some(7).bind(halve).bind(small), None);
    assert_eq!(Some(40).bind(halve).bind(small), None);

    let checked = |x: i32| if x >= 0 { Ok(x) } else { Err("negative") };
    let inverse = |x: i32| if x != 0 { Ok(100 / x) } else { Err("zero") };
    for m in [Ok(5), Ok(-5), Ok(0), Err("bad")] {
        assert_eq!(
            m.bind(checked).bind(inverse),
            m.bind(|x| checked(x).bind(inverse))
        );
    }
    assert_eq!(Ok(5).bind(checked).bind(inverse), Ok(20));
    assert_eq!(Ok(-5).bind(checked).bind(inverse), Err("negative"));
    assert_eq!(Ok(0).bind(checked).bind(inverse), Err("zero"));

    let repeat = |x: i32| vec![x; if x > 0 { x as usize } else { 0 }];
    let around = |x: i32| vec![x - 1, x + 1];
    for m in [vec![1, 2, 3], vec![0], vec![]] {
        assert_eq!(
            m.clone().bind(repeat).bind(around),
            m.bind(|x| repeat(x).bind(around))
        );
    }
    assert_eq!(
        vec![1, 2].bind(repeat).bind(around),
        vec![0, 2, 1, 3, 1, 3]
    );
    assert_eq!(vec![0].bind(repeat).bind(around), Vec::<i32>::new());
}

// Bifunctor

#[test]
fn bifunctor_identity_holds_on_both_cases() {
    let ok: Result<i32, String> = Ok(5);
    let err: Result<i32, String> = Err("bad".to_string());
    assert_eq!(ok.clone().bimap(identity, identity), ok);
    assert_eq!(err.clone().bimap(identity, identity), err);
}

#[test]
fn bifunctor_composition_holds_on_both_cases() {
    let shout = |s: String| s.to_uppercase();
    let mark = |s: String| format!("{}!", s);
    for x in [Ok(5), Err("bad".to_string())] {
        let left = x.clone().bimap(add_one, shout).bimap(describe, mark);
        let right = x.bimap(|a| describe(add_one(a)), |s| mark(shout(s)));
        assert_eq!(left, right);
    }
    let ok: Result<i32, String> = Ok(5);
    assert_eq!(
        ok.bimap(add_one, shout).bimap(describe, mark),
        Ok("<6>".to_string())
    );
    let err: Result<i32, String> = Err("bad".to_string());
    assert_eq!(
        err.bimap(add_one, shout).bimap(describe, mark),
        Err("BAD!".to_string())
    );
}

#[test]
fn first_and_second_leave_the_other_slot_alone() {
    let ok: Result<i32, &str> = Ok(5);
    let err: Result<i32, &str> = Err("bad");
    assert_eq!(ok.first(describe), Ok("<5>".to_string()));
    assert_eq!(err.first(describe), Err("bad"));
    assert_eq!(ok.second(|s: &str| s.len()), Ok(5));
    assert_eq!(err.second(|s: &str| s.len()), Err(3));
}
