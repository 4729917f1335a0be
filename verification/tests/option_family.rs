#![allow(dead_code, unused_imports)]

use crab_fp::{identity, Applicative, Bifunctor, Functor, Monad};

fn add_one(x: i32) -> i32 {
    x + 1
}

fn multiply_by_two(x: i32) -> i32 {
    x * 2
}

fn square(x: i32) -> i32 {
    x * x
}

fn to_string<T: ToString>(x: T) -> String {
    x.to_string()
}

#[test]
fn option_fmap() {
    let opt1 = Some(1);
    let opt2 = opt1.fmap(|x| x + 1);
    assert_eq!(opt2, Some(2));

    let opt1: Option<i32> = None;
    let opt2 = opt1.fmap(|x| x + 1);
    assert_eq!(opt2, None);
}

#[test]
fn option_pure() {
    let o = Option::pure(69);
    assert_eq!(o, Some(69));
}

#[test]
fn option_ap() {
    let o = Some(5);
    let f = Some(add_one);
    assert_eq!(o.apply(f), Some(6));

    let o = Some(5);
    let f = Some(multiply_by_two);
    assert_eq!(o.apply(f), Some(10));
}

#[test]
fn option_none_cases() {
    let o = Some(5);
    let f: Option<fn(_) -> i32> = None;
    assert_eq!(o.apply(f), None);

    let o = None;
    let f = Some(add_one);
    assert_eq!(o.apply(f), None);

    let o: Option<i32> = None;
    let f: Option<fn(_) -> i32> = None;
    assert_eq!(o.apply(f), None);
}

#[test]
fn option_identity_law() {
    // Identity: pure id <*> v = v
    let v = Some(69);
    let lhs = v.apply(Option::pure(identity));
    assert_eq!(lhs, v);

    let v: Option<i32> = None;
    let lhs = v.apply(Option::pure(identity));
    assert_eq!(lhs, v);
}

#[test]
fn option_homomorphism_law() {
    // Homomorphism: pure f <*> pure x = pure (f x)
    let x = 69;
    let p = Option::pure(to_string);
    let pp = Option::pure(x);
    let lhs = pp.apply(p);
    let rhs = Option::pure(to_string(x));
    assert_eq!(lhs, rhs);
}

#[test]
fn option_composition_law() {
    // Test composition for Option
    let w = Some(5);
    let v = Some(multiply_by_two);
    let u = Some(to_string);

    // Apply multiply_two, then to_string_fn
    let left_side = w.apply(v).apply(u);

    let v_applied_to_w = w.apply(v);
    let right_side = v_applied_to_w.apply(u);

    assert_eq!(left_side, right_side);
}

#[test]
fn option_bind() {
    let opt1 = Some(1);
    let opt2 = opt1.bind(|x| Some(x + 1));
    assert_eq!(opt2, Some(2));

    let opt1: Option<i32> = None;
    let opt2 = opt1.bind(|x| Some(x + 1));
    assert_eq!(opt2, None);
}

#[test]
fn option_left_identity_law() {
    // Left identity: return a >>= f = f a
    let a = 5;
    let f = |x: i32| Some(x * 2);

    let lhs = Option::pure(a).bind(f);
    let rhs = f(a);

    assert_eq!(lhs, rhs);
}

#[test]
fn option_right_identity_law() {
    // Right identity: m >>= return = m
    let m = Some(5);

    let lhs = m.bind(Option::pure);

    assert_eq!(lhs, m);

    // Check with None
    let m: Option<i32> = None;
    let lhs = m.bind(Option::pure);
    assert_eq!(lhs, m);
}

#[test]
fn option_associativity_law() {
    // Associativity: (m >>= f) >>= g = m >>= (|x| f x >>= g)
    let m = Some(5);
    let f = |x: i32| Some(x * 2);
    let g = |x: i32| Some(x.to_string());

    // Left side: (m >>= f) >>= g
    let lhs = m.bind(f).bind(g);

    // Right side: m >>= (|x| f x >>= g)
    let rhs = m.bind(|x| f(x).bind(g));

    assert_eq!(lhs, rhs);

    // Check with None
    let m: Option<i32> = None;
    let lhs = m.bind(f).bind(g);
    let rhs = m.bind(|x| f(x).bind(g));
    assert_eq!(lhs, rhs);
}

#[test]
fn option_chaining() {
    // Test chaining multiple bind operations
    let result = Some(5)
        .bind(|x| Some(x * 2))
        .bind(|x| Some(x + 3))
        .bind(|x: i32| Some(x.to_string()));

    assert_eq!(result, Some("13".to_string()));

    // Chain that should fail at the middle
    let result = Some(5)
        .bind(|x| Some(x * 2))
        .bind(|_| None::<i32>)
        .bind(|x: i32| Some(x.to_string()));

    assert_eq!(result, None);
}
