#![allow(dead_code, unused_imports)]

use crab_fp::{ap, curry, pure};

fn add_one(x: i32) -> i32 {
    x + 1
}

#[derive(Debug, PartialEq, Clone)]
struct LargeStruct {
    data: [u8; 1024],
    value: i32,
}

#[test]
fn basic() {
    let f = curry(|a, b| a + b);
    let g = f(1);
    let h = g.call(2);
    assert_eq!(h, 3);
}

#[test]
fn multiple_calls() {
    let f = curry(|a, b| a + b);
    let g = f(1);
    let h1 = g.call(2);
    let h2 = g.call(3);
    assert_eq!(h1, 3);
    assert_eq!(h2, 4);
}

#[test]
fn non_copy() {
    let f = curry(|a: String, b: &str| a + b);
    let g = f(String::from("hello"));
    let h1 = g.call(", world");
    let h2 = g.call("!");
    assert_eq!(h1, "hello, world");
    assert_eq!(h2, "hello!");
}

#[test]
fn large_struct() {
    let f = curry(|a: LargeStruct, b: i32| a.value + b);
    let large = LargeStruct {
        data: [0; 1024],
        value: 42,
    };
    let g = f(large);
    let h1 = g.call(8);
    let h2 = g.call(58);
    assert_eq!(h1, 50);
    assert_eq!(h2, 100);
}

#[test]
fn test_ap() {
    let x = Some(5);
    let f = Some(add_one);
    let y = ap(x, f);
    assert_eq!(y, Some(6));

    let x = vec![1, 2, 3];
    let f = vec![add_one];
    let y = ap(x, f);
    assert_eq!(y, vec![2, 3, 4]);

    let x = vec![1, 2, 3];
    let f = vec![add_one, add_one];
    let y = ap(x, f);
    assert_eq!(y, vec![2, 3, 4, 2, 3, 4]);

    let x: Result<i32, &str> = Ok(5);
    let f = Ok(add_one);
    let y = ap(x, f);
    assert_eq!(y, Ok(6));
}

#[test]
fn test_pure() {
    let y = pure::<i32, Option<_>>(5);
    assert_eq!(y, Some(5));

    let y = pure::<i32, Vec<_>>(5);
    assert_eq!(y, vec![5]);

    let y = pure::<i32, Result<_, &str>>(5);
    assert_eq!(y, Ok(5));
}
