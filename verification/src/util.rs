//! Helpers for plain functions: identity, composition in both directions,
//! currying, and the capabilities of the type classes as free functions.
use vstd::prelude::*;
use crate::kind::{Apply1, Family, TypeCtor1};
use crate::typeclass::{Applicative, Functor, computes, returned_on};

verus! {

/// Gives every value a method that returns it unchanged.
pub trait Identity: Sized {
    fn identity(self) -> (r: Self)
        ensures
            r == self,
    ;
}

impl<A> Identity for A {
    fn identity(self) -> (r: Self) {
        self
    }
}

/// Returns its argument unchanged.
pub fn identity<A>(a: A) -> (r: A)
    ensures
        r == a,
{
    a
}

/// `h` runs `first` and then `second`. It may be called on `a` wherever
/// `first` may be and `second` accepts whatever `first` returns on `a`; and
/// what `h` returns on `a` is what `second` returned on a value that `first`
/// returned on `a`.
pub open spec fn runs_in_turn<A, B, C, F: Fn(A) -> B, G: Fn(B) -> C, H: Fn(A) -> C>(
    first: F,
    second: G,
    h: H,
) -> bool {
    &&& forall|a: A|
        first.requires((a,)) && (forall|b: B| first.ensures((a,), b) ==> second.requires((b,)))
            ==> #[trigger] h.requires((a,))
    &&& forall|a: A, c: C| #[trigger]
        h.ensures((a,), c) ==> exists|b: B|
            #[trigger] first.ensures((a,), b) && second.ensures((b,), c)
}

/// Where `first` computes `g1` and `second` computes `g2`, a function that
/// runs them in turn computes "`g2` after `g1`".
pub proof fn lemma_runs_in_turn_computes<A, B, C, F: Fn(A) -> B, G: Fn(B) -> C, H: Fn(A) -> C>(
    first: F,
    second: G,
    h: H,
    g1: spec_fn(A) -> B,
    g2: spec_fn(B) -> C,
)
    requires
        runs_in_turn(first, second, h),
        computes(first, g1),
        computes(second, g2),
    ensures
        computes(h, |a: A| g2(g1(a))),
{
}

/// Composition is associative. With `fg = compose(f, g)` and
/// `gh = compose(g, h)`, both `compose(fg, h)` and `compose(f, gh)` compute
/// "`f` after `g` after `h`"; the same holds of `pipe`, read from the other
/// end.
pub proof fn composition_is_associative<
    A,
    B,
    C,
    D,
    F: Fn(C) -> D,
    G: Fn(B) -> C,
    H: Fn(A) -> B,
    FG: Fn(B) -> D,
    GH: Fn(A) -> C,
    L: Fn(A) -> D,
    R: Fn(A) -> D,
>(
    f: F,
    g: G,
    h: H,
    fg: FG,
    gh: GH,
    left: L,
    right: R,
    mf: spec_fn(C) -> D,
    mg: spec_fn(B) -> C,
    mh: spec_fn(A) -> B,
)
    requires
        computes(f, mf),
        computes(g, mg),
        computes(h, mh),
        runs_in_turn(g, f, fg),
        runs_in_turn(h, fg, left),
        runs_in_turn(h, g, gh),
        runs_in_turn(gh, f, right),
    ensures
        computes(left, |a: A| mf(mg(mh(a)))),
        computes(right, |a: A| mf(mg(mh(a)))),
{
    lemma_runs_in_turn_computes(g, f, fg, mg, mf);
    lemma_runs_in_turn_computes(h, fg, left, mh, |b: B| mf(mg(b)));
    lemma_runs_in_turn_computes(h, g, gh, mh, mg);
    lemma_runs_in_turn_computes(gh, f, right, |a: A| mg(mh(a)), mf);
}

/// Composes two functions right to left: the result maps `a` to `f(g(a))`.
pub fn compose<A, B, C, F: Fn(B) -> C, G: Fn(A) -> B>(f: F, g: G) -> (h: impl Fn(A) -> C)
    ensures
        runs_in_turn(g, f, h),
{
    move |a: A| -> (c: C)
        requires
            g.requires((a,)),
            forall|b: B| g.ensures((a,), b) ==> f.requires((b,)),
        ensures
            exists|b: B| #[trigger] g.ensures((a,), b) && f.ensures((b,), c),
        {
            let b = g(a);
            f(b)
        }
}

/// Composes two functions left to right: the result maps `a` to `g(f(a))`.
pub fn pipe<A, B, C, F, G>(f: F, g: G) -> (h: impl Fn(A) -> C) where
    F: Fn(A) -> B,
    G: Fn(B) -> C,

    ensures
        runs_in_turn(f, g, h),
{
    move |a: A| -> (c: C)
        requires
            f.requires((a,)),
            forall|b: B| f.ensures((a,), b) ==> g.requires((b,)),
        ensures
            exists|b: B| #[trigger] f.ensures((a,), b) && g.ensures((b,), c),
        {
            let b = f(a);
            g(b)
        }
}

/// Swaps the arguments of a function of two arguments: the result maps
/// `(b, a)` to `f(a, b)`.
pub fn flip<A, B, C, F: Fn(A, B) -> C>(f: F) -> (h: impl Fn(B, A) -> C)
    ensures
        forall|a: A, b: B| f.requires((a, b)) ==> #[trigger] h.requires((b, a)),
        forall|a: A, b: B, c: C| #[trigger] h.ensures((b, a), c) ==> f.ensures((a, b), c),
{
    move |b: B, a: A| -> (c: C)
        requires
            f.requires((a, b)),
        ensures
            f.ensures((a, b), c),
        { f(a, b) }
}

/// A function of two arguments with its first argument fixed.
///
/// Every call hands the function a clone of the fixed argument, so the
/// value can be used any number of times.
pub struct Partial<F, A> {
    pub function: F,
    pub fixed: A,
}

impl<F, A: Clone> Partial<F, A> {
    /// The function accepts `b` beside every clone of the fixed argument.
    pub open spec fn accepts<B, C>(self, b: B) -> bool where F: Fn(A, B) -> C {
        forall|a: A| cloned(self.fixed, a) ==> #[trigger] self.function.requires((a, b))
    }

    /// `c` is what the function returned on some clone of the fixed
    /// argument and `b`.
    pub open spec fn yields<B, C>(self, b: B, c: C) -> bool where F: Fn(A, B) -> C {
        exists|a: A| cloned(self.fixed, a) && #[trigger] self.function.ensures((a, b), c)
    }

    /// Calls the function on a clone of the fixed argument and on `b`.
    pub fn call<B, C>(&self, b: B) -> (c: C) where F: Fn(A, B) -> C
        requires
            self.accepts(b),
        ensures
            self.yields(b, c),
    {
        let a = self.fixed.clone();
        (self.function)(a, b)
    }
}

/// Curries a function of two arguments: the result takes the first argument
/// and returns the function with that argument fixed, which takes the
/// second.
pub fn curry<A, B, C, F>(f: F) -> (h: impl Fn(A) -> Partial<F, A>) where
    F: Fn(A, B) -> C + Copy,
    A: Clone,

    ensures
        forall|a: A| #[trigger] h.requires((a,)),
        forall|a: A, p: Partial<F, A>| #[trigger]
            h.ensures((a,), p) ==> p.function == f && p.fixed == a,
{
    move |a: A| -> (p: Partial<F, A>)
        ensures
            p.function == f && p.fixed == a,
        { Partial { function: f, fixed: a } }
}

/// Undoes `curry`: the result takes both arguments at once, fixes the first
/// through `g` and calls what `g` returned on the second.
pub fn uncurry<A, B, C, F, G>(g: G) -> (h: impl Fn(A, B) -> C) where
    G: Fn(A) -> Partial<F, A>,
    F: Fn(A, B) -> C,
    A: Clone,

    ensures
        forall|a: A, b: B|
            g.requires((a,)) && (forall|p: Partial<F, A>|
                g.ensures((a,), p) ==> p.accepts(b)) ==> #[trigger] h.requires((a, b)),
        forall|a: A, b: B, c: C| #[trigger]
            h.ensures((a, b), c) ==> exists|p: Partial<F, A>|
                #[trigger] g.ensures((a,), p) && p.yields(b, c),
{
    move |a: A, b: B| -> (c: C)
        requires
            g.requires((a,)),
            forall|p: Partial<F, A>| g.ensures((a,), p) ==> p.accepts(b),
        ensures
            exists|p: Partial<F, A>| #[trigger] g.ensures((a,), p) && p.yields(b, c),
        {
            let p = g(a);
            p.call(b)
        }
}

/// Turns an absent value into the error `err` and a present one into a
/// success.
pub fn option_to_result<T, E>(opt: Option<T>, err: E) -> (r: Result<T, E>)
    ensures
        r == (match opt {
            Some(v) => Ok::<T, E>(v),
            None => Err::<T, E>(err),
        }),
{
    match opt {
        Some(v) => Ok(v),
        None => Err(err),
    }
}

/// `f.fmap(g)` as a free function. The result has as many slots as `f`,
/// slot `i` of the result is what `g` returned on slot `i` of `f`, and the
/// rest is that of `f`.
pub fn fmap<A, B, FA: Functor<A>, F: FnMut(A) -> B>(f: FA, g: F) -> (r: Apply1<FA::Kind, B>) where
    FA::Kind: TypeCtor1<B>,

    requires
        forall|a: A| <FA::Kind as TypeCtor1<A>>::slots(f).contains(a) ==> #[trigger] g.requires((a,)),
    ensures
        <FA::Kind as TypeCtor1<B>>::slots(r).len() == <FA::Kind as TypeCtor1<A>>::slots(f).len(),
        forall|i: int|
            0 <= i < <FA::Kind as TypeCtor1<A>>::slots(f).len() ==> g.ensures(
                (<FA::Kind as TypeCtor1<A>>::slots(f)[i],),
                #[trigger] <FA::Kind as TypeCtor1<B>>::slots(r)[i],
            ),
        <FA::Kind as TypeCtor1<B>>::rest(r) == <FA::Kind as TypeCtor1<A>>::rest(f),
{
    f.fmap::<B, F>(g)
}

/// `FA::pure(a)` as a free function: the container of the family of `FA`
/// that holds `a` and nothing else.
pub fn pure<A, FA: Applicative<A>>(a: A) -> (r: Apply1<FA::Kind, A>)
    ensures
        <FA::Kind as TypeCtor1<A>>::slots(r) == seq![a],
{
    FA::pure(a)
}

/// `x.apply(fs)` as a free function. Every function held by `fs` is applied
/// to every value held by `x`; the result of function `j` on value `k` is
/// slot `j * n + k`, where `n` is the number of values. The rest is that of
/// `x` joined with that of `fs`.
pub fn ap<A, B, F, FA>(x: FA, fs: Apply1<FA::Kind, F>) -> (r: Apply1<FA::Kind, B>) where
    F: FnMut(A) -> B,
    FA: Applicative<A>,
    FA::Kind: TypeCtor1<B> + TypeCtor1<F>,

    requires
        forall|g: F, a: A, b: A|
            <FA::Kind as TypeCtor1<F>>::slots(fs).contains(g) && <FA::Kind as TypeCtor1<A>>::slots(
                x,
            ).contains(a) && #[trigger] FA::hands_out(a, b) ==> #[trigger] g.requires((b,)),
    ensures
        <FA::Kind as TypeCtor1<B>>::slots(r).len() == <FA::Kind as TypeCtor1<F>>::slots(fs).len()
            * <FA::Kind as TypeCtor1<A>>::slots(x).len(),
        forall|j: int, k: int|
            #![trigger <FA::Kind as TypeCtor1<F>>::slots(fs)[j], <FA::Kind as TypeCtor1<A>>::slots(x)[k]]
            0 <= j < <FA::Kind as TypeCtor1<F>>::slots(fs).len() && 0 <= k < <FA::Kind as TypeCtor1<
                A,
            >>::slots(x).len() ==> returned_on(
                |held: A, given: A| FA::hands_out(held, given),
                <FA::Kind as TypeCtor1<F>>::slots(fs)[j],
                <FA::Kind as TypeCtor1<A>>::slots(x)[k],
                <FA::Kind as TypeCtor1<B>>::slots(r)[j * <FA::Kind as TypeCtor1<A>>::slots(x).len()
                    + k],
            ),
        <FA::Kind as TypeCtor1<B>>::rest(r) == <FA::Kind as Family>::join_rest(
            <FA::Kind as TypeCtor1<A>>::rest(x),
            <FA::Kind as TypeCtor1<F>>::rest(fs),
        ),
{
    x.apply::<B, F>(fs)
}

} // verus!
