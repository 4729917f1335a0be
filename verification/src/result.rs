//! The fallible-result family: one-slot over the success type, with the
//! error type fixed, and two-slot over both.
use vstd::prelude::*;
use crate::kind::{Apply1, Apply2, Family, Kinded1, Kinded2, TypeCtor1, TypeCtor2};
use crate::typeclass::{Applicative, Bifunctor, Functor, Monad, computes};

verus! {

/// Names the family of `Result` with the error type fixed to `E`.
pub struct ResultKind<E>(std::marker::PhantomData<E>);

impl<E> Family for ResultKind<E> {
    /// The error, if there is one.
    type Rest = Option<E>;

    /// The first error wins.
    open spec fn join_rest(first: Option<E>, second: Option<E>) -> Option<E> {
        if first is Some {
            first
        } else {
            second
        }
    }
}

impl<A, E> TypeCtor1<A> for ResultKind<E> {
    type Type = Result<A, E>;

    open spec fn slots(c: Result<A, E>) -> Seq<A> {
        match c {
            Ok(a) => seq![a],
            Err(_) => Seq::empty(),
        }
    }

    open spec fn rest(c: Result<A, E>) -> Option<E> {
        match c {
            Ok(_) => None,
            Err(e) => Some(e),
        }
    }
}

impl<A, E> Kinded1<A> for Result<A, E> {
    type Kind = ResultKind<E>;
}

/// Names the family of `Result` with both types open.
pub struct ResultKind2;

impl<A, B> TypeCtor2<A, B> for ResultKind2 {
    type Type = Result<A, B>;

    open spec fn first_slots(c: Result<A, B>) -> Seq<A> {
        match c {
            Ok(a) => seq![a],
            Err(_) => Seq::empty(),
        }
    }

    open spec fn second_slots(c: Result<A, B>) -> Seq<B> {
        match c {
            Ok(_) => Seq::empty(),
            Err(b) => seq![b],
        }
    }
}

impl<A, E> Kinded2<A, E> for Result<A, E> {
    type Kind = ResultKind2;
}

/// `x` with `g` applied to its success value; an error stays as it is.
pub open spec fn result_fmap<A, B, E>(x: Result<A, E>, g: spec_fn(A) -> B) -> Result<B, E> {
    match x {
        Ok(a) => Ok(g(a)),
        Err(e) => Err(e),
    }
}

/// The function of `gg` applied to the value of `x`. An error of `x` comes
/// out first, then an error of `gg`.
pub open spec fn result_apply<A, B, E>(x: Result<A, E>, gg: Result<spec_fn(A) -> B, E>) -> Result<
    B,
    E,
> {
    match x {
        Err(e) => Err(e),
        Ok(a) => match gg {
            Err(e) => Err(e),
            Ok(g) => Ok(g(a)),
        },
    }
}

/// What `g` returns on the success value of `x`; an error stays as it is.
pub open spec fn result_bind<A, B, E>(x: Result<A, E>, g: spec_fn(A) -> Result<B, E>) -> Result<
    B,
    E,
> {
    match x {
        Ok(a) => g(a),
        Err(e) => Err(e),
    }
}

/// `x` with `f` applied to a success value, or `g` applied to an error.
pub open spec fn result_bimap<A, B, C, D>(
    x: Result<A, B>,
    f: spec_fn(A) -> C,
    g: spec_fn(B) -> D,
) -> Result<C, D> {
    match x {
        Ok(a) => Ok(f(a)),
        Err(b) => Err(g(b)),
    }
}

/// `ff` and `gg` are the same error, or `ff` holds a function that computes
/// the one held by `gg`.
pub open spec fn result_computes<A, B, E, F: FnOnce(A) -> B>(
    ff: Result<F, E>,
    gg: Result<spec_fn(A) -> B, E>,
) -> bool {
    match (ff, gg) {
        (Ok(f), Ok(g)) => computes(f, g),
        (Err(e1), Err(e2)) => e1 == e2,
        _ => false,
    }
}

impl<A, E> Functor<A> for Result<A, E> {
    /// A success value is replaced by what `f` returns on it; an error is
    /// passed on as it is.
    fn fmap<B, M: FnMut(A) -> B>(self, f: M) -> (r: Apply1<Self::Kind, B>)
        ensures
            self is Err ==> r == Err::<B, E>(self->Err_0),
            self is Ok ==> r is Ok && f.ensures((self->Ok_0,), r->Ok_0),
            forall|g: spec_fn(A) -> B| #[trigger] computes(f, g) ==> r == result_fmap(self, g),
    {
        proof {
            if self is Ok {
                assert(<ResultKind<E> as TypeCtor1<A>>::slots(self)[0] == self->Ok_0);
            }
        }
        self.map(f)
    }
}

impl<A, E> Applicative<A> for Result<A, E> {
    /// The value held is handed out itself.
    open spec fn hands_out(held: A, given: A) -> bool {
        given == held
    }

    /// Lifts `b` to a success.
    fn pure(b: A) -> (r: Apply1<Self::Kind, A>)
        ensures
            r == Ok::<A, E>(b),
    {
        Ok(b)
    }

    /// With a value and a function, what the function returns on the value.
    /// An error of `self` is passed on first, then an error of `ff`.
    fn apply<B, F: FnMut(A) -> B>(self, ff: Apply1<Self::Kind, F>) -> (r: Apply1<Self::Kind, B>)
        ensures
            self is Err ==> r == Err::<B, E>(self->Err_0),
            self is Ok && ff is Err ==> r == Err::<B, E>(ff->Err_0),
            self is Ok && ff is Ok ==> r is Ok && (ff->Ok_0).ensures((self->Ok_0,), r->Ok_0),
            forall|gg: Result<spec_fn(A) -> B, E>| #[trigger]
                result_computes(ff, gg) ==> r == result_apply(self, gg),
    {
        proof {
            let m = <ResultKind<E> as TypeCtor1<F>>::slots(ff).len();
            let n = <ResultKind<E> as TypeCtor1<A>>::slots(self).len();
            assert(m * n == (if self is Ok && ff is Ok {
                1int
            } else {
                0int
            })) by (nonlinear_arith)
                requires
                    m == (if ff is Ok {
                        1int
                    } else {
                        0int
                    }),
                    n == (if self is Ok {
                        1int
                    } else {
                        0int
                    }),
            ;
        }
        match (self, ff) {
            (Ok(a), Ok(f)) => {
                let mut f = f;
                assert(<ResultKind<E> as TypeCtor1<F>>::slots(ff)[0] == f);
                assert(<ResultKind<E> as TypeCtor1<A>>::slots(self)[0] == a);
                assert(Self::hands_out(a, a));
                let b = f(a);
                Ok(b)
            },
            (Err(e), _) => Err(e),
            (_, Err(e)) => Err(e),
        }
    }
}

impl<A, E> Monad<A> for Result<A, E> {
    /// What `f` returns on a success value; an error is passed on as it is
    /// and `f` is not called.
    fn bind<B, F: FnMut(A) -> Result<B, E>>(self, f: F) -> (r: Apply1<Self::Kind, B>)
        ensures
            self is Err ==> r == Err::<B, E>(self->Err_0),
            self is Ok ==> f.ensures((self->Ok_0,), r),
            forall|g: spec_fn(A) -> Result<B, E>| #[trigger]
                computes(f, g) ==> r == result_bind(self, g),
    {
        let mut f = f;
        match self {
            Ok(a) => {
                assert(<ResultKind<E> as TypeCtor1<A>>::slots(self)[0] == a);
                let r = f(a);
                proof {
                    let parts = seq![<ResultKind<E> as TypeCtor1<B>>::slots(r)];
                    parts.lemma_flatten_one_element();
                }
                r
            },
            Err(e) => {
                proof {
                    let parts = Seq::<Seq<B>>::empty();
                    assert(parts.flatten() =~= Seq::<B>::empty());
                }
                Err(e)
            },
        }
    }
}

impl<A, B> Bifunctor<A, B> for Result<A, B> {
    /// Applies `f` to a success value, or `g` to an error: whichever is
    /// there.
    fn bimap<C, D, F: FnMut(A) -> C, G: FnMut(B) -> D>(self, f: F, g: G) -> (r: Apply2<
        Self::Kind,
        C,
        D,
    >)
        ensures
            self is Ok ==> r is Ok && f.ensures((self->Ok_0,), r->Ok_0),
            self is Err ==> r is Err && g.ensures((self->Err_0,), r->Err_0),
            forall|fs: spec_fn(A) -> C, gs: spec_fn(B) -> D|
                #![trigger computes(f, fs), computes(g, gs)]
                computes(f, fs) && computes(g, gs) ==> r == result_bimap(self, fs, gs),
    {
        let mut f = f;
        let mut g = g;
        match self {
            Ok(a) => {
                assert(<ResultKind2 as TypeCtor2<A, B>>::first_slots(self)[0] == a);
                let c = f(a);
                Ok(c)
            },
            Err(b) => {
                assert(<ResultKind2 as TypeCtor2<A, B>>::second_slots(self)[0] == b);
                let d = g(b);
                Err(d)
            },
        }
    }

    /// Applies `f` to a success value; an error is passed on as it is.
    fn first<C, F: FnMut(A) -> C>(self, f: F) -> (r: Apply2<Self::Kind, C, B>)
        ensures
            self is Ok ==> r is Ok && f.ensures((self->Ok_0,), r->Ok_0),
            self is Err ==> r == Err::<C, B>(self->Err_0),
            forall|fs: spec_fn(A) -> C| #[trigger]
                computes(f, fs) ==> r == result_bimap(self, fs, |b: B| b),
    {
        let mut f = f;
        match self {
            Ok(a) => {
                assert(<ResultKind2 as TypeCtor2<A, B>>::first_slots(self)[0] == a);
                let c = f(a);
                Ok(c)
            },
            Err(b) => Err(b),
        }
    }

    /// Applies `g` to an error; a success value is passed on as it is.
    fn second<D, G: FnMut(B) -> D>(self, g: G) -> (r: Apply2<Self::Kind, A, D>)
        ensures
            self is Ok ==> r == Ok::<A, D>(self->Ok_0),
            self is Err ==> r is Err && g.ensures((self->Err_0,), r->Err_0),
            forall|gs: spec_fn(B) -> D| #[trigger]
                computes(g, gs) ==> r == result_bimap(self, |a: A| a, gs),
    {
        let mut g = g;
        match self {
            Ok(a) => Ok(a),
            Err(b) => {
                assert(<ResultKind2 as TypeCtor2<A, B>>::second_slots(self)[0] == b);
                let d = g(b);
                Err(d)
            },
        }
    }
}

/// Functor identity: mapping the identity function changes nothing.
pub proof fn result_functor_identity<A, E>(x: Result<A, E>)
    ensures
        result_fmap(x, |a: A| a) == x,
{
}

/// Functor composition: mapping `f` and then `g` is mapping "`g` after `f`"
/// once.
pub proof fn result_functor_composition<A, B, C, E>(
    x: Result<A, E>,
    f: spec_fn(A) -> B,
    g: spec_fn(B) -> C,
)
    ensures
        result_fmap(result_fmap(x, f), g) == result_fmap(x, |a: A| g(f(a))),
{
}

/// Applicative identity: applying the lifted identity function changes
/// nothing.
pub proof fn result_applicative_identity<A, E>(v: Result<A, E>)
    ensures
        result_apply(v, Ok(|a: A| a)) == v,
{
}

/// Applicative homomorphism: applying a lifted function to a lifted value is
/// lifting the function's result.
pub proof fn result_applicative_homomorphism<A, B, E>(x: A, f: spec_fn(A) -> B)
    ensures
        result_apply(Ok::<A, E>(x), Ok(f)) == Ok::<B, E>(f(x)),
{
}

/// Applicative interchange: applying held functions to a lifted value `y` is
/// applying the lifted "call with `y`" to the held functions.
pub proof fn result_applicative_interchange<A, B, E>(u: Result<spec_fn(A) -> B, E>, y: A)
    ensures
        result_apply(Ok(y), u) == result_apply(u, Ok(|f: spec_fn(A) -> B| f(y))),
{
}

/// Applicative composition: applying `v` and then `u` to `w` is applying to
/// `w` the functions obtained by composing those of `u` with those of `v`.
pub proof fn result_applicative_composition<A, B, C, E>(
    u: Result<spec_fn(B) -> C, E>,
    v: Result<spec_fn(A) -> B, E>,
    w: Result<A, E>,
)
    ensures
        result_apply(result_apply(w, v), u) == result_apply(
            w,
            result_apply(
                v,
                result_apply(u, Ok(|f: spec_fn(B) -> C| |g: spec_fn(A) -> B| |a: A| f(g(a)))),
            ),
        ),
{
}

/// Monad left identity: binding a lifted value to `f` is `f` of that value.
pub proof fn result_monad_left_identity<A, B, E>(a: A, f: spec_fn(A) -> Result<B, E>)
    ensures
        result_bind(Ok(a), f) == f(a),
{
}

/// Monad right identity: binding to the lifting function changes nothing.
pub proof fn result_monad_right_identity<A, E>(m: Result<A, E>)
    ensures
        result_bind(m, |a: A| Ok(a)) == m,
{
}

/// Monad associativity: binding `f` and then `g` is binding the step that
/// runs `f` and binds its result to `g`.
pub proof fn result_monad_associativity<A, B, C, E>(
    m: Result<A, E>,
    f: spec_fn(A) -> Result<B, E>,
    g: spec_fn(B) -> Result<C, E>,
)
    ensures
        result_bind(result_bind(m, f), g) == result_bind(m, |a: A| result_bind(f(a), g)),
{
}

/// Bifunctor identity: mapping the identity function over both slots
/// changes nothing.
pub proof fn result_bifunctor_identity<A, B>(x: Result<A, B>)
    ensures
        result_bimap(x, |a: A| a, |b: B| b) == x,
{
}

/// Bifunctor composition: two mappings in a row are one mapping with the
/// functions composed slot by slot.
pub proof fn result_bifunctor_composition<A, B, A1, B1, A2, B2>(
    x: Result<A, B>,
    g1: spec_fn(A) -> A1,
    g2: spec_fn(B) -> B1,
    f1: spec_fn(A1) -> A2,
    f2: spec_fn(B1) -> B2,
)
    ensures
        result_bimap(result_bimap(x, g1, g2), f1, f2) == result_bimap(
            x,
            |a: A| f1(g1(a)),
            |b: B| f2(g2(b)),
        ),
{
}

} // verus!
