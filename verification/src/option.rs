//! The optional-value family.
use vstd::prelude::*;
use crate::kind::{Apply1, Family, Kinded1, TypeCtor1};
use crate::typeclass::{Applicative, Functor, Monad, computes};

verus! {

/// Names the family of `Option`.
pub struct OptionKind;

impl Family for OptionKind {
    type Rest = ();

    open spec fn join_rest(first: (), second: ()) -> () {
        ()
    }
}

impl<A> TypeCtor1<A> for OptionKind {
    type Type = Option<A>;

    open spec fn slots(c: Option<A>) -> Seq<A> {
        match c {
            Some(a) => seq![a],
            None => Seq::empty(),
        }
    }

    open spec fn rest(c: Option<A>) -> () {
        ()
    }
}

impl<A> Kinded1<A> for Option<A> {
    type Kind = OptionKind;
}

/// `x` with `g` applied to the value it holds, if any.
pub open spec fn option_fmap<A, B>(x: Option<A>, g: spec_fn(A) -> B) -> Option<B> {
    match x {
        Some(a) => Some(g(a)),
        None => None,
    }
}

/// The function held by `gg`, if any, applied to the value held by `x`, if
/// any.
pub open spec fn option_apply<A, B>(x: Option<A>, gg: Option<spec_fn(A) -> B>) -> Option<B> {
    match (x, gg) {
        (Some(a), Some(g)) => Some(g(a)),
        _ => None,
    }
}

/// What `g` returns on the value held by `x`; nothing if `x` holds none.
pub open spec fn option_bind<A, B>(x: Option<A>, g: spec_fn(A) -> Option<B>) -> Option<B> {
    match x {
        Some(a) => g(a),
        None => None,
    }
}

/// `gg` holds a function exactly when `ff` does, and then `ff`'s function
/// computes `gg`'s.
pub open spec fn option_computes<A, B, F: FnOnce(A) -> B>(
    ff: Option<F>,
    gg: Option<spec_fn(A) -> B>,
) -> bool {
    match (ff, gg) {
        (Some(f), Some(g)) => computes(f, g),
        (None, None) => true,
        _ => false,
    }
}

impl<A> Functor<A> for Option<A> {
    /// A present value is replaced by what `f` returns on it; an absent one
    /// stays absent.
    fn fmap<B, M: FnMut(A) -> B>(self, f: M) -> (r: Apply1<Self::Kind, B>)
        ensures
            self is None ==> r is None,
            self is Some ==> r is Some && f.ensures((self->0,), r->0),
            forall|g: spec_fn(A) -> B| #[trigger] computes(f, g) ==> r == option_fmap(self, g),
    {
        proof {
            if self is Some {
                assert(<OptionKind as TypeCtor1<A>>::slots(self)[0] == self->0);
            }
        }
        self.map(f)
    }
}

impl<A> Applicative<A> for Option<A> {
    /// The value held is handed out itself.
    open spec fn hands_out(held: A, given: A) -> bool {
        given == held
    }

    /// Lifts `b` to a present value.
    fn pure(b: A) -> (r: Apply1<Self::Kind, A>)
        ensures
            r == Some(b),
    {
        Some(b)
    }

    /// With a value and a function present, what the function returns on the
    /// value; absent otherwise.
    fn apply<B, F: FnMut(A) -> B>(self, ff: Apply1<Self::Kind, F>) -> (r: Apply1<Self::Kind, B>)
        ensures
            self is None || ff is None ==> r is None,
            self is Some && ff is Some ==> r is Some && (ff->0).ensures((self->0,), r->0),
            forall|gg: Option<spec_fn(A) -> B>| #[trigger]
                option_computes(ff, gg) ==> r == option_apply(self, gg),
    {
        proof {
            let m = <OptionKind as TypeCtor1<F>>::slots(ff).len();
            let n = <OptionKind as TypeCtor1<A>>::slots(self).len();
            assert(m * n == (if self is Some && ff is Some {
                1int
            } else {
                0int
            })) by (nonlinear_arith)
                requires
                    m == (if ff is Some {
                        1int
                    } else {
                        0int
                    }),
                    n == (if self is Some {
                        1int
                    } else {
                        0int
                    }),
            ;
        }
        match (self, ff) {
            (Some(a), Some(f)) => {
                let mut f = f;
                assert(<OptionKind as TypeCtor1<F>>::slots(ff)[0] == f);
                assert(<OptionKind as TypeCtor1<A>>::slots(self)[0] == a);
                assert(Self::hands_out(a, a));
                Some(f(a))
            },
            _ => None,
        }
    }
}

impl<A> Monad<A> for Option<A> {
    /// What `f` returns on a present value; an absent one stays absent and
    /// `f` is not called.
    fn bind<B, F: FnMut(A) -> Option<B>>(self, f: F) -> (r: Apply1<Self::Kind, B>)
        ensures
            self is None ==> r is None,
            self is Some ==> f.ensures((self->0,), r),
            forall|g: spec_fn(A) -> Option<B>| #[trigger] computes(f, g) ==> r == option_bind(self, g),
    {
        proof {
            if self is Some {
                assert(<OptionKind as TypeCtor1<A>>::slots(self)[0] == self->0);
            }
        }
        let r = self.and_then(f);
        proof {
            if self is Some {
                seq![<OptionKind as TypeCtor1<B>>::slots(r)].lemma_flatten_one_element();
            } else {
                assert(Seq::<Seq<B>>::empty().flatten() =~= Seq::<B>::empty());
            }
        }
        r
    }
}

/// Functor identity: mapping the identity function changes nothing.
pub proof fn option_functor_identity<A>(x: Option<A>)
    ensures
        option_fmap(x, |a: A| a) == x,
{
}

/// Functor composition: mapping `f` and then `g` is mapping "`g` after `f`"
/// once.
pub proof fn option_functor_composition<A, B, C>(
    x: Option<A>,
    f: spec_fn(A) -> B,
    g: spec_fn(B) -> C,
)
    ensures
        option_fmap(option_fmap(x, f), g) == option_fmap(x, |a: A| g(f(a))),
{
}

/// Applicative identity: applying the lifted identity function changes
/// nothing.
pub proof fn option_applicative_identity<A>(v: Option<A>)
    ensures
        option_apply(v, Some(|a: A| a)) == v,
{
}

/// Applicative homomorphism: applying a lifted function to a lifted value is
/// lifting the function's result.
pub proof fn option_applicative_homomorphism<A, B>(x: A, f: spec_fn(A) -> B)
    ensures
        option_apply(Some(x), Some(f)) == Some(f(x)),
{
}

/// Applicative interchange: applying held functions to a lifted value `y` is
/// applying the lifted "call with `y`" to the held functions.
pub proof fn option_applicative_interchange<A, B>(u: Option<spec_fn(A) -> B>, y: A)
    ensures
        option_apply(Some(y), u) == option_apply(u, Some(|f: spec_fn(A) -> B| f(y))),
{
}

/// Applicative composition: applying `v` and then `u` to `w` is applying to
/// `w` the functions obtained by composing those of `u` with those of `v`.
pub proof fn option_applicative_composition<A, B, C>(
    u: Option<spec_fn(B) -> C>,
    v: Option<spec_fn(A) -> B>,
    w: Option<A>,
)
    ensures
        option_apply(option_apply(w, v), u) == option_apply(
            w,
            option_apply(
                v,
                option_apply(
                    u,
                    Some(|f: spec_fn(B) -> C| |g: spec_fn(A) -> B| |a: A| f(g(a))),
                ),
            ),
        ),
{
}

/// Monad left identity: binding a lifted value to `f` is `f` of that value.
pub proof fn option_monad_left_identity<A, B>(a: A, f: spec_fn(A) -> Option<B>)
    ensures
        option_bind(Some(a), f) == f(a),
{
}

/// Monad right identity: binding to the lifting function changes nothing.
pub proof fn option_monad_right_identity<A>(m: Option<A>)
    ensures
        option_bind(m, |a: A| Some(a)) == m,
{
}

/// Monad associativity: binding `f` and then `g` is binding the step that
/// runs `f` and binds its result to `g`.
pub proof fn option_monad_associativity<A, B, C>(
    m: Option<A>,
    f: spec_fn(A) -> Option<B>,
    g: spec_fn(B) -> Option<C>,
)
    ensures
        option_bind(option_bind(m, f), g) == option_bind(m, |a: A| option_bind(f(a), g)),
{
}

} // verus!
