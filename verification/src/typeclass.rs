//! The four capabilities: mapping, lifting and applying, sequencing, and
//! mapping over two slots.
use vstd::prelude::*;
use crate::kind::{Apply1, Apply2, Family, Kinded1, Kinded2, TypeCtor1, TypeCtor2};

verus! {

/// The executable function `f` computes the mathematical function `g`:
/// whatever `f` returns on `a` is `g(a)`.
pub open spec fn computes<A, B, F: FnOnce(A) -> B>(f: F, g: spec_fn(A) -> B) -> bool {
    forall|a: A, b: B| #[trigger] f.ensures((a,), b) ==> b == g(a)
}

/// A container whose values can be transformed in place.
pub trait Functor<A>: Kinded1<A> {
    /// Applies `f` to every value held. The result has as many slots as
    /// `self`, in the same arrangement, and slot `i` of the result is what `f`
    /// returned on slot `i` of `self`. The rest stays as it is.
    fn fmap<B, M: FnMut(A) -> B>(self, f: M) -> (r: Apply1<Self::Kind, B>) where
        Self::Kind: TypeCtor1<B>,

        requires
            forall|a: A|
                <Self::Kind as TypeCtor1<A>>::slots(self).contains(a) ==> #[trigger] f.requires(
                    (a,),
                ),
        ensures
            <Self::Kind as TypeCtor1<B>>::slots(r).len() == <Self::Kind as TypeCtor1<A>>::slots(
                self,
            ).len(),
            forall|i: int|
                0 <= i < <Self::Kind as TypeCtor1<A>>::slots(self).len() ==> f.ensures(
                    (<Self::Kind as TypeCtor1<A>>::slots(self)[i],),
                    #[trigger] <Self::Kind as TypeCtor1<B>>::slots(r)[i],
                ),
            <Self::Kind as TypeCtor1<B>>::rest(r) == <Self::Kind as TypeCtor1<A>>::rest(self),
    ;
}

/// `out` is what `f` returned on some value `given` that was handed to it
/// for the held value `held`, where `handed(held, given)` says which values
/// may be handed out for which.
pub open spec fn returned_on<A, B, F: FnOnce(A) -> B>(
    handed: spec_fn(A, A) -> bool,
    f: F,
    held: A,
    out: B,
) -> bool {
    exists|given: A| handed(held, given) && #[trigger] f.ensures((given,), out)
}

/// A functor that can lift a bare value and can apply held functions to
/// held values.
pub trait Applicative<A>: Functor<A> {
    /// Whether a function may be given `given` where the container holds
    /// `held`. A family that hands each value out once gives the value
    /// itself; a family that hands a value to several functions gives each of
    /// them a duplicate.
    spec fn hands_out(held: A, given: A) -> bool;

    /// The container of this family that holds `b` and nothing else.
    fn pure(b: A) -> (r: Apply1<Self::Kind, A>)
        ensures
            <Self::Kind as TypeCtor1<A>>::slots(r) == seq![b],
    ;

    /// Applies every function held by `ff` to every value held by `self`.
    /// The results stand function by function, and under one function value
    /// by value: the result of function `j` on value `k` is slot
    /// `j * n + k`, where `n` is the number of values. The rest is that of
    /// `self` joined with that of `ff`.
    fn apply<B, F: FnMut(A) -> B>(self, ff: Apply1<Self::Kind, F>) -> (r: Apply1<
        Self::Kind,
        B,
    >) where Self::Kind: TypeCtor1<B> + TypeCtor1<F>
        requires
            forall|g: F, a: A, b: A|
                <Self::Kind as TypeCtor1<F>>::slots(ff).contains(g) && <Self::Kind as TypeCtor1<
                    A,
                >>::slots(self).contains(a) && #[trigger] Self::hands_out(a, b)
                    ==> #[trigger] g.requires((b,)),
        ensures
            <Self::Kind as TypeCtor1<B>>::slots(r).len() == <Self::Kind as TypeCtor1<F>>::slots(
                ff,
            ).len() * <Self::Kind as TypeCtor1<A>>::slots(self).len(),
            forall|j: int, k: int|
                #![trigger <Self::Kind as TypeCtor1<F>>::slots(ff)[j], <Self::Kind as TypeCtor1<A>>::slots(self)[k]]
                0 <= j < <Self::Kind as TypeCtor1<F>>::slots(ff).len() && 0 <= k < <Self::Kind as TypeCtor1<
                    A,
                >>::slots(self).len() ==> returned_on(
                    |held: A, given: A| Self::hands_out(held, given),
                    <Self::Kind as TypeCtor1<F>>::slots(ff)[j],
                    <Self::Kind as TypeCtor1<A>>::slots(self)[k],
                    <Self::Kind as TypeCtor1<B>>::slots(r)[j * <Self::Kind as TypeCtor1<A>>::slots(
                        self,
                    ).len() + k],
                ),
            <Self::Kind as TypeCtor1<B>>::rest(r) == <Self::Kind as Family>::join_rest(
                <Self::Kind as TypeCtor1<A>>::rest(self),
                <Self::Kind as TypeCtor1<F>>::rest(ff),
            ),
    ;
}

/// Some container of the family `K` that `f` returned on `a` holds exactly
/// the slots `part`.
pub open spec fn returns_slots<K: TypeCtor1<B>, A, B, F: FnOnce(A) -> K::Type>(
    f: F,
    a: A,
    part: Seq<B>,
) -> bool {
    exists|c: K::Type| #[trigger] f.ensures((a,), c) && K::slots(c) == part
}

/// An applicative whose values can each be followed by a step that returns a
/// container of the same family.
pub trait Monad<A>: Applicative<A> {
    /// Runs `f` on every value held and joins what it returns: the slots of
    /// the result are the slots of `f`'s containers, one container after the
    /// other, in the order of the values. In the contract `parts[i]` stands
    /// for the slots of the container that `f` returned on value `i`. With no
    /// value to run `f` on, the rest stays as it is; otherwise each family
    /// says what becomes of it.
    fn bind<B, F: FnMut(A) -> Apply1<Self::Kind, B>>(self, f: F) -> (r: Apply1<
        Self::Kind,
        B,
    >) where Self::Kind: TypeCtor1<B>
        requires
            forall|a: A|
                <Self::Kind as TypeCtor1<A>>::slots(self).contains(a) ==> #[trigger] f.requires(
                    (a,),
                ),
        ensures
            exists|parts: Seq<Seq<B>>|
                {
                    &&& parts.len() == <Self::Kind as TypeCtor1<A>>::slots(self).len()
                    &&& forall|i: int|
                        0 <= i < parts.len() ==> returns_slots::<Self::Kind, A, B, F>(
                            f,
                            <Self::Kind as TypeCtor1<A>>::slots(self)[i],
                            #[trigger] parts[i],
                        )
                    &&& <Self::Kind as TypeCtor1<B>>::slots(r) == #[trigger] parts.flatten()
                },
            <Self::Kind as TypeCtor1<A>>::slots(self).len() == 0 ==> <Self::Kind as TypeCtor1<
                B,
            >>::rest(r) == <Self::Kind as TypeCtor1<A>>::rest(self),
    ;
}

/// A container with two element types, each of which can be transformed.
pub trait Bifunctor<A, B>: Kinded2<A, B> {
    /// Applies `f` to every value in the first position and `g` to every
    /// value in the second. Both positions keep their number of slots.
    fn bimap<C, D, F: FnMut(A) -> C, G: FnMut(B) -> D>(self, f: F, g: G) -> (r: Apply2<
        Self::Kind,
        C,
        D,
    >) where Self::Kind: TypeCtor2<C, D>
        requires
            forall|a: A|
                <Self::Kind as TypeCtor2<A, B>>::first_slots(self).contains(a)
                    ==> #[trigger] f.requires((a,)),
            forall|b: B|
                <Self::Kind as TypeCtor2<A, B>>::second_slots(self).contains(b)
                    ==> #[trigger] g.requires((b,)),
        ensures
            <Self::Kind as TypeCtor2<C, D>>::first_slots(r).len() == <Self::Kind as TypeCtor2<
                A,
                B,
            >>::first_slots(self).len(),
            <Self::Kind as TypeCtor2<C, D>>::second_slots(r).len() == <Self::Kind as TypeCtor2<
                A,
                B,
            >>::second_slots(self).len(),
            forall|i: int|
                0 <= i < <Self::Kind as TypeCtor2<A, B>>::first_slots(self).len() ==> f.ensures(
                    (<Self::Kind as TypeCtor2<A, B>>::first_slots(self)[i],),
                    #[trigger] <Self::Kind as TypeCtor2<C, D>>::first_slots(r)[i],
                ),
            forall|i: int|
                0 <= i < <Self::Kind as TypeCtor2<A, B>>::second_slots(self).len() ==> g.ensures(
                    (<Self::Kind as TypeCtor2<A, B>>::second_slots(self)[i],),
                    #[trigger] <Self::Kind as TypeCtor2<C, D>>::second_slots(r)[i],
                ),
    ;

    /// Applies `f` to every value in the first position and leaves the
    /// second position as it is.
    fn first<C, F: FnMut(A) -> C>(self, f: F) -> (r: Apply2<Self::Kind, C, B>) where
        Self::Kind: TypeCtor2<C, B>,

        requires
            forall|a: A|
                <Self::Kind as TypeCtor2<A, B>>::first_slots(self).contains(a)
                    ==> #[trigger] f.requires((a,)),
        ensures
            <Self::Kind as TypeCtor2<C, B>>::first_slots(r).len() == <Self::Kind as TypeCtor2<
                A,
                B,
            >>::first_slots(self).len(),
            <Self::Kind as TypeCtor2<C, B>>::second_slots(r) == <Self::Kind as TypeCtor2<
                A,
                B,
            >>::second_slots(self),
            forall|i: int|
                0 <= i < <Self::Kind as TypeCtor2<A, B>>::first_slots(self).len() ==> f.ensures(
                    (<Self::Kind as TypeCtor2<A, B>>::first_slots(self)[i],),
                    #[trigger] <Self::Kind as TypeCtor2<C, B>>::first_slots(r)[i],
                ),
    ;

    /// Applies `g` to every value in the second position and leaves the
    /// first position as it is.
    fn second<D, G: FnMut(B) -> D>(self, g: G) -> (r: Apply2<Self::Kind, A, D>) where
        Self::Kind: TypeCtor2<A, D>,

        requires
            forall|b: B|
                <Self::Kind as TypeCtor2<A, B>>::second_slots(self).contains(b)
                    ==> #[trigger] g.requires((b,)),
        ensures
            <Self::Kind as TypeCtor2<A, D>>::first_slots(r) == <Self::Kind as TypeCtor2<
                A,
                B,
            >>::first_slots(self),
            <Self::Kind as TypeCtor2<A, D>>::second_slots(r).len() == <Self::Kind as TypeCtor2<
                A,
                B,
            >>::second_slots(self).len(),
            forall|i: int|
                0 <= i < <Self::Kind as TypeCtor2<A, B>>::second_slots(self).len() ==> g.ensures(
                    (<Self::Kind as TypeCtor2<A, B>>::second_slots(self)[i],),
                    #[trigger] <Self::Kind as TypeCtor2<A, D>>::second_slots(r)[i],
                ),
    ;
}

} // verus!
