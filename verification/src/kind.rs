//! Families of containers, named at the type level.
//!
//! A family is a container shape with its element type left open: "an
//! optional value", "a sequence". A family is named by a witness type `K`,
//! and `K: TypeCtor1<A>` says what the family looks like once the open slot is
//! filled with `A`. A container declares its family through [`Kinded1`]; the
//! bound on `Kind` makes the two directions agree.
//!
//! For contracts, a family also says what its containers are made of: the
//! values held, in order (the slots), and whatever else there is (the rest).
use vstd::prelude::*;

verus! {

/// What the containers of a family have in common whatever they hold.
///
/// A container is its slots and its rest: the rest is what it holds besides
/// the values of the open element type, such as the error of a fallible
/// result. A family whose containers are nothing but their slots has the
/// unit type for its rest.
pub trait Family {
    /// The type of the rest.
    type Rest;

    /// The rest of a container that is made from two containers, as when
    /// held functions are applied to held values: how the rest of the first
    /// and the rest of the second combine.
    spec fn join_rest(first: Self::Rest, second: Self::Rest) -> Self::Rest;
}

/// A family with one open element type, filled here with `A`.
pub trait TypeCtor1<A>: Family {
    /// The container of this family that holds values of type `A`.
    type Type;

    /// The values of type `A` that `c` holds, in the order in which the
    /// family visits them.
    spec fn slots(c: Self::Type) -> Seq<A>;

    /// What `c` holds besides its slots.
    spec fn rest(c: Self::Type) -> Self::Rest;
}

/// A family with two open element types, filled here with `A` and `B`.
pub trait TypeCtor2<A, B> {
    /// The container of this family over `A` and `B`.
    type Type;

    /// The values held in the first position, in order.
    spec fn first_slots(c: Self::Type) -> Seq<A>;

    /// The values held in the second position, in order.
    spec fn second_slots(c: Self::Type) -> Seq<B>;
}

/// A container that belongs to a one-slot family and currently holds `A`.
///
/// Applying the family to `A` must give back exactly this type.
pub trait Kinded1<A>: Sized {
    type Kind: TypeCtor1<A, Type = Self>;
}

/// A container that belongs to a two-slot family and currently holds `A` and `B`.
pub trait Kinded2<A, B>: Sized {
    type Kind: TypeCtor2<A, B, Type = Self>;
}

/// The family `F` applied to the element type `A`.
pub type Apply1<F, A> = <F as TypeCtor1<A>>::Type;

/// The family `F` applied to the element types `A` and `B`.
pub type Apply2<F, A, B> = <F as TypeCtor2<A, B>>::Type;

} // verus!
