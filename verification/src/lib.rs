//! Functor, Applicative, Monad and Bifunctor over families of containers,
//! with instances for `Option`, `Result` and `Vec`, and a few helpers for
//! composing plain functions.

pub mod kind;
pub mod typeclass;
pub mod option;
pub mod result;
pub mod vec;
pub mod util;
pub mod fixed_string;

pub use crate::kind::{Apply1, Apply2, Family, Kinded1, Kinded2, TypeCtor1, TypeCtor2};
pub use crate::typeclass::{Applicative, Bifunctor, Functor, Monad};
pub use crate::option::OptionKind;
pub use crate::result::{ResultKind, ResultKind2};
pub use crate::vec::VecKind;
pub use crate::util::{
    Identity, Partial, ap, compose, curry, flip, fmap, identity, option_to_result, pipe, pure, uncurry,
};
