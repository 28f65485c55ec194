//! Functor-like interfaces over emulated higher-kinded types.

pub mod applicative;
pub mod apply;
pub mod functor;
