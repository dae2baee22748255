//! Types that identify data in a human-readable way.
//!
//! The most common example is the [`NamespacedId`], which consists of a namespace and path
//! separated by a colon (ex: `namespace:path`). This leads to an id that is somewhat resistant to
//! collisions, but is still human-readable.
//!
//! All ids are based on a [`DelimitedId`], which is a generic id with a constant number of
//! components separated by colons. It is a wrapper over a [`Box<str>`], ensuring that its
//! interior is a valid id. Every id also has a corresponding borrowed form, a
//! [`DelimitedIdRef`], and a shared form, an [`ArcDelimitedId`].
//!
//! There are three main id types:
//! - [`IdComponent`] (ex: `component`): a single component of a larger id (no separators or
//!   invalid characters).
//! - [`NamespacedId`] (ex: `namespace:path`): identifies different objects.
//! - [`OperationId`] (ex: `namespace:path:operation`): identifies operations that refer to a
//!   specific identified object.
//!
//! The module [`loose`] holds an earlier, looser form of namespaced ids, which only asks for a
//! single colon and no whitespace.
//!
//! There are no macros that check an id at compile time (`ident!`, `op_ident!`,
//! `ident_component!`): build a borrowed id at run time with [`DelimitedIdRef::new`], which
//! performs the same validation.
pub mod components;
pub mod id;
pub mod laws;
pub mod loose;
pub mod text;
pub mod validation;

pub use id::{
    ArcDelimitedId, ArcIdComponent, ArcNamespacedId, ArcOperationId, DelimitedId, DelimitedIdRef,
    IdComponent, IdComponentRef, NamespacedId, NamespacedIdRef, OperationId, OperationIdRef,
};
pub use validation::{validate, ParseError};
pub mod compare;
