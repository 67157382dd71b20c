//! The core of a generator of Dart bindings for libraries that are exposed
//! through a foreign function interface.
//!
//! From the description of an interface — its functions, records, enums,
//! objects, callback interfaces and custom types — the generator makes one
//! Dart module: converters that write and read values in the binary layout
//! that the compiled library expects, declarations of its native
//! functions, wrappers that call them, and a guard that refuses a library
//! that the bindings were not made for.
//!
//! The layout is a contract between the bindings and the library, and it is
//! stated here: [`layout`] says what the bytes of a value are, [`codec`]
//! writes and reads them, and [`roundtrip`] proves that reading takes back
//! what writing put. [`lift`] says how a value crosses the boundary,
//! [`status`] what a call site makes of the status of a call, and [`guard`]
//! when a library is accepted.
//!
//! The text of a module is assembled in [`gen`] from the templates of
//! [`template`], with the names that [`naming`] gives, and laid out by the
//! formatter behind [`tokens`].

pub mod bytes;
pub mod codec;
pub mod dedup;
pub mod ffi;
pub mod fixtures;
pub mod gen;
pub mod guard;
pub mod interface;
pub mod layout;
pub mod lift;
pub mod locate;
pub mod naming;
pub mod registry;
pub mod roundtrip;
pub mod status;
pub mod template;
pub mod text;
pub mod tokens;
pub mod value;
