//! Text transformations over columns of nullable strings.
//!
//! Each transformation is a function from one string to one string, or to a
//! list of strings, and is stated and proved on sequences of characters:
//! pig latin, sentence case, sponge case, and two kinds of splitters. The
//! module `expressions` applies them to whole columns of the column runtime;
//! a null is never transformed.
//!
//! The Unicode tables of the standard library, the random generator and the
//! column runtime are called, not verified: `classify`, `sponge` and `column`
//! say what is believed of them.

pub mod boundary;
pub mod classify;
pub mod column;
pub mod delimiter;
pub mod expressions;
pub mod pig_latin;
pub mod sentence;
pub mod sponge;
pub mod text;
