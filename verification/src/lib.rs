//! A bidirectional codec between generic JSON value trees and the nested,
//! polymorphic records that describe Minecraft data: formatted text,
//! conditions, number providers and the like.
//!
//! The codec is driven by schemas. A [`schema::Schema`] is a table of
//! definitions, each a [`schema::Node`]: a record with named fields, a tagged
//! or an untagged union, a scalar with a textual form of its own, or a plain
//! value. Writing turns an [`instance::Instance`] into a [`value::Value`];
//! reading tries the alternatives of an untagged union in declaration order,
//! dispatches a tagged union on its discriminator, restores the defaults of
//! members that were left out, and reads flattened records from the object
//! of the record that holds them. What both do is stated over the models of
//! these types in [`encode`] and [`decode`], and [`laws`] proves what holds
//! of them together: what is written reads back as itself, canonical
//! documents are written back unchanged, and the first alternative that
//! accepts a document wins.
//!
//! [`minecraft`] holds the records themselves and
//! [`minecraft::catalog::Catalog`], the typed codec over the schema of all of
//! them.

pub mod decode;
pub mod defaults;
pub mod encode;
pub mod error;
pub mod instance;
pub mod laws;
pub mod legal;
pub mod lemmas;
pub mod minecraft;
pub mod rejects;
pub mod schema;
pub mod validate;
pub mod value;
