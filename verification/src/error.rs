//! What can go wrong while a document is decoded or a schema is defined.

use crate::value::words;
use vstd::prelude::*;

verus! {

/// A scalar literal that does not have the fixed textual shape of its type.
#[derive(Clone, Copy, Debug, PartialEq, Eq, Structural)]
pub struct FormatError;

/// The kind of JSON value that a schema node asks for.
#[derive(Clone, Copy, Debug, PartialEq, Eq, Structural)]
pub enum Expected {
    Bool,
    Integer,
    Number,
    String,
    Array,
    Object,
}

/// Why a document could not be decoded.
#[derive(Debug, PartialEq, Eq)]
pub enum ErrorKind {
    /// A scalar literal is malformed.
    Format,
    /// The value is of another kind than the schema asks for.
    Mismatch { expected: Expected },
    /// None of the alternatives of an untagged union accepts the value.
    NoMatchingVariant { tried: usize },
    /// The word that selects a branch is none of the known ones.
    UnknownVariant { tag: String, known: Vec<String> },
    /// The value is no object, or has no string under the discriminator.
    MissingTag,
    /// A member that has no default is missing.
    MissingRequiredField { name: String },
}

/// A failure to decode: what went wrong, and the names of the members that
/// lead from the document's root to the place where it did.
#[derive(Debug, PartialEq, Eq)]
pub struct DecodeError {
    pub kind: ErrorKind,
    pub path: Vec<String>,
}

/// A schema whose definition at place `def` is not well defined: a reference
/// to nothing, a name that occurs twice among the members merged into one
/// object, or a default that is no value of its field.
#[derive(Clone, Copy, Debug, PartialEq, Eq, Structural)]
pub struct SchemaDefinitionError {
    pub def: usize,
}

impl View for ErrorKind {
    type V = Cause;

    open spec fn view(&self) -> Cause {
        match self {
            ErrorKind::Format => Cause::Format,
            ErrorKind::Mismatch { expected } => Cause::Mismatch { expected: *expected },
            ErrorKind::NoMatchingVariant { tried } => Cause::NoMatchingVariant { tried: *tried as nat },
            ErrorKind::UnknownVariant { tag, known } => Cause::UnknownVariant { tag: tag@, known: words(known@) },
            ErrorKind::MissingTag => Cause::MissingTag,
            ErrorKind::MissingRequiredField { name } => Cause::MissingRequiredField { name: name@ },
        }
    }
}

impl View for DecodeError {
    type V = Failure;

    open spec fn view(&self) -> Failure {
        Failure { cause: self.kind@, path: words(self.path@) }
    }
}

impl DecodeError {
    /// A failure at the value in hand.
    pub fn here(kind: ErrorKind) -> (e: DecodeError)
        ensures
            e@ == Failure::here(kind@),
    {
        let e = DecodeError { kind, path: Vec::new() };
        assert(words(e.path@) =~= Seq::empty());
        e
    }

    /// The same failure, seen from the record that holds it under `name`.
    pub fn under(self, name: &String) -> (e: DecodeError)
        ensures
            e@ == self@.under(name@),
    {
        let mut path = self.path;
        path.insert(0, name.clone());
        assert(words(path@) =~= seq![name@] + words(self.path@));
        DecodeError { kind: self.kind, path }
    }
}

/// The model of an [`ErrorKind`].
pub ghost enum Cause {
    Format,
    Mismatch { expected: Expected },
    NoMatchingVariant { tried: nat },
    UnknownVariant { tag: Seq<char>, known: Seq<Seq<char>> },
    MissingTag,
    MissingRequiredField { name: Seq<char> },
}

/// The model of a [`DecodeError`]: what failed, and below which fields.
pub ghost struct Failure {
    pub cause: Cause,
    pub path: Seq<Seq<char>>,
}

impl Failure {
    /// A failure at the value in hand.
    pub open spec fn here(cause: Cause) -> Failure {
        Failure { cause, path: Seq::empty() }
    }

    /// The same failure, seen from the record that holds it under `name`.
    pub open spec fn under(self, name: Seq<char>) -> Failure {
        Failure { cause: self.cause, path: seq![name] + self.path }
    }
}

} // verus!
