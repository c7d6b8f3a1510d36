//! Mathematical models of the values that the codec returns.

use vstd::prelude::*;

verus! {

/// A value together with the mathematical value it stands for.
pub trait Model {
    type M;

    spec fn model(&self) -> Self::M;
}

impl Model for () {
    type M = ();

    open spec fn model(&self) -> () {
        ()
    }
}

impl Model for bool {
    type M = bool;

    open spec fn model(&self) -> bool {
        *self
    }
}

impl Model for u64 {
    type M = u64;

    open spec fn model(&self) -> u64 {
        *self
    }
}

impl Model for String {
    type M = Seq<char>;

    open spec fn model(&self) -> Seq<char> {
        self@
    }
}

impl Model for Vec<u8> {
    type M = Seq<u8>;

    open spec fn model(&self) -> Seq<u8> {
        self@
    }
}

impl Model for Vec<String> {
    type M = Seq<Seq<char>>;

    open spec fn model(&self) -> Seq<Seq<char>> {
        Seq::new(self@.len(), |i: int| self@[i]@)
    }
}

impl Model for Vec<(String, String)> {
    type M = Seq<(Seq<char>, Seq<char>)>;

    open spec fn model(&self) -> Seq<(Seq<char>, Seq<char>)> {
        Seq::new(self@.len(), |i: int| (self@[i].0@, self@[i].1@))
    }
}

impl<T: Model> Model for Option<T> {
    type M = Option<T::M>;

    open spec fn model(&self) -> Option<T::M> {
        match self {
            Some(x) => Some(x.model()),
            None => None,
        }
    }
}

/// Why an exchange failed.
#[derive(Debug, PartialEq, Eq)]
pub enum Error {
    /// The reply does not fit the command that was sent. Carries the
    /// offending line as it was read.
    Protocol(Vec<u8>),
    /// The stream ended inside a data block.
    UnexpectedEof,
    /// A line or a field that must be text is not well-formed UTF-8.
    InvalidData,
    /// A batch holds a command that no decoder is known for. Carries the
    /// command.
    UnknownCommand(Vec<u8>),
}

/// The model of an `Error`.
pub enum Fault {
    Protocol(Seq<u8>),
    UnexpectedEof,
    InvalidData,
    UnknownCommand(Seq<u8>),
}

impl Model for Error {
    type M = Fault;

    open spec fn model(&self) -> Fault {
        match self {
            Error::Protocol(line) => Fault::Protocol(line@),
            Error::UnexpectedEof => Fault::UnexpectedEof,
            Error::InvalidData => Fault::InvalidData,
            Error::UnknownCommand(cmd) => Fault::UnknownCommand(cmd@),
        }
    }
}

/// The model of what a fallible operation returned.
pub open spec fn outcome<T: Model>(r: Result<T, Error>) -> Result<T::M, Fault> {
    match r {
        Ok(x) => Ok(x.model()),
        Err(e) => Err(e.model()),
    }
}

} // verus!
