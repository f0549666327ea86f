//! What can go wrong, and how a caller tells the failures apart.

use vstd::prelude::*;

verus! {

/// The kind of a failure. A caller that turns failures into outward signals
/// needs no more than this to keep them apart.
#[derive(Clone, Copy, Debug, PartialEq, Eq, Structural)]
pub enum ErrorKind {
    /// The caller supplied a value that breaks a local validity rule.
    InvalidArgument,
    /// A referenced row did not exist when it was looked up.
    NotFound,
    /// The operation would break a uniqueness rule.
    Conflict,
    /// The store itself could not carry out the operation.
    StorageError,
}

/// Why a table refused to take a new row.
#[derive(Clone, Copy, Debug, PartialEq, Eq, Structural)]
pub enum StoreError {
    /// Every identifier the table can assign has been used.
    OutOfIds,
    /// The row that was to be written is not in the table.
    RecordNotFound { id: i32 },
}

/// A failure of a service operation, with the values that caused it.
#[derive(Clone, Copy, Debug, PartialEq, Eq, Structural)]
pub enum ServiceError {
    /// A name was empty once surrounding whitespace was removed.
    EmptyName,
    /// A card title was empty once surrounding whitespace was removed.
    EmptyTitle,
    /// A card content was empty once surrounding whitespace was removed.
    EmptyContent,
    /// A relation was asked from a node to itself.
    SelfRelation { id: i32 },
    /// A weight was given that lies outside the unit interval.
    WeightOutOfRange,
    /// No node has this identifier.
    OntoNotFound { id: i32 },
    /// The signifier side of a relation names no node.
    SignifierNotFound { id: i32 },
    /// The signified side of a relation names no node.
    SignifiedNotFound { id: i32 },
    /// No relation has this identifier.
    SignNotFound { id: i32 },
    /// No user has this identifier.
    UserNotFound { id: i32 },
    /// Another node already carries the name; `holder` is its identifier.
    NameTaken { holder: i32 },
    /// The ordered pair is already joined by a relation.
    SignExists { signifier_id: i32, signified_id: i32 },
    /// The store failed.
    Storage(StoreError),
}

impl ErrorKind {
    /// The status code that stands for this kind on the wire.
    pub open spec fn spec_status_code(self) -> u16 {
        match self {
            ErrorKind::InvalidArgument => 400,
            ErrorKind::NotFound => 404,
            ErrorKind::Conflict => 409,
            ErrorKind::StorageError => 500,
        }
    }

    /// The status code that stands for this kind on the wire.
    #[verifier::when_used_as_spec(spec_status_code)]
    pub fn status_code(self) -> (code: u16)
        ensures
            code == self.spec_status_code(),
    {
        match self {
            ErrorKind::InvalidArgument => 400,
            ErrorKind::NotFound => 404,
            ErrorKind::Conflict => 409,
            ErrorKind::StorageError => 500,
        }
    }

    /// Two kinds with the same status code are the same kind, and no kind is
    /// mistaken for a success.
    pub proof fn status_codes_keep_kinds_apart(a: ErrorKind, b: ErrorKind)
        ensures
            a.spec_status_code() == b.spec_status_code() ==> a == b,
            400 <= a.spec_status_code() < 600,
    {
    }
}

impl ServiceError {
    /// The kind this failure belongs to.
    pub open spec fn spec_kind(&self) -> ErrorKind {
        match *self {
            ServiceError::EmptyName => ErrorKind::InvalidArgument,
            ServiceError::EmptyTitle => ErrorKind::InvalidArgument,
            ServiceError::EmptyContent => ErrorKind::InvalidArgument,
            ServiceError::SelfRelation { .. } => ErrorKind::InvalidArgument,
            ServiceError::WeightOutOfRange => ErrorKind::InvalidArgument,
            ServiceError::OntoNotFound { .. } => ErrorKind::NotFound,
            ServiceError::SignifierNotFound { .. } => ErrorKind::NotFound,
            ServiceError::SignifiedNotFound { .. } => ErrorKind::NotFound,
            ServiceError::SignNotFound { .. } => ErrorKind::NotFound,
            ServiceError::UserNotFound { .. } => ErrorKind::NotFound,
            ServiceError::NameTaken { .. } => ErrorKind::Conflict,
            ServiceError::SignExists { .. } => ErrorKind::Conflict,
            ServiceError::Storage(_) => ErrorKind::StorageError,
        }
    }

    /// The kind this failure belongs to.
    #[verifier::when_used_as_spec(spec_kind)]
    pub fn kind(&self) -> (kind: ErrorKind)
        ensures
            kind == self.spec_kind(),
    {
        match self {
            ServiceError::EmptyName => ErrorKind::InvalidArgument,
            ServiceError::EmptyTitle => ErrorKind::InvalidArgument,
            ServiceError::EmptyContent => ErrorKind::InvalidArgument,
            ServiceError::SelfRelation { .. } => ErrorKind::InvalidArgument,
            ServiceError::WeightOutOfRange => ErrorKind::InvalidArgument,
            ServiceError::OntoNotFound { .. } => ErrorKind::NotFound,
            ServiceError::SignifierNotFound { .. } => ErrorKind::NotFound,
            ServiceError::SignifiedNotFound { .. } => ErrorKind::NotFound,
            ServiceError::SignNotFound { .. } => ErrorKind::NotFound,
            ServiceError::UserNotFound { .. } => ErrorKind::NotFound,
            ServiceError::NameTaken { .. } => ErrorKind::Conflict,
            ServiceError::SignExists { .. } => ErrorKind::Conflict,
            ServiceError::Storage(_) => ErrorKind::StorageError,
        }
    }
}

} // verus!
