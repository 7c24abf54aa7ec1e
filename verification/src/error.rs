//! The conflicts that end a merge.

use vstd::prelude::*;

verus! {

/// What is said of a configuration that cannot be used.
pub const INVALID_CONFIG: &'static str = "Invalid codegen config";

/// What is said of a definition that was found more than once.
pub const MULTIPLE_DEFINITION_FOUND: &'static str = "Multiple definition found";

/// What is said of two things of one name that cannot be unified.
pub const NAME_COLLISION: &'static str =
    "Name collision between different kind of definitions found";

/// Why a configuration was refused or a merge was given up.
#[derive(Debug)]
pub enum GreemBuildError {
    /// The configuration cannot be used.
    InvalidConfig,
    /// A definition that may exist only once was found a second time.
    MultipleDefinitionFound(CollidedDefinition),
    /// Two definitions, or two members of one, share a name but cannot be
    /// unified.
    NameCollision(String, NameCollisionReason),
}

/// The definition that was found more than once.
#[derive(Debug)]
pub enum CollidedDefinition {
    /// The schema definition.
    Schema,
    /// The scalar of this name; a directive that is defined twice is
    /// named in the same way.
    Scalar(String),
    /// The object field of this name.
    ObjectField(String),
}

/// Why two things of one name cannot be unified.
#[derive(Debug, Clone, Copy, PartialEq, Eq, Structural)]
pub enum NameCollisionReason {
    /// They are of different kinds.
    DifferentType,
    /// They are of the same kind, but say different things.
    DifferentContent,
}

/// What a [`CollidedDefinition`] says, over mathematical strings.
pub enum Collided {
    Schema,
    Scalar(Seq<char>),
    ObjectField(Seq<char>),
}

/// What a [`GreemBuildError`] says, over mathematical strings.
pub enum Conflict {
    InvalidConfig,
    MultipleDefinitionFound(Collided),
    NameCollision(Seq<char>, NameCollisionReason),
}

impl GreemBuildError {
    /// What is said of the error, whatever it names.
    pub fn message(&self) -> (text: &'static str)
        ensures
            text@ == match self {
                GreemBuildError::InvalidConfig => INVALID_CONFIG@,
                GreemBuildError::MultipleDefinitionFound(_) => MULTIPLE_DEFINITION_FOUND@,
                GreemBuildError::NameCollision(_, _) => NAME_COLLISION@,
            },
    {
        match self {
            GreemBuildError::InvalidConfig => INVALID_CONFIG,
            GreemBuildError::MultipleDefinitionFound(_) => MULTIPLE_DEFINITION_FOUND,
            GreemBuildError::NameCollision(_, _) => NAME_COLLISION,
        }
    }
}

impl DeepView for CollidedDefinition {
    type V = Collided;

    open spec fn deep_view(&self) -> Collided {
        match self {
            CollidedDefinition::Schema => Collided::Schema,
            CollidedDefinition::Scalar(name) => Collided::Scalar(name@),
            CollidedDefinition::ObjectField(name) => Collided::ObjectField(name@),
        }
    }
}

impl DeepView for GreemBuildError {
    type V = Conflict;

    open spec fn deep_view(&self) -> Conflict {
        match self {
            GreemBuildError::InvalidConfig => Conflict::InvalidConfig,
            GreemBuildError::MultipleDefinitionFound(which) => Conflict::MultipleDefinitionFound(
                which.deep_view(),
            ),
            GreemBuildError::NameCollision(name, reason) => Conflict::NameCollision(
                name@,
                *reason,
            ),
        }
    }
}

} // verus!
