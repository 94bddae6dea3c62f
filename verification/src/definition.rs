//! What the name under the cursor refers to.

use vstd::prelude::*;

use crate::item::ResolvedSpan;

verus! {

/// What an identifier refers to.
#[derive(Debug, Clone, PartialEq, Eq)]
pub enum IdentifierDefinition {
    /// Something that the same document defines.
    Location {
        /// Where it is defined.
        destination: ResolvedSpan,
        /// Its name.
        name: String,
    },
    /// Something that is loaded from another module.
    LoadedLocation {
        /// The path of the module, as the `load` writes it.
        path: String,
        /// The name that it has there.
        name: String,
    },
    /// Something that is neither defined nor loaded by the document.
    Unresolved {
        /// Its name.
        name: String,
    },
    /// The path in a `load`.
    LoadPath,
    /// Another string.
    StringLiteral,
    /// Nothing.
    NotFound,
}

/// What a dotted name refers to, as far as its first part says.
#[derive(Debug, Clone, PartialEq, Eq)]
pub struct DottedDefinition {
    /// What the first part refers to.
    pub root_definition_location: IdentifierDefinition,
}

/// What a name refers to.
#[derive(Debug, Clone, PartialEq, Eq)]
pub enum Definition {
    /// A plain identifier.
    Identifier(IdentifierDefinition),
    /// A name with dots in it.
    Dotted(DottedDefinition),
}

impl Definition {
    /// What the name, or the first part of a dotted one, refers to.
    pub open spec fn spec_root(self) -> IdentifierDefinition {
        match self {
            Definition::Identifier(identifier) => identifier,
            Definition::Dotted(dotted) => dotted.root_definition_location,
        }
    }

    /// What the name, or the first part of a dotted one, refers to.
    pub fn root(&self) -> (r: &IdentifierDefinition)
        ensures
            *r == self.spec_root(),
    {
        match self {
            Definition::Identifier(identifier) => identifier,
            Definition::Dotted(dotted) => &dotted.root_definition_location,
        }
    }
}

} // verus!
