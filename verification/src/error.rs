//! The failures the engine core reports.

use vstd::prelude::*;

verus! {

/// What went wrong, by category.
#[derive(Debug, Clone, Copy, PartialEq, Eq, Structural)]
pub enum EngineError {
    /// A script's source text is malformed.
    ScriptCompile,
    /// A script raised an error while its top level or a hook ran, or the runtime refused
    /// what the core asked of it.
    ScriptRuntime,
    /// A dynamic value does not have the shape or the types a native value needs.
    Serialization,
    /// A children snapshot names more entities than, or other entities than, the native
    /// collection holds.
    StructuralViolation,
    /// A description names an entity kind that does not exist.
    UnknownKind,
    /// Every entity identity has been handed out.
    IdentitiesExhausted,
}

impl EngineError {
    /// A short stable name for diagnostics.
    pub fn name(&self) -> (s: &'static str)
        ensures
            s@ == self.name_spec(),
    {
        match self {
            EngineError::ScriptCompile => "ScriptCompileError",
            EngineError::ScriptRuntime => "ScriptRuntimeError",
            EngineError::Serialization => "SerializationError",
            EngineError::StructuralViolation => "StructuralViolation",
            EngineError::UnknownKind => "UnknownKind",
            EngineError::IdentitiesExhausted => "IdentitiesExhausted",
        }
    }

    /// The name of the category.
    pub open spec fn name_spec(&self) -> Seq<char> {
        match self {
            EngineError::ScriptCompile => "ScriptCompileError"@,
            EngineError::ScriptRuntime => "ScriptRuntimeError"@,
            EngineError::Serialization => "SerializationError"@,
            EngineError::StructuralViolation => "StructuralViolation"@,
            EngineError::UnknownKind => "UnknownKind"@,
            EngineError::IdentitiesExhausted => "IdentitiesExhausted"@,
        }
    }
}

} // verus!
