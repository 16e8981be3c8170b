use vstd::prelude::*;

verus! {

/// What went wrong while setting a plugin up.
#[derive(Debug, Clone, Copy, PartialEq, Eq, Structural)]
pub enum SetupErrorKind {
    /// A required setting is absent.
    MissingField,
    /// A setting has the wrong shape or is out of range.
    InvalidField,
    /// A part of speech named in the settings is not in the grammar.
    UnknownPartOfSpeech,
}

/// Errors of plugin resolution, setup and generation.
#[derive(Debug, Clone, Copy, PartialEq, Eq, Structural)]
pub enum SudachiError {
    /// Settings of a plugin are malformed or refer to something that does not exist.
    Setup(SetupErrorKind),
    /// A configuration entry carries no usable plugin class name.
    InvalidPluginName,
    /// The plugin is not bundled and could not be loaded from a module.
    PluginLoad,
    /// Generation was asked for at an offset outside the text.
    OffsetOutOfBounds,
}

pub type SudachiResult<T> = Result<T, SudachiError>;

} // verus!
