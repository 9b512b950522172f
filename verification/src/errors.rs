use vstd::prelude::*;

verus! {

/// Every failure the migration engine can surface. All are deterministic
/// functions of the input and none is retried internally.
#[derive(Clone, Copy, PartialEq, Eq, Structural, Debug)]
pub enum MigrationError {
    /// The input is not an envelope: it lacks the expected
    /// `{"version":"...","data":...}` framing.
    MalformedEnvelope,
    /// The envelope is framed correctly but its tag is outside the closed
    /// set of declared versions.
    UnknownVersion,
    /// The tag named a declared version but the payload does not satisfy
    /// that version's schema in canonical form.
    SchemaMismatch,
    /// Strict-mode check: a reference field points at an identifier absent
    /// from the snapshot, which indicates a bug in an upgrade transform.
    DanglingReference,
}

impl MigrationError {
    /// A short human-readable name for the error kind.
    pub fn describe(&self) -> (r: &'static str)
        ensures
            self is MalformedEnvelope ==> r@ == "malformed envelope"@,
            self is UnknownVersion ==> r@ == "unknown version"@,
            self is SchemaMismatch ==> r@ == "schema mismatch"@,
            self is DanglingReference ==> r@ == "dangling reference"@,
    {
        match self {
            MigrationError::MalformedEnvelope => "malformed envelope",
            MigrationError::UnknownVersion => "unknown version",
            MigrationError::SchemaMismatch => "schema mismatch",
            MigrationError::DanglingReference => "dangling reference",
        }
    }
}

} // verus!
