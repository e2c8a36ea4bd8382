//! Error taxonomy for configuration loading.
//!
//! Every load-time failure aborts configuration construction entirely; there
//! is no partial or best-effort configuration.  Resolution itself never
//! errors: a direction with no configured source is the valid outcome `None`.

use vstd::prelude::*;

verus! {

/// Why loading a configuration failed.
#[derive(Debug)]
pub enum ConfigurationError {
    /// The platform configuration or log directory could not be determined
    /// or created.  Raised only by the surrounding I/O layer.
    DirectoryResolution(String),
    /// A layered configuration source could not be read or merged.  Raised
    /// only by the surrounding I/O layer.
    SourceRead(String),
    /// A textual input-source token matched no symbolic name and neither a
    /// hexadecimal nor a decimal reading; carries the offending token.
    InvalidInputSource(String),
    /// The required USB device identifier is absent.
    MissingRequiredField,
}

} // verus!
