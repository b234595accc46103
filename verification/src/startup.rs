//! Errors of the login-registration collaborator.

use vstd::prelude::*;

verus! {

/// Why registering or unregistering the launcher at login failed.
#[derive(Debug, Clone, Copy, PartialEq, Eq, Structural)]
pub enum StartupError {
    ExePathNotFound,
    RegistryAccessDenied,
    RegistryWriteFailed,
}

impl StartupError {
    /// A human-readable description of the failure.
    pub fn message(&self) -> (r: String)
        ensures
            *self == StartupError::ExePathNotFound ==> r@
                == "Could not determine executable path"@,
            *self == StartupError::RegistryAccessDenied ==> r@ == "Registry access denied"@,
            *self == StartupError::RegistryWriteFailed ==> r@ == "Failed to write to registry"@,
    {
        match self {
            StartupError::ExePathNotFound => "Could not determine executable path".to_owned(),
            StartupError::RegistryAccessDenied => "Registry access denied".to_owned(),
            StartupError::RegistryWriteFailed => "Failed to write to registry".to_owned(),
        }
    }
}

} // verus!
