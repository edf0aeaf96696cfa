use vstd::prelude::*;

verus! {

/// Why a network call could not be made.
#[derive(Clone, Debug, PartialEq, Eq)]
pub enum NetworkError {
    Unsupported(&'static str),
    Backend(String),
}

/// The OpenHarmony network backend that the platform layer registers at
/// startup; until then every call reports that none is registered.
pub struct PlatformBackendSlot<B> {
    pub slot: Option<B>,
}

/// The error of a call made before a backend is registered.
pub open spec fn unregistered_message() -> Seq<char> {
    "OpenHarmony network backend not registered by makepad-platform"@
}

impl<B> PlatformBackendSlot<B> {
    /// A slot with no backend.
    pub fn new() -> (r: Self)
        ensures
            r.slot is None,
    {
        PlatformBackendSlot { slot: None }
    }

    /// Registers `backend`, replacing any earlier one.
    pub fn register_platform_backend(&mut self, backend: B)
        ensures
            final(self).slot == Some(backend),
    {
        self.slot = Some(backend);
    }

    /// Forgets the registered backend.
    pub fn clear_platform_backend(&mut self)
        ensures
            final(self).slot is None,
    {
        self.slot = None;
    }

    /// The registered backend, or the error that none is registered.
    pub fn platform_backend(&self) -> (r: Result<&B, NetworkError>)
        ensures
            match self.slot {
                Some(b) => r == Ok::<&B, NetworkError>(&b),
                None => r matches Err(NetworkError::Unsupported(m)) && m@ == unregistered_message(),
            },
    {
        match &self.slot {
            Some(b) => Ok(b),
            None => Err(NetworkError::Unsupported("OpenHarmony network backend not registered by makepad-platform")),
        }
    }
}

} // verus!
