//! The apartment runtime: the threading-model context that has to be active
//! before any object is made or used, as a token that is created once and
//! given back.
//!
//! The platform is not called from here. The caller asks what is to be
//! done, makes the platform call, and hands in the platform's answer.

use vstd::prelude::*;

verus! {

/// The platform's answer for success.
pub const S_OK: i32 = 0;

/// The platform's answer where the thread was initialized before.
pub const S_FALSE: i32 = 1;

/// Why no runtime was created.
#[derive(Clone, Copy, Debug, PartialEq, Eq, Structural)]
pub enum InitError {
    /// A runtime of this apartment is alive: it has to be released first.
    AlreadyInitialized,
    /// The platform refused; `hresult` is its answer.
    Platform { hresult: i32 },
}

/// A call that the caller has to make on the platform.
#[derive(Clone, Copy, Debug, PartialEq, Eq, Structural)]
pub enum PlatformCall {
    /// Initialize the single-threaded apartment for this thread.
    Initialize,
    /// Uninitialize it again.
    Uninitialize,
}

/// The apartment of one thread: whether a runtime of it is alive.
#[derive(Debug, PartialEq, Eq)]
pub struct Apartment {
    pub initialized: bool,
}

/// The token that stands for "the apartment is initialized". It cannot be
/// copied; giving it back uninitializes the apartment.
#[derive(Debug, PartialEq, Eq)]
pub struct ApartmentThreadedRuntime {
    token: (),
}

/// What creating a runtime gives, for an apartment that is or is not
/// initialized and the answer `hresult` of the platform: a runtime exactly if
/// the apartment was not initialized and the platform answered `S_OK`.
pub open spec fn create_outcome(initialized: bool, hresult: i32) -> Result<(), InitError> {
    if initialized {
        Err(InitError::AlreadyInitialized)
    } else if hresult == S_OK {
        Ok(())
    } else {
        Err(InitError::Platform { hresult })
    }
}

/// Whether the apartment is initialized after an attempt to create a runtime.
pub open spec fn initialized_after(initialized: bool, hresult: i32) -> bool {
    initialized || hresult == S_OK
}

impl Apartment {
    /// The apartment of a thread on which nothing was initialized yet.
    pub fn new() -> (r: Apartment)
        ensures
            !r.initialized,
    {
        Apartment { initialized: false }
    }

    /// Whether a runtime of this apartment is alive.
    pub fn is_initialized(&self) -> (r: bool)
        ensures
            r == self.initialized,
    {
        self.initialized
    }

    /// The first step of creating a runtime: the platform call to make, or
    /// the refusal where a runtime is alive already.
    pub fn request(&self) -> (r: Result<PlatformCall, InitError>)
        ensures
            r == (if self.initialized {
                Err::<PlatformCall, InitError>(InitError::AlreadyInitialized)
            } else {
                Ok::<PlatformCall, InitError>(PlatformCall::Initialize)
            }),
    {
        if self.initialized {
            Err(InitError::AlreadyInitialized)
        } else {
            Ok(PlatformCall::Initialize)
        }
    }

    /// The second step: `hresult` is what the platform answered to the
    /// initialize call. Only `S_OK` gives a runtime; any other answer, that
    /// of an earlier initialization included, is a failure, and so is an
    /// attempt while a runtime is alive. A failure changes nothing.
    pub fn create(&mut self, hresult: i32) -> (r: Result<ApartmentThreadedRuntime, InitError>)
        ensures
            r is Ok <==> create_outcome(old(self).initialized, hresult) is Ok,
            r matches Err(e) ==> create_outcome(old(self).initialized, hresult) == Err::<
                (),
                InitError,
            >(e),
            final(self).initialized == initialized_after(old(self).initialized, hresult),
    {
        if self.initialized {
            return Err(InitError::AlreadyInitialized);
        }
        if hresult != S_OK {
            return Err(InitError::Platform { hresult });
        }
        self.initialized = true;
        Ok(ApartmentThreadedRuntime { token: () })
    }

    /// Gives the runtime back. The apartment is uninitialized afterwards, and
    /// the caller has to make the matching platform call.
    pub fn release(&mut self, runtime: ApartmentThreadedRuntime) -> (r: PlatformCall)
        ensures
            !final(self).initialized,
            r == PlatformCall::Uninitialize,
    {
        let _ = runtime;
        self.initialized = false;
        PlatformCall::Uninitialize
    }
}

/// Creating a runtime twice without releasing the first fails the second
/// time, whatever the platform answers, and leaves the apartment initialized.
pub proof fn lemma_double_initialization_fails(first: i32, second: i32)
    requires
        create_outcome(false, first) is Ok,
    ensures
        create_outcome(initialized_after(false, first), second) == Err::<(), InitError>(
            InitError::AlreadyInitialized,
        ),
        initialized_after(initialized_after(false, first), second),
{
}

} // verus!
