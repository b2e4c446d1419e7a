//! The lifecycle of the hook on the presentation routine, and the checks that
//! guard the startup.
//!
//! The registration keeps track of what was done to the target routine. The
//! caller patches the code: it prepares the trampoline, reports its address,
//! and writes or restores the jump when `enable` or `disable` allows it.
//! Disabling while another thread runs through the trampoline is a race that
//! this lifecycle does not rule out; it is meant for the moment of unloading.

use vstd::prelude::*;
use crate::address_finder::AddressFinder;

verus! {

/// Reason code with which the system calls a module that is being unloaded.
pub const DLL_PROCESS_DETACH: u32 = 0;

/// Reason code with which the system calls a module that was just loaded.
pub const DLL_PROCESS_ATTACH: u32 = 1;

/// What a call of the module's entry point asks for.
#[derive(Clone, Copy, Debug, PartialEq, Eq, Structural)]
pub enum Lifecycle {
    Attach,
    Detach,
    Ignore,
}

/// Tells what the reason code of an entry-point call asks for.
pub fn lifecycle_of(call_reason: u32) -> (what: Lifecycle)
    ensures
        what == (if call_reason == DLL_PROCESS_ATTACH {
            Lifecycle::Attach
        } else if call_reason == DLL_PROCESS_DETACH {
            Lifecycle::Detach
        } else {
            Lifecycle::Ignore
        }),
{
    if call_reason == DLL_PROCESS_ATTACH {
        Lifecycle::Attach
    } else if call_reason == DLL_PROCESS_DETACH {
        Lifecycle::Detach
    } else {
        Lifecycle::Ignore
    }
}

/// Why the module could not start, or why a step of the hook's lifecycle was refused.
#[derive(Clone, Copy, Debug, PartialEq, Eq, Structural)]
pub enum HookError {
    /// The base or the size of the host's module is not known.
    ModuleUnavailable,
    /// The address of the routine to hook is zero.
    NullTarget,
    /// No trampoline could be prepared: the code could not be made writable.
    NotPatchable,
    /// The registration was initialized before.
    AlreadyInitialized,
    /// The registration was not initialized yet.
    NotInitialized,
    /// The hook is enabled already.
    AlreadyEnabled,
    /// The hook is not enabled.
    NotEnabled,
}

/// Checks the span of the host's module as the system reported it. A base or a
/// size of zero, or a span that would run past the end of the address space,
/// means that the module is not known.
pub fn module_span(base: usize, size: usize) -> (span: Result<AddressFinder, HookError>)
    ensures
        span == (if base == 0 || size == 0 || base + size > usize::MAX {
            Err::<AddressFinder, HookError>(HookError::ModuleUnavailable)
        } else {
            Ok(AddressFinder { base_addr: base, module_size: size })
        }),
{
    if base == 0 || size == 0 || size > usize::MAX - base {
        Err(HookError::ModuleUnavailable)
    } else {
        Ok(AddressFinder { base_addr: base, module_size: size })
    }
}

/// The address of a routine, known not to be zero.
#[derive(Clone, Copy, Debug)]
pub struct TargetAddress {
    addr: usize,
}

impl TargetAddress {
    #[verifier::type_invariant]
    spec fn nonzero(self) -> bool {
        self.addr != 0
    }

    /// The address.
    pub closed spec fn value(&self) -> usize {
        self.addr
    }

    /// Accepts an address that was found, unless it is zero.
    pub fn new(addr: usize) -> (target: Option<TargetAddress>)
        ensures
            target is Some == (addr != 0),
            target is Some ==> target->Some_0.value() == addr,
    {
        if addr == 0 {
            None
        } else {
            Some(TargetAddress { addr })
        }
    }

    /// The address, which is never zero.
    pub fn get(&self) -> (addr: usize)
        ensures
            addr == self.value(),
            addr != 0,
    {
        proof {
            use_type_invariant(self);
        }
        self.addr
    }
}

/// How far the hook's lifecycle has come.
#[derive(Clone, Copy, Debug, PartialEq, Eq, Structural)]
pub enum HookState {
    Uninitialized,
    /// The trampoline exists; the target's code is as it was.
    Initialized,
    /// The target's code jumps to the detour.
    Active,
}

/// What is known of the hook on the target routine.
#[derive(Clone, Copy, Debug, PartialEq, Eq, Structural)]
pub struct HookRegistration {
    pub state: HookState,
    /// Address of the hooked routine; zero while uninitialized.
    pub target_address: usize,
    /// Address through which the original routine is called; zero while uninitialized.
    pub trampoline_address: usize,
}

impl HookRegistration {
    /// The registration before anything was done.
    pub open spec fn blank() -> HookRegistration {
        HookRegistration {
            state: HookState::Uninitialized,
            target_address: 0,
            trampoline_address: 0,
        }
    }

    /// Whether the target's code jumps to the detour.
    pub open spec fn enabled(&self) -> bool {
        self.state is Active
    }

    /// A registration with nothing done yet.
    pub fn new() -> (hook: HookRegistration)
        ensures
            hook == HookRegistration::blank(),
    {
        HookRegistration {
            state: HookState::Uninitialized,
            target_address: 0,
            trampoline_address: 0,
        }
    }

    /// Records the target and the trampoline that was prepared for it. A
    /// trampoline address of zero reports that none could be prepared.
    /// Succeeds exactly on a fresh registration with a target and a trampoline
    /// that are not zero; a refused call changes nothing.
    pub fn initialize(&mut self, target_address: usize, trampoline_address: usize) -> (done:
        Result<(), HookError>)
        ensures
            done == (if !(old(self).state is Uninitialized) {
                Err::<(), HookError>(HookError::AlreadyInitialized)
            } else if target_address == 0 {
                Err(HookError::NullTarget)
            } else if trampoline_address == 0 {
                Err(HookError::NotPatchable)
            } else {
                Ok(())
            }),
            done is Ok ==> *final(self) == (HookRegistration {
                state: HookState::Initialized,
                target_address,
                trampoline_address,
            }),
            done is Err ==> *final(self) == *old(self),
    {
        match self.state {
            HookState::Uninitialized => {},
            _ => {
                return Err(HookError::AlreadyInitialized);
            },
        }
        if target_address == 0 {
            return Err(HookError::NullTarget);
        }
        if trampoline_address == 0 {
            return Err(HookError::NotPatchable);
        }
        self.state = HookState::Initialized;
        self.target_address = target_address;
        self.trampoline_address = trampoline_address;
        Ok(())
    }

    /// Allows the jump to the detour to be written. Succeeds exactly when the
    /// registration is initialized and not enabled; a refused call changes nothing.
    pub fn enable(&mut self) -> (done: Result<(), HookError>)
        ensures
            done == (match old(self).state {
                HookState::Uninitialized => Err::<(), HookError>(HookError::NotInitialized),
                HookState::Initialized => Ok(()),
                HookState::Active => Err(HookError::AlreadyEnabled),
            }),
            done is Ok ==> *final(self) == (HookRegistration {
                state: HookState::Active,
                ..*old(self)
            }),
            done is Err ==> *final(self) == *old(self),
    {
        match self.state {
            HookState::Uninitialized => Err(HookError::NotInitialized),
            HookState::Initialized => {
                self.state = HookState::Active;
                Ok(())
            },
            HookState::Active => Err(HookError::AlreadyEnabled),
        }
    }

    /// Allows the target's original bytes to be restored. Succeeds exactly when
    /// the hook is enabled; a refused call changes nothing.
    pub fn disable(&mut self) -> (done: Result<(), HookError>)
        ensures
            done == (match old(self).state {
                HookState::Uninitialized => Err::<(), HookError>(HookError::NotInitialized),
                HookState::Initialized => Err(HookError::NotEnabled),
                HookState::Active => Ok(()),
            }),
            done is Ok ==> *final(self) == (HookRegistration {
                state: HookState::Initialized,
                ..*old(self)
            }),
            done is Err ==> *final(self) == *old(self),
    {
        match self.state {
            HookState::Uninitialized => Err(HookError::NotInitialized),
            HookState::Initialized => Err(HookError::NotEnabled),
            HookState::Active => {
                self.state = HookState::Initialized;
                Ok(())
            },
        }
    }

    /// The address through which the original routine is reached: the
    /// trampoline while the hook is enabled, the target itself while it is
    /// initialized but not enabled, and nothing before initialization. An
    /// address that is returned is never zero on a registration that
    /// `initialize` filled.
    pub fn call_original(&self) -> (addr: Option<usize>)
        ensures
            addr == (match self.state {
                HookState::Uninitialized => None::<usize>,
                HookState::Initialized => Some(self.target_address),
                HookState::Active => Some(self.trampoline_address),
            }),
    {
        match self.state {
            HookState::Uninitialized => None,
            HookState::Initialized => Some(self.target_address),
            HookState::Active => Some(self.trampoline_address),
        }
    }
}

} // verus!
