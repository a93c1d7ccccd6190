//! The notification target: an opaque window handle used purely as a delivery
//! endpoint, the failures its setup can surface, and a model of the
//! window-class registry that setup registers its fixed class name in.

use vstd::prelude::*;

verus! {

/// How obtaining a notification target can fail: either the window class could
/// not be registered at all, or the window itself could not be instantiated
/// after the class was in place.
#[derive(Clone, Copy, Debug, PartialEq, Eq, Structural)]
pub enum SetupError {
    ClassRegistrationFailed,
    WindowCreationFailed,
}

/// An opaque, OS-assigned window handle, valid for the life of the process.
/// The zero value is what a failed instantiation reports, so a held handle is
/// never zero.
#[derive(Clone, Copy, Debug)]
pub struct WindowHandle {
    raw: usize,
}

impl WindowHandle {
    /// The raw value behind the handle.
    pub closed spec fn raw_spec(&self) -> usize {
        self.raw
    }

    /// A held handle is never the zero value that failure reports.
    pub open spec fn valid(&self) -> bool {
        self.raw_spec() != 0
    }

    /// Judge what window instantiation reported: a nonzero value is the
    /// handle, the zero value means instantiation failed.
    pub fn from_raw(raw: usize) -> (r: Result<WindowHandle, SetupError>)
        ensures
            raw != 0 ==> (r matches Ok(h) && h.raw_spec() == raw && h.valid()),
            raw == 0 ==> r == Err::<WindowHandle, SetupError>(SetupError::WindowCreationFailed),
    {
        if raw == 0 {
            Err(SetupError::WindowCreationFailed)
        } else {
            Ok(WindowHandle { raw })
        }
    }

    /// The raw value, for handing back to the OS call that needs it.
    pub fn raw(&self) -> (r: usize)
        ensures
            r == self.raw_spec(),
    {
        self.raw
    }
}

/// What one registration of a window class reported.
#[derive(Clone, Copy, Debug, PartialEq, Eq, Structural)]
pub enum ClassRegistration {
    /// The name was not registered before; it is now.
    Fresh,
    /// The name was already registered; the registry is unchanged and the
    /// class stays usable.
    AlreadyExists,
}

/// A model of the window-class registry: the set of class-name keys under
/// which a class has been registered. Registration is keyed by name and
/// idempotent, and window creation needs only that the name is registered.
pub struct ClassRegistry {
    names: Vec<u64>,
}

impl ClassRegistry {
    /// Whether a class is registered under `name`.
    pub closed spec fn is_registered(&self, name: u64) -> bool {
        self.names@.contains(name)
    }

    /// An empty registry: nothing is registered.
    pub fn new() -> (r: ClassRegistry)
        ensures
            forall|m: u64| !r.is_registered(m),
    {
        ClassRegistry { names: Vec::new() }
    }

    /// Whether window creation may proceed for the class named `name`.
    pub fn creation_permitted(&self, name: u64) -> (r: bool)
        ensures
            r == self.is_registered(name),
    {
        let mut i: usize = 0;
        while i < self.names.len()
            invariant
                0 <= i <= self.names@.len(),
                forall|j: int| 0 <= j < i ==> self.names@[j] != name,
            decreases self.names@.len() - i,
        {
            if self.names[i] == name {
                return true;
            }
            i = i + 1;
        }
        false
    }

    /// Register a class under `name`: afterwards the name is registered and no
    /// other name has changed; a repeat registration reports `AlreadyExists`
    /// and changes nothing.
    pub fn register(&mut self, name: u64) -> (r: ClassRegistration)
        ensures
            final(self).is_registered(name),
            forall|m: u64| final(self).is_registered(m) <==> (old(self).is_registered(m) || m
                == name),
            r is AlreadyExists <==> old(self).is_registered(name),
            r is Fresh <==> !old(self).is_registered(name),
    {
        if self.creation_permitted(name) {
            ClassRegistration::AlreadyExists
        } else {
            self.names.push(name);
            proof {
                assert(self.names@.last() == name);
                assert(forall|m: u64|
                    self.names@.contains(m) <==> (old(self).names@.contains(m) || m == name)) by {
                    assert(forall|j: int|
                        0 <= j < old(self).names@.len() ==> self.names@[j] == old(
                            self,
                        ).names@[j]);
                }
            }
            ClassRegistration::Fresh
        }
    }
}

/// Class registration is idempotent: a repeat registration of a name that is
/// already registered — whose effect on the registry is what `register`
/// promises — leaves every name's registration unchanged, and the name stays
/// registered, so window creation under it stays permitted.
pub proof fn lemma_class_registration_idempotent(
    before: ClassRegistry,
    after: ClassRegistry,
    name: u64,
)
    requires
        before.is_registered(name),
        forall|m: u64| after.is_registered(m) <==> (before.is_registered(m) || m == name),
    ensures
        forall|m: u64| after.is_registered(m) <==> before.is_registered(m),
        after.is_registered(name),
{
}

} // verus!
