use vstd::prelude::*;

verus! {

/// The slot after an attempt to install `candidate`: the first value to
/// arrive stays.
pub open spec fn after_install<T>(slot: Option<T>, candidate: T) -> Option<T> {
    match slot {
        Some(h) => Some(h),
        None => Some(candidate),
    }
}

/// A single-assignment slot for a process-wide handle: the first install
/// wins and every later attempt observes that same handle.
#[derive(Debug)]
pub struct InstallOnce<T> {
    slot: Option<T>,
}

impl<T> InstallOnce<T> {
    /// The installed handle, if any.
    pub closed spec fn installed(&self) -> Option<T> {
        self.slot
    }

    /// An empty slot.
    pub fn new() -> (r: InstallOnce<T>)
        ensures
            r.installed() is None,
    {
        InstallOnce { slot: None }
    }

    /// The installed handle, if any.
    pub fn get(&self) -> (r: Option<&T>)
        ensures
            r is Some <==> self.installed() is Some,
            r matches Some(h) ==> self.installed() == Some(*h),
    {
        match &self.slot {
            Some(h) => Some(h),
            None => None,
        }
    }

    /// Installs `candidate` if the slot is empty; reports whether it did.
    pub fn install(&mut self, candidate: T) -> (r: bool)
        ensures
            r == old(self).installed() is None,
            final(self).installed() == after_install(old(self).installed(), candidate),
    {
        if self.slot.is_none() {
            self.slot = Some(candidate);
            true
        } else {
            false
        }
    }
}

/// Two install attempts, in either order of arrival, leave the handle of the
/// first in place, both observe it, and at most one of them installs; on an
/// empty slot exactly one does.
pub proof fn lemma_install_twice<T>(slot: Option<T>, first: T, second: T)
    ensures
        after_install(after_install(slot, first), second) == after_install(slot, first),
        after_install(slot, first) is Some,
        !(slot is None && after_install(slot, first) is None),
        slot is None ==> after_install(slot, first) == Some(first),
        slot is Some ==> after_install(slot, first) == slot,
{
}

} // verus!
