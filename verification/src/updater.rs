//! The start-element updater of a serializer: a closure of the user's, run on
//! every start element before it is written, with a record of its runs.
//!
//! The record lives in a private field of `UpdaterSlot`: only `run`, which
//! calls the closure, extends it.

use crate::markup::{StartElementView, XmlStartElement};
use vstd::prelude::*;

verus! {

/// The boxed form of the user's closure.
trait StartElementUpdater: Send + Sync {
    fn update(&mut self, event: &mut XmlStartElement);
}

/// Calls a closure that the user installed on a start element; nothing is
/// claimed of what it does to the element.
#[verifier::external_body]
fn call_updater<F: FnMut(&mut XmlStartElement)>(updater: &mut F, event: &mut XmlStartElement) {
    updater(event)
}

impl<F: FnMut(&mut XmlStartElement) + Send + Sync> StartElementUpdater for F {
    fn update(&mut self, event: &mut XmlStartElement) {
        call_updater(self, event)
    }
}

/// What an empty slot holds in place of a closure.
fn leave_unchanged(_event: &mut XmlStartElement) {
}

/// One run of an updater: which one ran (by the order of installation), the
/// start element it was offered, and the start element it left.
pub struct UpdaterRun {
    pub updater: nat,
    pub offered: StartElementView,
    pub left: StartElementView,
}

/// Holds the start-element updater, if one is installed.
pub struct UpdaterSlot {
    updater: Box<dyn StartElementUpdater>,
    installed: bool,
    installs: Ghost<nat>,
    runs: Ghost<Seq<UpdaterRun>>,
}

impl UpdaterSlot {
    /// Whether an updater is installed.
    pub closed spec fn is_installed(&self) -> bool {
        self.installed
    }

    /// Every run of an updater held here, in order: the start element it was
    /// offered and the start element it left.
    pub closed spec fn runs(&self) -> Seq<UpdaterRun> {
        self.runs@
    }

    /// The number of the updater installed last: the count of installs.
    pub closed spec fn last_installed(&self) -> nat {
        self.installs@
    }

    pub(crate) fn empty() -> (slot: Self)
        ensures
            !slot.is_installed(),
            slot.last_installed() == 0,
            slot.runs() == Seq::<UpdaterRun>::empty(),
    {
        UpdaterSlot {
            updater: Box::new(leave_unchanged),
            installed: false,
            installs: Ghost(0),
            runs: Ghost(Seq::empty()),
        }
    }

    pub(crate) fn installed(&self) -> (r: bool)
        ensures
            r == self.is_installed(),
    {
        self.installed
    }

    /// Installs `updater`, replacing any earlier one.
    pub(crate) fn install<F: FnMut(&mut XmlStartElement) + Send + Sync + 'static>(
        &mut self,
        updater: F,
    )
        ensures
            final(self).is_installed(),
            final(self).last_installed() == old(self).last_installed() + 1,
            final(self).runs() == old(self).runs(),
    {
        self.updater = Box::new(updater);
        self.installed = true;
        proof {
            self.installs@ = self.installs@ + 1;
        }
    }

    /// Drops the installed updater, if any.
    pub(crate) fn clear(&mut self)
        ensures
            !final(self).is_installed(),
            final(self).last_installed() == old(self).last_installed(),
            final(self).runs() == old(self).runs(),
    {
        self.updater = Box::new(leave_unchanged);
        self.installed = false;
    }

    /// Calls the closure installed last on `event`. What the closure does is
    /// the user's: the record gains its number, the element as offered and the
    /// element as it was left.
    #[verifier::external_body]
    pub(crate) fn run(&mut self, event: &mut XmlStartElement)
        requires
            old(self).is_installed(),
        ensures
            final(self).runs() == old(self).runs().push(
                (UpdaterRun {
                    updater: old(self).last_installed(),
                    offered: old(event)@,
                    left: final(event)@,
                }),
            ),
            final(self).is_installed(),
            final(self).last_installed() == old(self).last_installed(),
    {
        self.updater.update(event)
    }
}

} // verus!
