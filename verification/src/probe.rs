//! Whether a version has to be installed before it is launched.
//!
//! A version counts as installed exactly when its main executable is there.
//! The probe names that executable, is told whether it is there, and says
//! whether to install. The executable it names in the end is the same
//! either way, and the same whatever came of installing.

use crate::layout::{executable_location, executable_path, Location};
use vstd::prelude::*;

verus! {

/// What a probe asks for once it knows whether the executable is there.
#[derive(Clone, Copy, Debug, PartialEq, Eq, Structural)]
pub enum ProbeStep {
    /// Install the version, then finish.
    Install,
    /// Finish: there is nothing to install.
    Finish,
}

/// What a probe asks for, given whether the executable is there.
pub open spec fn probe_step(executable_present: bool) -> ProbeStep {
    if executable_present {
        ProbeStep::Finish
    } else {
        ProbeStep::Install
    }
}

/// A probe for one version.
pub struct Probe {
    executable: Location,
}

impl View for Probe {
    type V = Seq<Seq<char>>;

    /// The executable that the probe looks for.
    closed spec fn view(&self) -> Seq<Seq<char>> {
        self.executable@
    }
}

impl Probe {
    /// Begins a probe for the version stored under `token`.
    pub fn begin(token: &str) -> (probe: Probe)
        ensures
            probe@ == executable_path(token@),
    {
        Probe { executable: executable_location(token) }
    }

    /// The executable whose presence decides.
    pub fn executable(&self) -> (place: &Location)
        ensures
            place@ == self@,
    {
        &self.executable
    }

    /// Says what to do, given whether the executable is there: install
    /// exactly where it is not.
    pub fn found(&self, executable_present: bool) -> (step: ProbeStep)
        ensures
            step == probe_step(executable_present),
    {
        if executable_present {
            ProbeStep::Finish
        } else {
            ProbeStep::Install
        }
    }

    /// Ends the probe with the executable to launch. `installed` says how
    /// installing went, if it was tried; the executable does not depend on
    /// it.
    pub fn finish(self, installed: Option<bool>) -> (place: Location)
        ensures
            place@ == self@,
    {
        self.executable
    }
}

/// A version whose executable is there is not installed again, and one whose
/// executable is missing is.
pub proof fn lemma_install_only_when_absent(executable_present: bool)
    ensures
        probe_step(executable_present) is Install <==> !executable_present,
{
}

} // verus!
