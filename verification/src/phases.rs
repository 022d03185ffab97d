//! The order of the phases of a calibration scan.

use vstd::prelude::*;

verus! {

/// A phase of the scan.
#[derive(Clone, Copy, Debug, PartialEq, Eq, Structural)]
pub enum Phase {
    /// Bound the container in each camera's view.
    Crop,
    /// Measure the brightest and the darkest luma.
    Baseline,
    /// Locate every LED from the front.
    ScanXy,
    /// Locate from the back the LEDs that the front scan missed.
    RescanXy,
    /// Let the operator place the LEDs that are still missing.
    ManualXy,
    /// Locate every LED from the side.
    ScanZ,
    /// Locate from the other side the LEDs that the side scan missed.
    RescanZ,
    /// Let the operator place the depths that are still missing.
    ManualZ,
    /// Bring the table into its final form.
    PostProcess,
    /// Write the table out.
    Persist,
    /// Nothing is left to do.
    Done,
}

/// How a scan was started.
#[derive(Clone, Copy, Debug, PartialEq, Eq, Structural)]
pub struct ScanSetup {
    /// No cropping and no prompts.
    pub streamlined: bool,
    /// A second camera sees the depth while the first sees the front.
    pub multi_camera: bool,
}

/// Which way the container faces in a phase, and which view is filled.
#[derive(Clone, Copy, Debug, PartialEq, Eq, Structural)]
pub struct Orientation {
    /// The container was turned by half a turn: frames are mirrored.
    pub invert: bool,
    /// The side view is filled, not the front view.
    pub depth: bool,
}

/// The phase a scan starts with: a streamlined scan does not crop.
pub open spec fn opening(setup: ScanSetup) -> Phase {
    if setup.streamlined {
        Phase::Baseline
    } else {
        Phase::Crop
    }
}

/// The phase that follows, given how many LEDs the phase that ended left
/// unfound.
///
/// The front scan is repeated from the back only where it left failures,
/// the scan is not streamlined and there is one camera; the operator takes
/// over only where the repeat still leaves failures. With two cameras the
/// depth is seen during the front scan and no side scan follows. The side
/// scan is repeated and handed to the operator in the same way.
pub open spec fn following(phase: Phase, setup: ScanSetup, failures: u32) -> Phase {
    match phase {
        Phase::Crop => Phase::Baseline,
        Phase::Baseline => Phase::ScanXy,
        Phase::ScanXy => if setup.multi_camera {
            Phase::PostProcess
        } else if failures > 0 && !setup.streamlined {
            Phase::RescanXy
        } else {
            Phase::ScanZ
        },
        Phase::RescanXy => if failures > 0 {
            Phase::ManualXy
        } else {
            Phase::ScanZ
        },
        Phase::ManualXy => Phase::ScanZ,
        Phase::ScanZ => if failures > 0 {
            Phase::RescanZ
        } else {
            Phase::PostProcess
        },
        Phase::RescanZ => if failures > 0 {
            Phase::ManualZ
        } else {
            Phase::PostProcess
        },
        Phase::ManualZ => Phase::PostProcess,
        Phase::PostProcess => Phase::Persist,
        Phase::Persist => Phase::Done,
        Phase::Done => Phase::Done,
    }
}

/// The place of a phase in the order of the scan.
pub open spec fn rank(phase: Phase) -> nat {
    match phase {
        Phase::Crop => 0,
        Phase::Baseline => 1,
        Phase::ScanXy => 2,
        Phase::RescanXy => 3,
        Phase::ManualXy => 4,
        Phase::ScanZ => 5,
        Phase::RescanZ => 6,
        Phase::ManualZ => 7,
        Phase::PostProcess => 8,
        Phase::Persist => 9,
        Phase::Done => 10,
    }
}

/// The orientation of the phases that look at LEDs; the other phases have
/// none.
pub open spec fn facing(phase: Phase) -> Option<Orientation> {
    match phase {
        Phase::ScanXy => Some(Orientation { invert: false, depth: false }),
        Phase::RescanXy | Phase::ManualXy => Some(Orientation { invert: true, depth: false }),
        Phase::ScanZ => Some(Orientation { invert: false, depth: true }),
        Phase::RescanZ | Phase::ManualZ => Some(Orientation { invert: true, depth: true }),
        _ => None,
    }
}

/// Picks the phase a scan starts with.
pub fn first_phase(setup: ScanSetup) -> (phase: Phase)
    ensures
        phase == opening(setup),
{
    if setup.streamlined {
        Phase::Baseline
    } else {
        Phase::Crop
    }
}

/// Picks the phase that follows `phase`, which left `failures` LEDs
/// unfound; the number is not looked at after a phase that finds none.
pub fn next_phase(phase: Phase, setup: ScanSetup, failures: u32) -> (next: Phase)
    ensures
        next == following(phase, setup, failures),
        phase != Phase::Done ==> rank(next) > rank(phase),
{
    match phase {
        Phase::Crop => Phase::Baseline,
        Phase::Baseline => Phase::ScanXy,
        Phase::ScanXy => {
            if setup.multi_camera {
                Phase::PostProcess
            } else if failures > 0 && !setup.streamlined {
                Phase::RescanXy
            } else {
                Phase::ScanZ
            }
        },
        Phase::RescanXy => {
            if failures > 0 {
                Phase::ManualXy
            } else {
                Phase::ScanZ
            }
        },
        Phase::ManualXy => Phase::ScanZ,
        Phase::ScanZ => {
            if failures > 0 {
                Phase::RescanZ
            } else {
                Phase::PostProcess
            }
        },
        Phase::RescanZ => {
            if failures > 0 {
                Phase::ManualZ
            } else {
                Phase::PostProcess
            }
        },
        Phase::ManualZ => Phase::PostProcess,
        Phase::PostProcess => Phase::Persist,
        Phase::Persist => Phase::Done,
        Phase::Done => Phase::Done,
    }
}

/// Tells how the container faces in a phase and which view it fills.
pub fn orientation(phase: Phase) -> (way: Option<Orientation>)
    ensures
        way == facing(phase),
{
    match phase {
        Phase::ScanXy => Some(Orientation { invert: false, depth: false }),
        Phase::RescanXy | Phase::ManualXy => Some(Orientation { invert: true, depth: false }),
        Phase::ScanZ => Some(Orientation { invert: false, depth: true }),
        Phase::RescanZ | Phase::ManualZ => Some(Orientation { invert: true, depth: true }),
        _ => None,
    }
}

/// The phases of a scan are passed in one direction: every phase but the
/// last is followed by a later one, so a scan ends after at most ten steps,
/// and it only ends after the table was processed and written.
pub proof fn lemma_scan_advances(phase: Phase, setup: ScanSetup, failures: u32)
    ensures
        phase != Phase::Done ==> rank(following(phase, setup, failures)) > rank(phase),
        following(phase, setup, failures) == Phase::Done ==> phase == Phase::Persist || phase
            == Phase::Done,
        following(phase, setup, failures) == Phase::Persist ==> phase == Phase::PostProcess,
{
}

/// The operator is asked only after an automatic repeat left failures.
pub proof fn lemma_manual_after_failed_rescan(phase: Phase, setup: ScanSetup, failures: u32)
    ensures
        following(phase, setup, failures) == Phase::ManualXy ==> phase == Phase::RescanXy
            && failures > 0,
        following(phase, setup, failures) == Phase::ManualZ ==> phase == Phase::RescanZ
            && failures > 0,
{
}

} // verus!
