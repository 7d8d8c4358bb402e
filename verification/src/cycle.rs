//! The sampling schedule: acquire, encode, transmit, sleep, and again.
//!
//! Each cycle stands alone. Whatever fails, the rest of the cycle is skipped,
//! the full interval is slept, and the next cycle starts afresh. The loop has
//! no last state.

use crate::uplink::{TransmissionOutcome, UplinkError};
use vstd::prelude::*;

verus! {

/// Time between two cycles, in milliseconds: five minutes.
pub const SAMPLE_INTERVAL_MS: u64 = 300_000;

/// Why the sensor gave no measurement.
#[derive(Clone, Copy, Debug, PartialEq, Eq, Structural)]
pub enum AcquisitionError {
    /// The data line could not be driven or read.
    Line,
    /// The sensor's data did not match its checksum.
    ChecksumMismatch,
    /// The sensor did not answer, or not in time.
    Timeout,
}

/// What went wrong in a cycle.
#[derive(Clone, Copy, Debug, PartialEq, Eq, Structural)]
pub enum CycleError {
    Acquisition(AcquisitionError),
    /// The reading could not be serialized.
    Encoding,
    Uplink(UplinkError),
}

/// The part of the cycle that is under way.
#[derive(Clone, Copy, Debug, PartialEq, Eq, Structural)]
pub enum CyclePhase {
    Acquiring,
    Encoding,
    Transmitting,
    Sleeping,
}

/// What the driver reports back.
#[derive(Clone, Copy, Debug, PartialEq, Eq, Structural)]
pub enum CycleEvent {
    /// The sensor gave a measurement.
    Acquired,
    /// The reading was serialized.
    Encoded,
    /// The transmission delivered.
    Transmitted,
    /// The interval has passed.
    Slept,
    /// The part under way failed.
    Failed(CycleError),
}

/// The report that a finished transmission amounts to.
pub open spec fn report_of(outcome: TransmissionOutcome) -> CycleEvent {
    match outcome {
        TransmissionOutcome::Success { .. } => CycleEvent::Transmitted,
        TransmissionOutcome::Failure { reason } => CycleEvent::Failed(CycleError::Uplink(reason)),
    }
}

impl CycleEvent {
    /// Turns the way a transmission ended into the report for the loop.
    pub fn of_outcome(outcome: &TransmissionOutcome) -> (event: CycleEvent)
        ensures
            event == report_of(*outcome),
    {
        match outcome {
            TransmissionOutcome::Success { .. } => CycleEvent::Transmitted,
            TransmissionOutcome::Failure { reason } => CycleEvent::Failed(
                CycleError::Uplink(*reason),
            ),
        }
    }
}

/// What the driver is to do next.
#[derive(Clone, Copy, Debug, PartialEq, Eq, Structural)]
pub enum CycleAction {
    Acquire,
    Encode,
    Transmit,
    Sleep { millis: u64 },
}

/// The part of the cycle in which `error` can arise.
pub open spec fn arises_in(error: CycleError) -> CyclePhase {
    match error {
        CycleError::Acquisition(_) => CyclePhase::Acquiring,
        CycleError::Encoding => CyclePhase::Encoding,
        CycleError::Uplink(_) => CyclePhase::Transmitting,
    }
}

/// The phase that `event` leads to from `phase`. A success moves on to the
/// next part, a failure of the part under way skips to the sleep, and an
/// event that the phase does not await changes nothing.
pub open spec fn phase_after(phase: CyclePhase, event: CycleEvent) -> CyclePhase {
    match (phase, event) {
        (CyclePhase::Acquiring, CycleEvent::Acquired) => CyclePhase::Encoding,
        (CyclePhase::Encoding, CycleEvent::Encoded) => CyclePhase::Transmitting,
        (CyclePhase::Transmitting, CycleEvent::Transmitted) => CyclePhase::Sleeping,
        (CyclePhase::Sleeping, CycleEvent::Slept) => CyclePhase::Acquiring,
        (_, CycleEvent::Failed(error)) => if arises_in(error) == phase {
            CyclePhase::Sleeping
        } else {
            phase
        },
        _ => phase,
    }
}

/// The action that the driver is to perform in `phase`.
pub open spec fn action_in(phase: CyclePhase) -> CycleAction {
    match phase {
        CyclePhase::Acquiring => CycleAction::Acquire,
        CyclePhase::Encoding => CycleAction::Encode,
        CyclePhase::Transmitting => CycleAction::Transmit,
        CyclePhase::Sleeping => CycleAction::Sleep { millis: SAMPLE_INTERVAL_MS },
    }
}

/// The phase that a run of events leads to.
pub open spec fn phase_after_all(phase: CyclePhase, events: Seq<CycleEvent>) -> CyclePhase
    decreases events.len(),
{
    if events.len() == 0 {
        phase
    } else {
        phase_after(phase_after_all(phase, events.drop_last()), events.last())
    }
}

/// The endless sampling loop, as far as it decides.
pub struct SampleLoop {
    phase: CyclePhase,
}

impl View for SampleLoop {
    type V = CyclePhase;

    closed spec fn view(&self) -> CyclePhase {
        self.phase
    }
}

impl SampleLoop {
    /// A loop about to acquire its first measurement.
    pub fn new() -> (sample_loop: Self)
        ensures
            sample_loop@ == CyclePhase::Acquiring,
    {
        SampleLoop { phase: CyclePhase::Acquiring }
    }

    /// The part of the cycle that is under way.
    pub fn phase(&self) -> (phase: CyclePhase)
        ensures
            phase == self@,
    {
        self.phase
    }

    /// The action that the driver is to perform now.
    pub fn awaited(&self) -> (action: CycleAction)
        ensures
            action == action_in(self@),
    {
        match self.phase {
            CyclePhase::Acquiring => CycleAction::Acquire,
            CyclePhase::Encoding => CycleAction::Encode,
            CyclePhase::Transmitting => CycleAction::Transmit,
            CyclePhase::Sleeping => CycleAction::Sleep { millis: SAMPLE_INTERVAL_MS },
        }
    }

    /// Takes the driver's report and answers with the next action.
    pub fn step(&mut self, event: CycleEvent) -> (action: CycleAction)
        ensures
            final(self)@ == phase_after(old(self)@, event),
            action == action_in(final(self)@),
    {
        match event {
            CycleEvent::Acquired => {
                if let CyclePhase::Acquiring = self.phase {
                    self.phase = CyclePhase::Encoding;
                }
            },
            CycleEvent::Encoded => {
                if let CyclePhase::Encoding = self.phase {
                    self.phase = CyclePhase::Transmitting;
                }
            },
            CycleEvent::Transmitted => {
                if let CyclePhase::Transmitting = self.phase {
                    self.phase = CyclePhase::Sleeping;
                }
            },
            CycleEvent::Slept => {
                if let CyclePhase::Sleeping = self.phase {
                    self.phase = CyclePhase::Acquiring;
                }
            },
            CycleEvent::Failed(error) => {
                let skips = match (error, self.phase) {
                    (CycleError::Acquisition(_), CyclePhase::Acquiring) => true,
                    (CycleError::Encoding, CyclePhase::Encoding) => true,
                    (CycleError::Uplink(_), CyclePhase::Transmitting) => true,
                    _ => false,
                };
                if skips {
                    self.phase = CyclePhase::Sleeping;
                }
            },
        }
        self.awaited()
    }
}

/// A failure of the part under way abandons the cycle: the next thing to do
/// is to sleep the full interval.
pub proof fn lemma_failure_skips_to_sleep(phase: CyclePhase, error: CycleError)
    requires
        arises_in(error) == phase,
    ensures
        phase_after(phase, CycleEvent::Failed(error)) == CyclePhase::Sleeping,
        action_in(phase_after(phase, CycleEvent::Failed(error))) == (CycleAction::Sleep {
            millis: SAMPLE_INTERVAL_MS,
        }),
{
}

/// Until the interval has passed, a sleeping loop does nothing else: no
/// report but `Slept` wakes it, so in particular nothing is transmitted.
pub proof fn lemma_sleep_is_not_cut_short(events: Seq<CycleEvent>)
    requires
        forall|i: int| 0 <= i < events.len() ==> events[i] != CycleEvent::Slept,
    ensures
        phase_after_all(CyclePhase::Sleeping, events) == CyclePhase::Sleeping,
    decreases events.len(),
{
    if events.len() > 0 {
        lemma_sleep_is_not_cut_short(events.drop_last());
        assert(events.last() == events[events.len() - 1]);
    }
}

/// A transmission is started only for a reading that was acquired and
/// serialized in this cycle.
pub proof fn lemma_transmits_only_what_was_encoded(phase: CyclePhase, event: CycleEvent)
    requires
        phase != CyclePhase::Transmitting,
        phase_after(phase, event) == CyclePhase::Transmitting,
    ensures
        phase == CyclePhase::Encoding,
        event == CycleEvent::Encoded,
{
}

/// A cycle that got as far as transmitting ends in the sleep, whether the
/// transmission delivered or failed.
pub proof fn lemma_transmission_ends_in_sleep(error: UplinkError)
    ensures
        phase_after(CyclePhase::Transmitting, CycleEvent::Transmitted) == CyclePhase::Sleeping,
        phase_after(CyclePhase::Transmitting, CycleEvent::Failed(CycleError::Uplink(error)))
            == CyclePhase::Sleeping,
{
}

/// The loop has no last state: in every phase something is asked of the
/// driver, and some report moves the loop on.
pub proof fn lemma_loop_goes_on(phase: CyclePhase)
    ensures
        exists|event: CycleEvent| phase_after(phase, event) != phase,
        phase_after(CyclePhase::Sleeping, CycleEvent::Slept) == CyclePhase::Acquiring,
{
    match phase {
        CyclePhase::Acquiring => {
            assert(phase_after(phase, CycleEvent::Acquired) != phase);
        },
        CyclePhase::Encoding => {
            assert(phase_after(phase, CycleEvent::Encoded) != phase);
        },
        CyclePhase::Transmitting => {
            assert(phase_after(phase, CycleEvent::Transmitted) != phase);
        },
        CyclePhase::Sleeping => {
            assert(phase_after(phase, CycleEvent::Slept) != phase);
        },
    }
}

} // verus!
