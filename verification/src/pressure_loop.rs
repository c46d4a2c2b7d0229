//! The loop of memory-pressure control, one step at a time.
//!
//! In each round the control group is sampled, a trim that runs beside the loop is asked for its
//! result, a new trim may be started, and the owners of optional memory are told of the pressure.
use vstd::prelude::*;

use crate::allocator_trim::{attempt, log_allocator_trim_attempt};
use crate::memory_pressure::{
    look_fault, look_updates, looked, no_labels_view, update_memory_pressure_controller,
    CgroupMemoryPressureController, CgroupReadError, CgroupReading, MemoryPressureError,
};
use crate::metric_log::{counter, log_counter, MetricLog, UpdateView};
use crate::time::Moment;

verus! {

/// What the loop waits for.
#[derive(Clone, Copy, Debug, PartialEq, Eq, Structural)]
pub enum PressureStage {
    /// The sample that opens a round.
    Sample,
    /// The result of the trim that is running.
    TrimResult,
    /// The sample after a finished trim.
    Resample,
    /// The start of a trim.
    TrimStart,
    /// The pause that closes a round.
    Pause,
    Stopped,
}

/// What the loop does next.
#[derive(Clone, Copy, Debug, PartialEq, Eq, Structural)]
pub enum PressureAction {
    /// Look at the control group.
    Sample,
    /// Ask the running trim for its result.
    PollTrim,
    /// Start a trim beside the loop.
    StartTrim { min_free_bytes: u64 },
    /// Pause until the next round.
    Pause,
    /// Shut the backend down.
    Shutdown(MemoryPressureError),
    /// Nothing: what was reported is not what the loop waits for.
    Ignore,
}

/// What was done.
#[derive(Clone, Copy, Debug)]
pub enum PressureEvent {
    Sampled { reading: Result<CgroupReading, CgroupReadError>, now: Moment },
    /// The trim is still running.
    TrimRunning,
    /// The trim ended, with or without a failure.
    TrimEnded { failed: bool },
    TrimStarted,
    TrimNotStarted,
    Paused,
}

/// The state of the loop.
#[derive(Clone, Copy, Debug, PartialEq, Eq, Structural)]
pub struct PressureLoop {
    pub controller: CgroupMemoryPressureController,
    pub trim_in_flight: bool,
    pub stage: PressureStage,
}

/// A step of the loop: the state after it, what to do next, and the updates that are made.
pub struct PressureStep {
    pub after: PressureLoop,
    pub action: PressureAction,
    pub updates: Seq<UpdateView>,
}

pub open spec fn pressure_failure() -> UpdateView {
    counter("backend_memory_pressure_failures_total"@, 1, no_labels_view())
}

pub open spec fn telemetry_failure() -> UpdateView {
    counter("backend_memory_telemetry_failures_total"@, 1, no_labels_view())
}

impl PressureLoop {
    /// The end of a round: the owners of optional memory are told of the pressure.
    pub open spec fn closed_round(self) -> PressureLoop {
        let controller = self.controller;
        PressureLoop {
            controller: CgroupMemoryPressureController {
                memory_reclamation: if controller.defers_reclamation(self.trim_in_flight) {
                    false
                } else {
                    controller.reclamation_active
                },
                ..controller
            },
            stage: PressureStage::Pause,
            ..self
        }
    }

    /// What follows a sample with no trim result left to take: a trim if none runs and one may be
    /// evaluated, else the end of the round.
    pub open spec fn trim_or_close(self, now: Moment, updates: Seq<UpdateView>) -> PressureStep {
        if !self.trim_in_flight && self.controller.may_trim(now@) {
            PressureStep {
                after: PressureLoop {
                    controller: CgroupMemoryPressureController {
                        last_allocator_trim_evaluated: Some(now),
                        ..self.controller
                    },
                    stage: PressureStage::TrimStart,
                    ..self
                },
                action: PressureAction::StartTrim {
                    min_free_bytes: self.controller.allocator_trim_min_free_bytes,
                },
                updates,
            }
        } else {
            PressureStep { after: self.closed_round(), action: PressureAction::Pause, updates }
        }
    }

    /// What follows a look at the control group.
    pub open spec fn sampled(
        self,
        reading: Result<CgroupReading, CgroupReadError>,
        now: Moment,
    ) -> PressureStep {
        let seen = PressureLoop { controller: looked(self.controller, reading), ..self };
        let updates = look_updates(self.controller, reading);
        match look_fault(self.controller, reading) {
            Some(error) => PressureStep {
                after: PressureLoop { stage: PressureStage::Stopped, ..seen },
                action: PressureAction::Shutdown(error),
                updates: updates.push(pressure_failure()),
            },
            None => if self.stage == PressureStage::Sample && self.trim_in_flight {
                PressureStep {
                    after: PressureLoop { stage: PressureStage::TrimResult, ..seen },
                    action: PressureAction::PollTrim,
                    updates,
                }
            } else {
                seen.trim_or_close(now, updates)
            },
        }
    }

    /// What the loop does about an event.
    pub open spec fn stepped(self, event: PressureEvent) -> PressureStep {
        match (self.stage, event) {
            (PressureStage::Sample, PressureEvent::Sampled { reading, now }) => self.sampled(
                reading,
                now,
            ),
            (PressureStage::Resample, PressureEvent::Sampled { reading, now }) => self.sampled(
                reading,
                now,
            ),
            (PressureStage::TrimResult, PressureEvent::TrimRunning) => PressureStep {
                after: self.closed_round(),
                action: PressureAction::Pause,
                updates: Seq::empty(),
            },
            (PressureStage::TrimResult, PressureEvent::TrimEnded { failed }) => PressureStep {
                after: PressureLoop {
                    trim_in_flight: false,
                    stage: PressureStage::Resample,
                    ..self
                },
                action: PressureAction::Sample,
                updates: if failed {
                    seq![telemetry_failure()]
                } else {
                    Seq::empty()
                },
            },
            (PressureStage::TrimStart, PressureEvent::TrimStarted) => PressureStep {
                after: (PressureLoop { trim_in_flight: true, ..self }).closed_round(),
                action: PressureAction::Pause,
                updates: Seq::empty(),
            },
            (PressureStage::TrimStart, PressureEvent::TrimNotStarted) => PressureStep {
                after: self.closed_round(),
                action: PressureAction::Pause,
                updates: seq![attempt("sample_failure"@), telemetry_failure()],
            },
            (PressureStage::Pause, PressureEvent::Paused) => PressureStep {
                after: PressureLoop { stage: PressureStage::Sample, ..self },
                action: PressureAction::Sample,
                updates: Seq::empty(),
            },
            _ => PressureStep {
                after: self,
                action: PressureAction::Ignore,
                updates: Seq::empty(),
            },
        }
    }

    /// A loop at the opening of its first round.
    pub fn new(controller: CgroupMemoryPressureController) -> (state: PressureLoop)
        ensures
            state == (PressureLoop {
                controller,
                trim_in_flight: false,
                stage: PressureStage::Sample,
            }),
    {
        PressureLoop { controller, trim_in_flight: false, stage: PressureStage::Sample }
    }

    fn close_round(&mut self)
        ensures
            *final(self) == old(self).closed_round(),
    {
        let in_flight = self.trim_in_flight;
        let mut controller = self.controller;
        controller.publish_reclamation_state(in_flight);
        self.controller = controller;
        self.stage = PressureStage::Pause;
    }

    fn take_sample(
        &mut self,
        reading: &Result<CgroupReading, CgroupReadError>,
        now: Moment,
        log: &mut MetricLog,
    ) -> (action: PressureAction)
        ensures
            *final(self) == old(self).sampled(*reading, now).after,
            action == old(self).sampled(*reading, now).action,
            final(log)@ == old(log)@ + old(self).sampled(*reading, now).updates,
    {
        let mut controller = self.controller;
        let sampled = update_memory_pressure_controller(&mut controller, reading, log);
        self.controller = controller;
        if let Err(error) = sampled {
            log_counter(log, "backend_memory_pressure_failures_total", 1);
            assert(log@ =~= old(log)@ + old(self).sampled(*reading, now).updates);
            self.stage = PressureStage::Stopped;
            return PressureAction::Shutdown(error);
        }
        if self.stage == PressureStage::Sample && self.trim_in_flight {
            self.stage = PressureStage::TrimResult;
            return PressureAction::PollTrim;
        }
        if !self.trim_in_flight && controller.claim_allocator_trim(now) {
            self.controller = controller;
            self.stage = PressureStage::TrimStart;
            return PressureAction::StartTrim {
                min_free_bytes: controller.allocator_trim_min_free_bytes,
            };
        }
        self.close_round();
        PressureAction::Pause
    }

    /// Takes in what was done, and says what to do next.
    pub fn step(&mut self, event: &PressureEvent, log: &mut MetricLog) -> (action: PressureAction)
        ensures
            *final(self) == old(self).stepped(*event).after,
            action == old(self).stepped(*event).action,
            final(log)@ == old(log)@ + old(self).stepped(*event).updates,
    {
        assert(log@ =~= log@ + Seq::<UpdateView>::empty());
        match (self.stage, event) {
            (PressureStage::Sample, PressureEvent::Sampled { reading, now }) => self.take_sample(
                reading,
                *now,
                log,
            ),
            (PressureStage::Resample, PressureEvent::Sampled { reading, now }) => self.take_sample(
                reading,
                *now,
                log,
            ),
            (PressureStage::TrimResult, PressureEvent::TrimRunning) => {
                self.close_round();
                PressureAction::Pause
            },
            (PressureStage::TrimResult, PressureEvent::TrimEnded { failed }) => {
                self.trim_in_flight = false;
                if *failed {
                    log_counter(log, "backend_memory_telemetry_failures_total", 1);
                }
                assert(log@ =~= old(log)@ + old(self).stepped(*event).updates);
                self.stage = PressureStage::Resample;
                PressureAction::Sample
            },
            (PressureStage::TrimStart, PressureEvent::TrimStarted) => {
                self.trim_in_flight = true;
                self.close_round();
                PressureAction::Pause
            },
            (PressureStage::TrimStart, PressureEvent::TrimNotStarted) => {
                log_allocator_trim_attempt("sample_failure", log);
                log_counter(log, "backend_memory_telemetry_failures_total", 1);
                assert(log@ =~= old(log)@ + old(self).stepped(*event).updates);
                self.close_round();
                PressureAction::Pause
            },
            (PressureStage::Pause, PressureEvent::Paused) => {
                self.stage = PressureStage::Sample;
                PressureAction::Sample
            },
            _ => PressureAction::Ignore,
        }
    }
}

/// The loop starts a trim only while none runs.
pub proof fn one_trim_at_a_time(state: PressureLoop, event: PressureEvent)
    ensures
        state.stepped(event).action is StartTrim ==> !state.stepped(event).after.trim_in_flight,
        state.stepped(event).action is StartTrim ==> !state.trim_in_flight,
{
}

/// A round that closes tells the owners of optional memory at once that pressure is over, and
/// keeps news of pressure from them only for a running trim above the shedding boundary.
pub proof fn closed_round_publishes(state: PressureLoop)
    ensures
        !state.controller.reclamation_active
            ==> !state.closed_round().controller.memory_reclamation,
        state.controller.reclamation_active && !state.trim_in_flight
            ==> state.closed_round().controller.memory_reclamation,
        state.controller.reclamation_active && state.controller.latest_headroom_bytes
            <= state.controller.shedding_enter_headroom_bytes
            ==> state.closed_round().controller.memory_reclamation,
{
}

/// A loop that has shut down does nothing more.
pub proof fn stopped_loop_stays_stopped(state: PressureLoop, event: PressureEvent)
    requires
        state.stage == PressureStage::Stopped,
    ensures
        state.stepped(event).after == state,
        state.stepped(event).action == PressureAction::Ignore,
{
}

/// A trim starts exactly after a sample that was accepted, when no trim is running or left to be
/// asked for, and when one may be evaluated; it is told how much has to be free, and its time counts
/// as the last evaluation.
pub proof fn trims_start_when_they_may(
    state: PressureLoop,
    reading: Result<CgroupReading, CgroupReadError>,
    now: Moment,
)
    requires
        state.stage == PressureStage::Sample || state.stage == PressureStage::Resample,
    ensures
        ({
            let step = state.stepped(PressureEvent::Sampled { reading, now });
            let controller = looked(state.controller, reading);
            &&& step.action is StartTrim <==> look_fault(state.controller, reading) is None
                && !state.trim_in_flight && controller.may_trim(now@)
            &&& step.action matches PressureAction::StartTrim { min_free_bytes } ==> {
                &&& min_free_bytes == state.controller.allocator_trim_min_free_bytes
                &&& step.after.controller.last_allocator_trim_evaluated == Some(now)
                &&& step.after.stage == PressureStage::TrimStart
            }
            &&& !(step.action is StartTrim)
                ==> step.after.controller.last_allocator_trim_evaluated
                == state.controller.last_allocator_trim_evaluated
            &&& step.after.trim_in_flight == state.trim_in_flight
            &&& step.after.controller.latest_headroom_bytes == controller.latest_headroom_bytes
            &&& step.after.controller.reclamation_active == controller.reclamation_active
            &&& step.after.controller.external_request_shedding
                == controller.external_request_shedding
        }),
{
}

/// A sample that breaks a rule ends the loop and shuts the backend down with that fault, and nothing
/// else does.
pub proof fn faults_end_the_loop(state: PressureLoop, event: PressureEvent)
    ensures
        ({
            let step = state.stepped(event);
            let samples = state.stage == PressureStage::Sample || state.stage
                == PressureStage::Resample;
            &&& step.action is Shutdown <==> samples && (event
                matches PressureEvent::Sampled { reading, .. } && look_fault(
                state.controller,
                reading,
            ) is Some)
            &&& step.action matches PressureAction::Shutdown(error) ==> step.after.stage
                == PressureStage::Stopped && look_fault(state.controller, event->reading) == Some(
                error,
            )
            &&& state.stage != PressureStage::Stopped && step.after.stage == PressureStage::Stopped
                ==> step.action is Shutdown
        }),
{
}

/// A trim that is running is asked for its result in each round, after the sample that opens it.
/// While it runs the round closes; when it ended the control group is sampled again before the round
/// goes on. A trim runs from when it was started until it ended, whatever else happens.
pub proof fn running_trims_are_asked_for(state: PressureLoop, event: PressureEvent)
    ensures
        ({
            let step = state.stepped(event);
            &&& step.action is PollTrim <==> state.stage == PressureStage::Sample
                && state.trim_in_flight && (event matches PressureEvent::Sampled { reading, .. }
                && look_fault(state.controller, reading) is None)
            &&& step.action is PollTrim ==> step.after.stage == PressureStage::TrimResult
            &&& !state.trim_in_flight && step.after.trim_in_flight ==> event is TrimStarted
                && state.stage == PressureStage::TrimStart
            &&& state.trim_in_flight && !step.after.trim_in_flight ==> event is TrimEnded
                && state.stage == PressureStage::TrimResult && step.after.stage
                == PressureStage::Resample && step.action is Sample
            &&& state.stage == PressureStage::TrimResult && event is TrimEnded
                ==> !step.after.trim_in_flight
            &&& state.stage == PressureStage::TrimResult && event is TrimRunning ==> step.action
                is Pause && step.after.trim_in_flight == state.trim_in_flight
            &&& state.stage == PressureStage::TrimStart && event is TrimStarted
                ==> step.after.trim_in_flight && step.action is Pause
            &&& state.stage == PressureStage::Pause && event is Paused ==> step.action is Sample
                && step.after.stage == PressureStage::Sample && step.after.controller
                == state.controller
        }),
{
}

/// The owners of optional memory are told something only when a round closes, and then what the
/// controller says; what does not close a round leaves what they were told as it was.
pub proof fn owners_are_told_when_a_round_closes(state: PressureLoop, event: PressureEvent)
    ensures
        ({
            let step = state.stepped(event);
            let told = step.after.controller.memory_reclamation;
            &&& !(step.action is Pause) ==> told == state.controller.memory_reclamation
            &&& step.action is Pause ==> step.after.stage == PressureStage::Pause
            &&& step.action is Pause && !step.after.controller.reclamation_active ==> !told
            &&& step.action is Pause && step.after.controller.reclamation_active
                && !step.after.trim_in_flight ==> told
            &&& step.action is Pause && step.after.controller.reclamation_active
                && state.controller.memory_reclamation ==> told
            &&& step.action is Pause && step.after.controller.reclamation_active
                && step.after.controller.external_request_shedding == Some(true) ==> told
        }),
{
}

/// A trim that failed, or could not be started, is counted as a failure, and one that ended well is
/// not.
pub proof fn failed_trims_are_counted(state: PressureLoop, failed: bool)
    ensures
        state.stage == PressureStage::TrimResult ==> (state.stepped(
            PressureEvent::TrimEnded { failed },
        ).updates.contains(telemetry_failure()) <==> failed),
        state.stage == PressureStage::TrimStart ==> state.stepped(
            PressureEvent::TrimNotStarted,
        ).updates.contains(telemetry_failure()),
        state.stage == PressureStage::TrimStart ==> state.stepped(
            PressureEvent::TrimStarted,
        ).updates.len() == 0,
{
    let ended = state.stepped(PressureEvent::TrimEnded { failed }).updates;
    if state.stage == PressureStage::TrimResult && failed {
        assert(ended[0] == telemetry_failure());
    }
    let refused = state.stepped(PressureEvent::TrimNotStarted).updates;
    if state.stage == PressureStage::TrimStart {
        assert(refused[1] == telemetry_failure());
    }
}

} // verus!
