//! Bringing a virtual machine down: asked first, made to end if it does not.

use crate::backend::{Control, ControlCall, ControlCallView};
use crate::model::{BackendKind, NetworkSpec, NetworkSpecView, VmRecord, VmRecordView, VmStatus};
use crate::paths;
use crate::policy::{self, backend};
use vstd::prelude::*;

verus! {

/// How often to look, ten times a second, whether a machine that was asked to
/// shut down has ended.
pub const GRACEFUL_SHUTDOWN_POLLS: u32 = 100;

/// What is being done for a machine that goes down.
#[derive(Debug, Clone, Copy, PartialEq, Eq, Structural)]
pub enum StopStage {
    Probing,
    Asking,
    Waiting,
    ProbingAgain,
    Terminating,
    CleaningUp,
    Finished,
    /// The process would not end; the record stays as it was.
    Stuck,
}

/// What to do next for a machine that goes down.
#[derive(Debug)]
pub enum StopAction {
    /// Does the process exist?
    Probe { pid: u32 },
    /// Does the monitor take the call?
    Ask { call: ControlCall },
    /// Does the process end within so many looks at it?
    WaitForExit { pid: u32, polls: u32 },
    /// Can the process be made to end?
    Terminate { pid: u32 },
    CleanUpNetwork { spec: NetworkSpec, tap: String },
    /// Keep the record as it is now; the machine has stopped.
    Finish { record: VmRecord },
    /// Nothing more can be done.
    GiveUp { pid: u32 },
}

pub enum StopActionView {
    Probe { pid: u32 },
    Ask { call: ControlCallView },
    WaitForExit { pid: u32, polls: u32 },
    Terminate { pid: u32 },
    CleanUpNetwork { spec: NetworkSpecView, tap: Seq<char> },
    Finish { record: VmRecordView },
    GiveUp { pid: u32 },
}

impl View for StopAction {
    type V = StopActionView;

    open spec fn view(&self) -> StopActionView {
        match *self {
            StopAction::Probe { pid } => StopActionView::Probe { pid },
            StopAction::Ask { call } => StopActionView::Ask { call: call@ },
            StopAction::WaitForExit { pid, polls } => StopActionView::WaitForExit { pid, polls },
            StopAction::Terminate { pid } => StopActionView::Terminate { pid },
            StopAction::CleanUpNetwork { spec, tap } => StopActionView::CleanUpNetwork {
                spec: spec@,
                tap: tap@,
            },
            StopAction::Finish { record } => StopActionView::Finish { record: record@ },
            StopAction::GiveUp { pid } => StopActionView::GiveUp { pid },
        }
    }
}

#[verifier::ext_equal]
pub struct StoppingView {
    pub stage: StopStage,
    pub record: VmRecordView,
}

/// A machine that goes down.
#[derive(Debug)]
pub struct Stopping {
    stage: StopStage,
    record: VmRecord,
}

impl View for Stopping {
    type V = StoppingView;

    closed spec fn view(&self) -> StoppingView {
        StoppingView { stage: self.stage, record: self.record@ }
    }
}

/// The record of a machine that has stopped.
pub open spec fn stopped(record: VmRecordView) -> VmRecordView {
    VmRecordView { status: VmStatus::Stopped, pid: None, ..record }
}

/// The process is gone: its network device is removed, if there is one.
pub open spec fn to_clean_up(record: VmRecordView) -> (StoppingView, StopActionView) {
    match record.tap_name {
        Some(tap) => (
            StoppingView { stage: StopStage::CleaningUp, record },
            StopActionView::CleanUpNetwork { spec: record.request.network, tap },
        ),
        None => finish(record),
    }
}

pub open spec fn finish(record: VmRecordView) -> (StoppingView, StopActionView) {
    (
        StoppingView { stage: StopStage::Finished, record: stopped(record) },
        StopActionView::Finish { record: stopped(record) },
    )
}

/// A machine with a process is looked at first.
pub open spec fn first_step(record: VmRecordView) -> (StoppingView, StopActionView) {
    match record.pid {
        Some(pid) => (
            StoppingView { stage: StopStage::Probing, record },
            StopActionView::Probe { pid },
        ),
        None => to_clean_up(record),
    }
}

pub open spec fn to_second_probe(record: VmRecordView) -> (StoppingView, StopActionView) {
    (
        StoppingView { stage: StopStage::ProbingAgain, record },
        StopActionView::Probe { pid: record.pid->0 },
    )
}

/// What follows from a yes or no to what was done last.
pub open spec fn next_step(s: StoppingView, yes: bool) -> (StoppingView, StopActionView) {
    let record = s.record;
    match s.stage {
        StopStage::Probing => if !yes {
            to_clean_up(record)
        } else {
            match policy::control_call(record.backend, record.workspace, Control::Shutdown) {
                Some(call) => (
                    StoppingView { stage: StopStage::Asking, record },
                    StopActionView::Ask { call },
                ),
                None => to_second_probe(record),
            }
        },
        StopStage::Asking => if yes {
            (
                StoppingView { stage: StopStage::Waiting, record },
                StopActionView::WaitForExit {
                    pid: record.pid->0,
                    polls: GRACEFUL_SHUTDOWN_POLLS,
                },
            )
        } else {
            to_second_probe(record)
        },
        StopStage::Waiting => if yes {
            to_clean_up(record)
        } else {
            to_second_probe(record)
        },
        StopStage::ProbingAgain => if yes {
            (
                StoppingView { stage: StopStage::Terminating, record },
                StopActionView::Terminate { pid: record.pid->0 },
            )
        } else {
            to_clean_up(record)
        },
        StopStage::Terminating => if yes {
            to_clean_up(record)
        } else {
            (
                StoppingView { stage: StopStage::Stuck, record },
                StopActionView::GiveUp { pid: record.pid->0 },
            )
        },
        _ => finish(record),
    }
}

/// There is still something to do, and a process where one is spoken of.
pub open spec fn under_way(s: StoppingView) -> bool {
    match s.stage {
        StopStage::CleaningUp => true,
        StopStage::Finished => false,
        StopStage::Stuck => false,
        _ => s.record.pid is Some,
    }
}

impl Stopping {
    /// Starts to bring down the machine of a record.
    pub fn start(record: VmRecord) -> (r: (Stopping, StopAction))
        ensures
            (r.0@, r.1@) == first_step(record@),
    {
        match record.pid {
            Some(pid) => (
                Stopping { stage: StopStage::Probing, record },
                StopAction::Probe { pid },
            ),
            None => Stopping { stage: StopStage::Probing, record }.cleaning_up(),
        }
    }

    /// What is being done.
    pub fn stage(&self) -> (r: StopStage)
        ensures
            r == self@.stage,
    {
        self.stage
    }

    fn cleaning_up(self) -> (r: (Stopping, StopAction))
        ensures
            (r.0@, r.1@) == to_clean_up(self@.record),
    {
        let mut s = self;
        if let Some(tap) = &s.record.tap_name {
            let action = StopAction::CleanUpNetwork {
                spec: s.record.request.network.clone(),
                tap: tap.clone(),
            };
            s.stage = StopStage::CleaningUp;
            return (s, action);
        }
        s.finished()
    }

    fn finished(self) -> (r: (Stopping, StopAction))
        ensures
            (r.0@, r.1@) == finish(self@.record),
    {
        let mut s = self;
        let ghost before = s@.record;
        s.record.status = VmStatus::Stopped;
        s.record.pid = None;
        s.stage = StopStage::Finished;
        proof {
            assert(s.record@ =~= stopped(before));
        }
        let record = s.record.clone();
        (s, StopAction::Finish { record })
    }

    fn probing_again(self, pid: u32) -> (r: (Stopping, StopAction))
        requires
            self@.record.pid == Some(pid),
        ensures
            (r.0@, r.1@) == to_second_probe(self@.record),
    {
        let s = Stopping { stage: StopStage::ProbingAgain, ..self };
        (s, StopAction::Probe { pid })
    }

    fn asking(self, pid: u32) -> (r: (Stopping, StopAction))
        requires
            self@.record.pid == Some(pid),
            self@.stage == StopStage::Probing,
        ensures
            (r.0@, r.1@) == next_step(self@, true),
    {
        let call = match backend(self.record.backend) {
            Ok(b) => b.control(&self.record, Control::Shutdown),
            Err(_) => None,
        };
        match call {
            Some(call) => {
                let s = Stopping { stage: StopStage::Asking, ..self };
                (s, StopAction::Ask { call })
            },
            None => self.probing_again(pid),
        }
    }

    /// What to do after a yes or no to what was done last.
    pub fn on_answer(self, yes: bool) -> (r: (Stopping, StopAction))
        requires
            under_way(self@),
        ensures
            (r.0@, r.1@) == next_step(self@, yes),
    {
        let pid: u32 = match self.record.pid {
            Some(pid) => pid,
            None => {
                return self.finished();
            },
        };
        match self.stage {
            StopStage::Probing => {
                if yes {
                    self.asking(pid)
                } else {
                    self.cleaning_up()
                }
            },
            StopStage::Asking => {
                if yes {
                    let s = Stopping { stage: StopStage::Waiting, ..self };
                    (s, StopAction::WaitForExit { pid, polls: GRACEFUL_SHUTDOWN_POLLS })
                } else {
                    self.probing_again(pid)
                }
            },
            StopStage::Waiting => {
                if yes {
                    self.cleaning_up()
                } else {
                    self.probing_again(pid)
                }
            },
            StopStage::ProbingAgain => {
                if yes {
                    let s = Stopping { stage: StopStage::Terminating, ..self };
                    (s, StopAction::Terminate { pid })
                } else {
                    self.cleaning_up()
                }
            },
            StopStage::Terminating => {
                if yes {
                    self.cleaning_up()
                } else {
                    let s = Stopping { stage: StopStage::Stuck, ..self };
                    (s, StopAction::GiveUp { pid })
                }
            },
            _ => self.finished(),
        }
    }
}

// ------------------------------------------------------------------------ laws

/// How far the work has come.
pub open spec fn rank(stage: StopStage) -> int {
    match stage {
        StopStage::Probing => 0,
        StopStage::Asking => 1,
        StopStage::Waiting => 2,
        StopStage::ProbingAgain => 3,
        StopStage::Terminating => 4,
        StopStage::CleaningUp => 5,
        StopStage::Finished => 6,
        StopStage::Stuck => 6,
    }
}

/// Every answer takes the work further, so it ends, and as long as it has not
/// ended there is something to do.
pub proof fn work_moves_on(s: StoppingView, yes: bool)
    requires
        under_way(s),
    ensures
        rank(next_step(s, yes).0.stage) > rank(s.stage),
        under_way(next_step(s, yes).0) || next_step(s, yes).1 is Finish || next_step(s, yes).1 is GiveUp,
{
}

/// A machine that has stopped has no process and says so; nothing else of its
/// record changes.
pub proof fn finished_means_stopped(s: StoppingView, yes: bool)
    requires
        under_way(s),
    ensures
        next_step(s, yes).1 matches StopActionView::Finish { record } ==> {
            &&& record.status == VmStatus::Stopped
            &&& record.pid is None
            &&& record == (VmRecordView { status: record.status, pid: record.pid, ..s.record })
        },
        !(next_step(s, yes).1 is Finish) ==> next_step(s, yes).0.record == s.record,
{
}

/// A process is only made to end after it was found alive, and not while it
/// may still follow a request to shut down.
pub proof fn force_comes_last(s: StoppingView, yes: bool)
    requires
        under_way(s),
    ensures
        next_step(s, yes).1 is Terminate ==> s.stage == StopStage::ProbingAgain && yes,
{
}

/// Whatever the monitor, a process that is found alive at the second look is made
/// to end, and the work is given up only if that fails.
pub proof fn what_stays_alive_is_made_to_end(s: StoppingView, yes: bool)
    requires
        under_way(s),
    ensures
        s.stage == StopStage::ProbingAgain && yes ==> next_step(s, yes).1 == (
        StopActionView::Terminate { pid: s.record.pid->0 }) && next_step(s, yes).0.stage
            == StopStage::Terminating,
        next_step(s, yes).1 is Terminate ==> s.stage == StopStage::ProbingAgain && yes,
        next_step(s, yes).1 is GiveUp <==> s.stage == StopStage::Terminating && !yes,
        next_step(s, yes).1 matches StopActionView::GiveUp { pid } ==> Some(pid) == s.record.pid,
        next_step(s, yes).0.stage == StopStage::Terminating <==> next_step(s, yes).1 is Terminate,
        next_step(s, yes).0.stage == StopStage::Stuck <==> next_step(s, yes).1 is GiveUp,
{
}

/// A machine that runs is asked to shut down first, if its monitor can be asked:
/// QEMU by its power button, Firecracker by Ctrl-Alt-Del. One that took the
/// request has a hundred looks to end; one that did not take it, does not end or
/// cannot be asked is looked at again.
pub proof fn asking_comes_first(s: StoppingView, yes: bool)
    requires
        under_way(s),
    ensures
        s.stage == StopStage::Probing && yes ==> match s.record.backend {
            BackendKind::Qemu => next_step(s, yes).1 matches StopActionView::Ask { call }
                && call == (ControlCallView::Qmp {
                socket: paths::joined(s.record.workspace, "qmp.sock"@),
                command: "system_powerdown"@,
            }),
            BackendKind::Firecracker => next_step(s, yes).1 matches StopActionView::Ask { call } && (
            call matches ControlCallView::Http { socket, method, path, .. } && socket
                == paths::joined(s.record.workspace, "firecracker.sock"@) && method == "PUT"@ && path
                == "/actions"@),
            _ => next_step(s, yes).1 == (StopActionView::Probe { pid: s.record.pid->0 }),
        },
        s.stage == StopStage::Asking && yes ==> next_step(s, yes).1 == (
        StopActionView::WaitForExit { pid: s.record.pid->0, polls: 100 }),
        (s.stage == StopStage::Asking || s.stage == StopStage::Waiting) && !yes ==> next_step(
            s,
            yes,
        ).1 == (StopActionView::Probe { pid: s.record.pid->0 }) && next_step(s, yes).0.stage
            == StopStage::ProbingAgain,
        next_step(s, yes).0.stage == StopStage::Asking <==> next_step(s, yes).1 is Ask,
        next_step(s, yes).0.stage == StopStage::Waiting <==> next_step(s, yes).1 is WaitForExit,
        next_step(s, yes).0.stage == StopStage::ProbingAgain <==> next_step(s, yes).1 is Probe,
{
}

/// Once a process is known to be gone its device is removed, if it has one, and
/// the machine has stopped, even if the device cannot be removed.
pub proof fn what_is_gone_is_cleaned_up(s: StoppingView, yes: bool)
    requires
        under_way(s),
    ensures
        ({
            let gone = match s.stage {
                StopStage::Probing => !yes,
                StopStage::ProbingAgain => !yes,
                StopStage::Waiting => yes,
                StopStage::Terminating => yes,
                _ => false,
            };
            let next = next_step(s, yes);
            &&& gone && s.record.tap_name is Some ==> next.1 == (StopActionView::CleanUpNetwork {
                spec: s.record.request.network,
                tap: s.record.tap_name->0,
            }) && next.0.stage == StopStage::CleaningUp
            &&& next.1 is Finish <==> s.stage == StopStage::CleaningUp || (gone
                && s.record.tap_name is None)
            &&& next.1 is CleanUpNetwork <==> gone && s.record.tap_name is Some
            &&& next.1 matches StopActionView::Finish { record } ==> record == next.0.record
                && record.status == VmStatus::Stopped && record.pid is None
        }),
{
}

/// A machine without a process has nothing to be asked or ended; one with a
/// process is looked at first.
pub proof fn stopping_starts_with_a_look(record: VmRecordView)
    ensures
        ({
            let begun = first_step(record);
            &&& record.pid is Some ==> begun.1 == (StopActionView::Probe { pid: record.pid->0 })
                && begun.0 == (StoppingView { stage: StopStage::Probing, record })
            &&& record.pid is None && record.tap_name is Some ==> begun.1 == (
            StopActionView::CleanUpNetwork {
                spec: record.request.network,
                tap: record.tap_name->0,
            }) && begun.0 == (StoppingView { stage: StopStage::CleaningUp, record })
            &&& record.pid is None && record.tap_name is None ==> {
                &&& begun.1 matches StopActionView::Finish { record: kept }
                &&& kept == (VmRecordView { status: VmStatus::Stopped, pid: None, ..record })
                &&& begun.0.record == kept
            }
        }),
{
}

/// A machine that has stopped says so and has no process; the rest of its record
/// is what it was.
pub proof fn a_stopped_machine_keeps_the_rest(record: VmRecordView)
    ensures
        stopped(record).status == VmStatus::Stopped,
        stopped(record).pid is None,
        stopped(record) == (VmRecordView {
            status: stopped(record).status,
            pid: stopped(record).pid,
            ..record
        }),
{
}

/// The view of what to do shows it in full.
pub proof fn what_to_do_is_shown_in_full(a: StopAction)
    ensures
        match a {
            StopAction::Probe { pid } => a@ == (StopActionView::Probe { pid }),
            StopAction::Ask { call } => a@ == (StopActionView::Ask { call: call@ }),
            StopAction::WaitForExit { pid, polls } => a@ == (StopActionView::WaitForExit {
                pid,
                polls,
            }),
            StopAction::Terminate { pid } => a@ == (StopActionView::Terminate { pid }),
            StopAction::CleanUpNetwork { spec, tap } => a@ == (StopActionView::CleanUpNetwork {
                spec: spec@,
                tap: tap@,
            }),
            StopAction::Finish { record } => a@ == (StopActionView::Finish { record: record@ }),
            StopAction::GiveUp { pid } => a@ == (StopActionView::GiveUp { pid }),
        },
{
}

} // verus!
