//! The build-probe pipeline as a state machine.
//!
//! A run is a linear sequence of stages, each depending on the previous
//! one's success; any failure terminates the run with a typed outcome. The
//! machine here makes every decision; the surrounding binary only performs
//! the action each state calls for (an asynchronous call into the container
//! runtime) and feeds the result back as an event. One state is visited per
//! event, and the removal action is issued from exactly the cleanup states,
//! so the phase lemmas at the bottom speak about the actions of a whole run.

use crate::channel::ExecResult;
use crate::config::CheckConfig;
use crate::enumerate::listed;
use crate::enumerate::parse_executables;
use crate::enumerate::strictly_sorted;
use crate::enumerate::views;
use crate::errors::CheckError;
use crate::plan::build_command;
use crate::plan::find_command;
use crate::plan::unzip_command;
use crate::plan::unzip_command_spec;
use vstd::prelude::*;

verus! {

/// The terminal result of one run: the sorted executable list, a typed stage
/// failure, or a host-side I/O failure while writing the export.
pub enum ProbeOutcome {
    Executables { list: Vec<String> },
    Failed { error: CheckError },
    ExportIoFailed { message: String },
}

/// The states of one run, in stage order. `Exporting` carries the list
/// already discovered and the destination it is to be written to;
/// `CleaningUp` carries the outcome to report once the container is removed.
pub enum ProbeState {
    PullingImage,
    CreatingContainer,
    StartingContainer,
    Unzipping,
    Building,
    Enumerating,
    Exporting { executables: Vec<String>, destination: String },
    CleaningUp { outcome: ProbeOutcome },
    Finished { outcome: ProbeOutcome },
}

/// What the runtime reported back for the pending action.
pub enum ProbeEvent {
    ImagePulled,
    ImagePullFailed,
    ContainerCreated,
    ContainerCreateFailed { output: String },
    ContainerStarted,
    ContainerStartFailed { output: String },
    CommandFinished { result: ExecResult },
    ExportWritten,
    ExportWriteFailed { message: String },
    TornDown,
}

/// The action the driver must perform next.
pub enum ProbeAction {
    PullImage { image: String },
    CreateContainer,
    StartContainer,
    RunCommand { command: String, working_dir: String },
    ExportWorkspace { directory: String, destination: String },
    RemoveContainer,
    Stop,
}

/// The event kinds each state's pending action can produce.
pub open spec fn event_fits(state: ProbeState, event: ProbeEvent) -> bool {
    match state {
        ProbeState::PullingImage => event is ImagePulled || event is ImagePullFailed,
        ProbeState::CreatingContainer => event is ContainerCreated
            || event is ContainerCreateFailed,
        ProbeState::StartingContainer => event is ContainerStarted
            || event is ContainerStartFailed,
        ProbeState::Unzipping => event is CommandFinished,
        ProbeState::Building => event is CommandFinished,
        ProbeState::Enumerating => event is CommandFinished,
        ProbeState::Exporting { .. } => event is ExportWritten || event is ExportWriteFailed,
        ProbeState::CleaningUp { .. } => event is TornDown,
        ProbeState::Finished { .. } => false,
    }
}

/// The lifecycle phase of a state, as far as the container resource is
/// concerned: no container exists yet, one is live, its removal is the
/// pending action, or the run is over.
pub enum Phase {
    NoContainer,
    Live,
    Removing,
    Over,
}

/// Which phase each state is in. A container exists from the moment creation
/// succeeded; the only path out of `Live` goes through `Removing`.
pub open spec fn phase_of(s: ProbeState) -> Phase {
    match s {
        ProbeState::PullingImage => Phase::NoContainer,
        ProbeState::CreatingContainer => Phase::NoContainer,
        ProbeState::StartingContainer => Phase::Live,
        ProbeState::Unzipping => Phase::Live,
        ProbeState::Building => Phase::Live,
        ProbeState::Enumerating => Phase::Live,
        ProbeState::Exporting { .. } => Phase::Live,
        ProbeState::CleaningUp { .. } => Phase::Removing,
        ProbeState::Finished { .. } => Phase::Over,
    }
}

/// The phase transitions a single fitting step allows: a live container can
/// never be abandoned (no edge from `Live` to `Over`), and a pending removal
/// completes immediately (the only edge from `Removing` is to `Over`).
pub open spec fn phase_ok(p: Phase, q: Phase) -> bool {
    match p {
        Phase::NoContainer => q == Phase::NoContainer || q == Phase::Live || q == Phase::Over,
        Phase::Live => q == Phase::Live || q == Phase::Removing,
        Phase::Removing => q == Phase::Over,
        Phase::Over => q == Phase::Over,
    }
}

/// The action pending in a state. The removal action is issued from exactly
/// the cleanup states, so counting cleanup states in a run counts its
/// teardowns.
pub fn probe_action(config: &CheckConfig, state: &ProbeState) -> (a: ProbeAction)
    ensures
        state is PullingImage ==> (a matches ProbeAction::PullImage { image } && image@
            == config.image@),
        state is CreatingContainer ==> a is CreateContainer,
        state is StartingContainer ==> a is StartContainer,
        state is Unzipping ==> (a matches ProbeAction::RunCommand { command, working_dir }
            && command@ == unzip_command_spec(config.zip_name@) && working_dir@
            == config.working_dir@),
        state is Building ==> (a matches ProbeAction::RunCommand { command, working_dir }
            && command@ == "timeout 30 make"@ && working_dir@ == config.working_dir@),
        state is Enumerating ==> (a matches ProbeAction::RunCommand { command, working_dir }
            && command@ == "timeout 10 find . -type f -perm /111"@ && working_dir@
            == config.working_dir@),
        state matches ProbeState::Exporting { executables, destination } ==> (a matches
            ProbeAction::ExportWorkspace { directory, destination: dest } && directory@
            == config.working_dir@ && dest@ == destination@),
        a is RemoveContainer <==> state is CleaningUp,
        state is Finished ==> a is Stop,
{
    match state {
        ProbeState::PullingImage => ProbeAction::PullImage { image: config.image.clone() },
        ProbeState::CreatingContainer => ProbeAction::CreateContainer,
        ProbeState::StartingContainer => ProbeAction::StartContainer,
        ProbeState::Unzipping => ProbeAction::RunCommand {
            command: unzip_command(config.zip_name.as_str()),
            working_dir: config.working_dir.clone(),
        },
        ProbeState::Building => ProbeAction::RunCommand {
            command: build_command(),
            working_dir: config.working_dir.clone(),
        },
        ProbeState::Enumerating => ProbeAction::RunCommand {
            command: find_command(),
            working_dir: config.working_dir.clone(),
        },
        ProbeState::Exporting { executables: _, destination } => ProbeAction::ExportWorkspace {
            directory: config.working_dir.clone(),
            destination: destination.clone(),
        },
        ProbeState::CleaningUp { .. } => ProbeAction::RemoveContainer,
        ProbeState::Finished { .. } => ProbeAction::Stop,
    }
}

/// One step of the pipeline: folds the event the driver reported into the
/// next state. Every stage transition is unconditional and forward-only;
/// a stage failure carries the diagnostic text into the typed outcome and
/// moves to cleanup (or, before any container exists, straight to the end).
pub fn probe_step(config: &CheckConfig, state: ProbeState, event: ProbeEvent) -> (r: ProbeState)
    ensures
        !event_fits(state, event) ==> r == state,
        event_fits(state, event) ==> phase_ok(phase_of(state), phase_of(r)),
        state is PullingImage && event is ImagePulled ==> r is CreatingContainer,
        state is PullingImage && event is ImagePullFailed ==> (r matches ProbeState::Finished {
            outcome: ProbeOutcome::Failed { error: CheckError::ImagePullError },
        }),
        state is CreatingContainer && event is ContainerCreated ==> r is StartingContainer,
        state is CreatingContainer ==> (event matches ProbeEvent::ContainerCreateFailed { output }
            ==> (r matches ProbeState::Finished {
            outcome: ProbeOutcome::Failed { error: CheckError::ContainerCreateError { output: o } },
        } && o == output)),
        state is StartingContainer && event is ContainerStarted ==> r is Unzipping,
        state is StartingContainer ==> (event matches ProbeEvent::ContainerStartFailed { output }
            ==> (r matches ProbeState::CleaningUp {
            outcome: ProbeOutcome::Failed { error: CheckError::ContainerStartError { output: o } },
        } && o == output)),
        state is Unzipping ==> (event matches ProbeEvent::CommandFinished {
            result: ExecResult::Success { .. },
        } ==> r is Building),
        state is Unzipping ==> (event matches ProbeEvent::CommandFinished {
            result: ExecResult::Failure { message },
        } ==> (r matches ProbeState::CleaningUp {
            outcome: ProbeOutcome::Failed { error: CheckError::UnzipError { output } },
        } && output == message)),
        state is Building ==> (event matches ProbeEvent::CommandFinished {
            result: ExecResult::Success { .. },
        } ==> r is Enumerating),
        state is Building ==> (event matches ProbeEvent::CommandFinished {
            result: ExecResult::Failure { message },
        } ==> (r matches ProbeState::CleaningUp {
            outcome: ProbeOutcome::Failed { error: CheckError::MakeError { output } },
        } && output == message)),
        state is Enumerating ==> (event matches ProbeEvent::CommandFinished {
            result: ExecResult::Success { output },
        } ==> (config.extract matches Some(dest) ==> (r matches ProbeState::Exporting {
            executables,
            destination,
        } && destination@ == dest@ && strictly_sorted(views(executables@)) && (forall|
            name: Seq<char>,
        |
            #[trigger] views(executables@).contains(name) <==> listed(output@, name))))),
        state is Enumerating ==> (event matches ProbeEvent::CommandFinished {
            result: ExecResult::Success { output },
        } ==> (config.extract is None ==> (r matches ProbeState::CleaningUp {
            outcome: ProbeOutcome::Executables { list },
        } && strictly_sorted(views(list@)) && (forall|name: Seq<char>|
            #[trigger] views(list@).contains(name) <==> listed(output@, name))))),
        state is Enumerating ==> (event matches ProbeEvent::CommandFinished {
            result: ExecResult::Failure { message },
        } ==> (r matches ProbeState::CleaningUp {
            outcome: ProbeOutcome::Failed { error: CheckError::FindError { output } },
        } && output == message)),
        event is ExportWritten ==> (state matches ProbeState::Exporting { executables, destination }
            ==> (r matches ProbeState::CleaningUp {
            outcome: ProbeOutcome::Executables { list },
        } && list == executables)),
        state is Exporting ==> (event matches ProbeEvent::ExportWriteFailed { message } ==> (
        r matches ProbeState::CleaningUp { outcome: ProbeOutcome::ExportIoFailed { message: m } }
            && m == message)),
        event is TornDown ==> (state matches ProbeState::CleaningUp { outcome } ==> (r matches
            ProbeState::Finished { outcome: o } && o == outcome)),
{
    match (state, event) {
        (ProbeState::PullingImage, ProbeEvent::ImagePulled) => ProbeState::CreatingContainer,
        (ProbeState::PullingImage, ProbeEvent::ImagePullFailed) => ProbeState::Finished {
            outcome: ProbeOutcome::Failed { error: CheckError::ImagePullError },
        },
        (ProbeState::CreatingContainer, ProbeEvent::ContainerCreated) => {
            ProbeState::StartingContainer
        },
        (
            ProbeState::CreatingContainer,
            ProbeEvent::ContainerCreateFailed { output },
        ) => ProbeState::Finished {
            outcome: ProbeOutcome::Failed { error: CheckError::ContainerCreateError { output } },
        },
        (ProbeState::StartingContainer, ProbeEvent::ContainerStarted) => ProbeState::Unzipping,
        (
            ProbeState::StartingContainer,
            ProbeEvent::ContainerStartFailed { output },
        ) => ProbeState::CleaningUp {
            outcome: ProbeOutcome::Failed { error: CheckError::ContainerStartError { output } },
        },
        (ProbeState::Unzipping, ProbeEvent::CommandFinished { result }) => match result {
            ExecResult::Success { .. } => ProbeState::Building,
            ExecResult::Failure { message } => ProbeState::CleaningUp {
                outcome: ProbeOutcome::Failed { error: CheckError::UnzipError { output: message } },
            },
        },
        (ProbeState::Building, ProbeEvent::CommandFinished { result }) => match result {
            ExecResult::Success { .. } => ProbeState::Enumerating,
            ExecResult::Failure { message } => ProbeState::CleaningUp {
                outcome: ProbeOutcome::Failed { error: CheckError::MakeError { output: message } },
            },
        },
        (ProbeState::Enumerating, ProbeEvent::CommandFinished { result }) => match result {
            ExecResult::Success { output } => {
                let list = parse_executables(output.as_str());
                match &config.extract {
                    Some(dest) => ProbeState::Exporting {
                        executables: list,
                        destination: dest.clone(),
                    },
                    None => ProbeState::CleaningUp {
                        outcome: ProbeOutcome::Executables { list },
                    },
                }
            },
            ExecResult::Failure { message } => ProbeState::CleaningUp {
                outcome: ProbeOutcome::Failed { error: CheckError::FindError { output: message } },
            },
        },
        (
            ProbeState::Exporting { executables, destination: _ },
            ProbeEvent::ExportWritten,
        ) => ProbeState::CleaningUp { outcome: ProbeOutcome::Executables { list: executables } },
        (
            ProbeState::Exporting { executables: _, destination: _ },
            ProbeEvent::ExportWriteFailed { message },
        ) => ProbeState::CleaningUp { outcome: ProbeOutcome::ExportIoFailed { message } },
        (ProbeState::CleaningUp { outcome }, ProbeEvent::TornDown) => ProbeState::Finished {
            outcome,
        },
        (s, _) => s,
    }
}

/// Every consecutive pair of phases in the sequence is one the machine's
/// steps allow.
pub open spec fn phase_chain(ps: Seq<Phase>) -> bool {
    forall|i: int| 0 <= i < ps.len() - 1 ==> phase_ok(#[trigger] ps[i], ps[i + 1])
}

/// How many of the visited states carry the removal action: the number of
/// cleanup states in the run.
pub open spec fn removals(ps: Seq<Phase>) -> nat
    decreases ps.len(),
{
    if ps.len() == 0 {
        0
    } else if ps[0] == Phase::Removing {
        1 + removals(ps.drop_first())
    } else {
        removals(ps.drop_first())
    }
}

proof fn lemma_over_stays(ps: Seq<Phase>)
    requires
        phase_chain(ps),
        ps.len() > 0,
        ps[0] == Phase::Over,
    ensures
        forall|i: int| 0 <= i < ps.len() ==> ps[i] == Phase::Over,
        removals(ps) == 0,
    decreases ps.len(),
{
    let tail = ps.drop_first();
    if ps.len() > 1 {
        assert forall|i: int| 0 <= i < tail.len() - 1 implies phase_ok(
            #[trigger] tail[i],
            tail[i + 1],
        ) by {
            assert(tail[i] == ps[i + 1]);
            assert(tail[i + 1] == ps[i + 2]);
        }
        assert(phase_ok(ps[0], ps[1]));
        assert(tail[0] == ps[1]);
        lemma_over_stays(tail);
        assert forall|i: int| 0 <= i < ps.len() implies ps[i] == Phase::Over by {
            if i > 0 {
                assert(tail[i - 1] == ps[i]);
            }
        }
        assert(removals(ps) == removals(tail));
    } else {
        assert(tail.len() == 0);
        assert(removals(tail) == 0);
        assert(removals(ps) == removals(tail));
    }
}

proof fn lemma_run_removals(ps: Seq<Phase>)
    requires
        phase_chain(ps),
        ps.len() > 0,
        ps[ps.len() - 1] == Phase::Over,
    ensures
        removals(ps) == if ps[0] == Phase::Removing || (exists|i: int|
            0 <= i < ps.len() && ps[i] == Phase::Live) {
            1nat
        } else {
            0nat
        },
    decreases ps.len(),
{
    if ps.len() == 1 {
        assert(ps[0] == Phase::Over);
        assert(forall|i: int| 0 <= i < ps.len() ==> ps[i] != Phase::Live);
        assert(ps.drop_first().len() == 0);
        assert(removals(ps.drop_first()) == 0);
        assert(removals(ps) == 0);
    } else {
        let tail = ps.drop_first();
        assert forall|i: int| 0 <= i < tail.len() - 1 implies phase_ok(
            #[trigger] tail[i],
            tail[i + 1],
        ) by {
            assert(tail[i] == ps[i + 1]);
            assert(tail[i + 1] == ps[i + 2]);
        }
        assert(tail[tail.len() - 1] == ps[ps.len() - 1]);
        assert(phase_ok(ps[0], ps[1]));
        assert(tail[0] == ps[1]);
        if ps[0] == Phase::Over {
            lemma_over_stays(ps);
            assert(forall|i: int| 0 <= i < ps.len() ==> ps[i] != Phase::Live);
        } else if ps[0] == Phase::Removing {
            assert(ps[1] == Phase::Over);
            lemma_over_stays(tail);
            assert(removals(ps) == 1);
        } else if ps[0] == Phase::Live {
            lemma_run_removals(tail);
            assert(tail[0] == Phase::Live || tail[0] == Phase::Removing);
            if tail[0] == Phase::Live {
                assert(exists|i: int| 0 <= i < tail.len() && tail[i] == Phase::Live);
            }
            assert(removals(tail) == 1);
            assert(exists|i: int| 0 <= i < ps.len() && ps[i] == Phase::Live);
        } else {
            lemma_run_removals(tail);
            assert(tail[0] != Phase::Removing);
            assert forall|i: int|
                0 <= i < ps.len() && ps[i] == Phase::Live implies (exists|k: int|
                0 <= k < tail.len() && tail[k] == Phase::Live) by {
                assert(i > 0);
                assert(tail[i - 1] == ps[i]);
            }
            assert forall|i: int|
                0 <= i < tail.len() && tail[i] == Phase::Live implies (exists|k: int|
                0 <= k < ps.len() && ps[k] == Phase::Live) by {
                assert(ps[i + 1] == tail[i]);
            }
        }
    }
}

/// Teardown happens exactly once per run, whatever stage ended it: along any
/// chain of phases the machine's steps allow, from before anything is
/// provisioned to the run being over, the removal action is issued exactly
/// once if a container ever went live — including when provisioning itself
/// failed between creation and start — and never if the run ended before a
/// container existed.
pub proof fn lemma_teardown_exactly_once(ps: Seq<Phase>)
    requires
        phase_chain(ps),
        ps.len() > 0,
        ps[0] == Phase::NoContainer,
        ps[ps.len() - 1] == Phase::Over,
    ensures
        (exists|i: int| 0 <= i < ps.len() && #[trigger] ps[i] == Phase::Live) ==> removals(ps)
            == 1,
        (forall|i: int| 0 <= i < ps.len() ==> #[trigger] ps[i] != Phase::Live) ==> removals(ps)
            == 0,
{
    lemma_run_removals(ps);
}

} // verus!
