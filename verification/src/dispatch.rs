//! The dispatcher: the single consumer of the notification channel. It
//! hands one spooled message at a time to the transfer command and turns
//! the command's outcome into the message's last transition.

use vstd::prelude::*;
use vstd::string::*;
use crate::names::{failed_path, failed_path_of, pending_path, pending_path_of, texts};
use crate::report::{failure_text, failure_text_of};
use crate::spool::{Spool, SpoolError, SpoolState};

verus! {

/// The transfer command's program: the configured override where there is
/// one, else `msmtp`.
pub open spec fn program_of(configured: Option<Seq<char>>) -> Seq<char> {
    match configured {
        Some(program) => program,
        None => "msmtp"@,
    }
}

/// The transfer command's arguments: the two fixed ones, which make it read
/// the recipients and the envelope sender from the message, then the
/// forwarded ones as they are.
pub open spec fn arguments_of(forwarded: Seq<Seq<char>>) -> Seq<Seq<char>> {
    seq!["--read-recipients"@, "--read-envelope-from"@] + forwarded
}

/// One invocation of the transfer command.
pub struct TransferCommand {
    /// The program to launch.
    pub program: String,
    /// Its arguments.
    pub arguments: Vec<String>,
    /// The path of the spool file whose bytes are its standard input.
    pub input: String,
}

/// The program to launch: `configured`, the value of the override, where
/// it is set, else the default `msmtp`.
pub fn sendmail_program(configured: Option<String>) -> (program: String)
    ensures
        program@ == program_of(
            match configured {
                Some(p) => Some(p@),
                None => None,
            },
        ),
{
    match configured {
        Some(program) => program,
        None => String::from_str("msmtp"),
    }
}

/// The invocation that delivers the pending message `name`: the program
/// chosen by `configured`, the fixed arguments followed by `forwarded`
/// unmodified, and the message's pending-area file as input.
pub fn transfer_command(configured: Option<String>, forwarded: &Vec<String>, name: &str) -> (command:
    TransferCommand)
    ensures
        command.program@ == program_of(
            match configured {
                Some(p) => Some(p@),
                None => None,
            },
        ),
        texts(command.arguments@) == arguments_of(texts(forwarded@)),
        command.input@ == pending_path_of(name@),
{
    let program = sendmail_program(configured);
    let mut arguments: Vec<String> = Vec::new();
    arguments.push(String::from_str("--read-recipients"));
    arguments.push(String::from_str("--read-envelope-from"));
    let mut i: usize = 0;
    while i < forwarded.len()
        invariant
            i <= forwarded@.len(),
            arguments@.len() == 2 + i,
            arguments@[0]@ == "--read-recipients"@,
            arguments@[1]@ == "--read-envelope-from"@,
            forall|k: int| 0 <= k < i ==> (#[trigger] arguments@[2 + k])@ == forwarded@[k]@,
        decreases forwarded@.len() - i,
    {
        arguments.push(forwarded[i].clone());
        i += 1;
    }
    proof {
        let got = texts(arguments@);
        let want = arguments_of(texts(forwarded@));
        assert(got.len() == want.len());
        assert forall|k: int| 0 <= k < got.len() implies got[k] == want[k] by {
            if k >= 2 {
                assert(arguments@[2 + (k - 2)]@ == forwarded@[k - 2]@);
            }
        }
        assert(got =~= want);
    }
    TransferCommand { program, arguments, input: pending_path(name) }
}

/// How an attempt to run the transfer command ended.
#[derive(Clone, Copy, Debug, PartialEq, Eq)]
pub enum Outcome {
    /// The command ran and exited with this status code.
    Exited(i32),
    /// The command ran and ended without a status code.
    Killed,
    /// The command did not run: the spool file could not be opened or the
    /// program could not be launched.
    NotStarted,
}

/// Why a delivery attempt failed.
#[derive(Clone, Copy, Debug, PartialEq, Eq)]
pub enum DeliveryError {
    /// The command ran and reported this code, `-1` where it had none.
    CommandFailed { code: i32 },
    /// The command did not run.
    NotStarted,
}

/// Delivery succeeds on one outcome only: the command exited with status
/// zero.
pub open spec fn succeeded(outcome: Outcome) -> bool {
    outcome == Outcome::Exited(0)
}

/// The verdict on an outcome.
pub open spec fn verdict_of(outcome: Outcome) -> Result<(), DeliveryError> {
    match outcome {
        Outcome::Exited(code) => if code == 0 {
            Ok(())
        } else {
            Err(DeliveryError::CommandFailed { code })
        },
        Outcome::Killed => Err(DeliveryError::CommandFailed { code: -1i32 }),
        Outcome::NotStarted => Err(DeliveryError::NotStarted),
    }
}

/// Judges an attempt: `Ok` exactly when the command exited with status
/// zero, else the failure with the code to report.
pub fn verdict(outcome: Outcome) -> (judged: Result<(), DeliveryError>)
    ensures
        judged == verdict_of(outcome),
        judged is Ok <==> succeeded(outcome),
{
    match outcome {
        Outcome::Exited(code) => {
            if code == 0 {
                Ok(())
            } else {
                Err(DeliveryError::CommandFailed { code })
            }
        },
        Outcome::Killed => Err(DeliveryError::CommandFailed { code: -1i32 }),
        Outcome::NotStarted => Err(DeliveryError::NotStarted),
    }
}

impl DeliveryError {
    /// The report of the failure for the log, where the library words it:
    /// `Command <program> failed with exit code <code>` for a command that
    /// ran. Of a command that did not run the system's own error is the
    /// report, so none is given here.
    pub fn report(&self, program: &str) -> (text: Option<String>)
        ensures
            match *self {
                DeliveryError::CommandFailed { code } => text is Some && text->0@ == failure_text_of(
                    program@,
                    code as int,
                ),
                DeliveryError::NotStarted => text is None,
            },
    {
        match self {
            DeliveryError::CommandFailed { code } => Some(failure_text(program, *code)),
            DeliveryError::NotStarted => None,
        }
    }
}

/// One step of a message's last transition, as it is carried out on the
/// spool.
#[derive(Clone, Copy, Debug, PartialEq, Eq, Structural)]
pub enum Step {
    /// Delete the pending-area file.
    Delete,
    /// Create the failed area where it is absent.
    CreateFailedArea,
    /// Move the pending-area file to the failed area.
    Move,
}

/// What the dispatcher does after a step failed.
#[derive(Clone, Copy, Debug, PartialEq, Eq, Structural)]
pub enum Course {
    /// The failure is logged and concerns this message only: the
    /// dispatcher goes on with the next.
    GoOn,
    /// The failure is passed on and ends the dispatcher: the spool can no
    /// longer keep what fails.
    Stop,
}

/// A file that cannot be deleted or moved is that message's loss alone. A
/// failed area that cannot be created threatens every later failure, so
/// it stops the dispatcher.
pub open spec fn course_of(failed: Step) -> Course {
    match failed {
        Step::Delete => Course::GoOn,
        Step::CreateFailedArea => Course::Stop,
        Step::Move => Course::GoOn,
    }
}

/// Decides how the dispatcher continues after the step `failed` failed.
pub fn after_failure(failed: Step) -> (course: Course)
    ensures
        course == course_of(failed),
{
    match failed {
        Step::Delete => Course::GoOn,
        Step::CreateFailedArea => Course::Stop,
        Step::Move => Course::GoOn,
    }
}

/// The last transition of a message: what becomes of its spool file once
/// its delivery attempt is over.
#[derive(Clone, Debug, PartialEq, Eq)]
pub enum SpoolAction {
    /// Delete the pending-area file of this name: the message is delivered.
    Remove { name: String },
    /// Move the pending-area file of this name to the failed area, which is
    /// created where it is absent: the message awaits an operator.
    Quarantine { name: String },
}

/// What a transition does, over texts.
pub enum Transition {
    Remove { name: Seq<char> },
    Quarantine { name: Seq<char> },
}

impl Transition {
    /// The spool after the transition.
    pub open spec fn effect(self, state: SpoolState) -> SpoolState {
        match self {
            Transition::Remove { name } => state.delivered(name),
            Transition::Quarantine { name } => state.quarantined(name),
        }
    }
}

/// The transition that ends the attempt on the message `name`: removal
/// after a success, quarantine after any failure.
pub open spec fn resolution_of(name: Seq<char>, outcome: Outcome) -> Transition {
    if succeeded(outcome) {
        Transition::Remove { name }
    } else {
        Transition::Quarantine { name }
    }
}

impl View for SpoolAction {
    type V = Transition;

    open spec fn view(&self) -> Transition {
        match self {
            SpoolAction::Remove { name } => Transition::Remove { name: name@ },
            SpoolAction::Quarantine { name } => Transition::Quarantine { name: name@ },
        }
    }
}

impl SpoolAction {
    /// The path of the file that the action takes away: the message's
    /// pending-area file.
    pub fn source(&self) -> (path: String)
        ensures
            path@ == pending_path_of(
                match self@ {
                    Transition::Remove { name } => name,
                    Transition::Quarantine { name } => name,
                },
            ),
    {
        match self {
            SpoolAction::Remove { name } => pending_path(name.as_str()),
            SpoolAction::Quarantine { name } => pending_path(name.as_str()),
        }
    }

    /// The path that a quarantined file is moved to, in the failed area
    /// under its own name; `None` for a removal.
    pub fn target(&self) -> (path: Option<String>)
        ensures
            match self@ {
                Transition::Remove { name } => path is None,
                Transition::Quarantine { name } => path is Some && path->0@ == failed_path_of(name),
            },
    {
        match self {
            SpoolAction::Remove { name } => None,
            SpoolAction::Quarantine { name } => Some(failed_path(name.as_str())),
        }
    }

    /// The steps that carry the action out, in their order: one deletion
    /// for a removal; for a quarantine the creation of the failed area,
    /// then the move.
    pub fn steps(&self) -> (steps: Vec<Step>)
        ensures
            steps@ == match self@ {
                Transition::Remove { name } => seq![Step::Delete],
                Transition::Quarantine { name } => seq![Step::CreateFailedArea, Step::Move],
            },
    {
        let mut steps: Vec<Step> = Vec::new();
        match self {
            SpoolAction::Remove { name } => {
                steps.push(Step::Delete);
            },
            SpoolAction::Quarantine { name } => {
                steps.push(Step::CreateFailedArea);
                steps.push(Step::Move);
            },
        }
        assert(steps@ =~= match self@ {
            Transition::Remove { name } => seq![Step::Delete],
            Transition::Quarantine { name } => seq![Step::CreateFailedArea, Step::Move],
        });
        steps
    }

    /// Carries the action out on `spool`. Fails with `Missing` exactly when
    /// the pending area holds no file of the action's name.
    pub fn apply(&self, spool: &mut Spool) -> (done: Result<(), SpoolError>)
        requires
            old(spool).wf(),
        ensures
            final(spool).wf(),
            final(spool)@ == self@.effect(old(spool)@),
            done is Ok <==> old(spool)@.pending.dom().contains(
                match self@ {
                    Transition::Remove { name } => name,
                    Transition::Quarantine { name } => name,
                },
            ),
            done is Err ==> done == Err::<(), SpoolError>(SpoolError::Missing),
    {
        match self {
            SpoolAction::Remove { name } => spool.mark_delivered(name.as_str()),
            SpoolAction::Quarantine { name } => spool.mark_failed(name.as_str()),
        }
    }
}

/// The transition that ends the attempt on the message `name`.
pub fn resolution(name: String, outcome: Outcome) -> (action: SpoolAction)
    ensures
        action@ == resolution_of(name@, outcome),
{
    match verdict(outcome) {
        Ok(()) => SpoolAction::Remove { name },
        Err(_) => SpoolAction::Quarantine { name },
    }
}

/// What the dispatcher knows: the notification channel's contents, the
/// message being delivered, and whether shutdown was requested.
pub struct DispatcherState {
    /// The names that wait for dispatch, the oldest first.
    pub queue: Seq<Seq<char>>,
    /// The name of the message whose delivery attempt is under way.
    pub in_flight: Option<Seq<char>>,
    /// Whether shutdown was requested.
    pub stopped: bool,
}

impl DispatcherState {
    /// An attempt may start: none is under way, a name waits, and shutdown
    /// was not requested.
    pub open spec fn can_start(self) -> bool {
        !self.stopped && self.in_flight is None && self.queue.len() > 0
    }

    /// The state after `name` was pushed onto the channel.
    pub open spec fn notified(self, name: Seq<char>) -> DispatcherState {
        DispatcherState { queue: self.queue.push(name), ..self }
    }

    /// The state after the oldest waiting name was pulled from the channel.
    pub open spec fn started(self) -> DispatcherState {
        DispatcherState {
            queue: self.queue.drop_first(),
            in_flight: Some(self.queue[0]),
            stopped: self.stopped,
        }
    }

    /// The state after the attempt under way was resolved.
    pub open spec fn finished(self) -> DispatcherState {
        DispatcherState { in_flight: None, ..self }
    }

    /// The state after shutdown was requested.
    pub open spec fn halted(self) -> DispatcherState {
        DispatcherState { stopped: true, ..self }
    }

    /// The dispatcher has nothing left to do: no attempt is under way, and
    /// either nothing waits or shutdown was requested.
    pub open spec fn at_rest(self) -> bool {
        self.in_flight is None && (self.stopped || self.queue.len() == 0)
    }
}

/// The dispatcher.
pub struct Dispatcher {
    queue: Vec<String>,
    in_flight: Option<String>,
    stopped: bool,
}

impl View for Dispatcher {
    type V = DispatcherState;

    closed spec fn view(&self) -> DispatcherState {
        DispatcherState {
            queue: texts(self.queue@),
            in_flight: match self.in_flight {
                Some(name) => Some(name@),
                None => None,
            },
            stopped: self.stopped,
        }
    }
}

impl Dispatcher {
    /// A dispatcher with an empty channel and nothing under way.
    pub fn new() -> (dispatcher: Dispatcher)
        ensures
            dispatcher@ == (DispatcherState {
                queue: Seq::<Seq<char>>::empty(),
                in_flight: None,
                stopped: false,
            }),
    {
        let dispatcher = Dispatcher { queue: Vec::new(), in_flight: None, stopped: false };
        assert(dispatcher@.queue =~= Seq::<Seq<char>>::empty());
        dispatcher
    }

    /// Pushes `name` onto the channel, behind all that wait there.
    pub fn notify(&mut self, name: String)
        ensures
            final(self)@ == old(self)@.notified(name@),
    {
        self.queue.push(name);
        assert(self@.queue =~= old(self)@.queue.push(name@));
    }

    /// Requests shutdown: no further attempt starts. An attempt under way
    /// may still be resolved.
    pub fn stop(&mut self)
        ensures
            final(self)@ == old(self)@.halted(),
    {
        self.stopped = true;
    }

    /// Pulls the oldest waiting name from the channel and puts it in
    /// flight, where an attempt may start; else changes nothing. An attempt
    /// starts only while none is under way, so at most one is ever in
    /// flight.
    pub fn start_next(&mut self) -> (name: Option<String>)
        ensures
            name is Some <==> old(self)@.can_start(),
            name is Some ==> name->0@ == old(self)@.queue[0],
            name is Some ==> final(self)@ == old(self)@.started(),
            name is None ==> final(self)@ == old(self)@,
    {
        if self.stopped || self.in_flight.is_some() || self.queue.len() == 0 {
            return None;
        }
        let name = self.queue.remove(0);
        let handed = name.clone();
        self.in_flight = Some(name);
        assert(self@.queue =~= old(self)@.queue.drop_first());
        Some(handed)
    }

    /// Resolves the attempt under way with `outcome` and returns the
    /// message's last transition: removal where the command exited with
    /// status zero, quarantine otherwise. With no attempt under way nothing
    /// changes and nothing is returned.
    pub fn finish(&mut self, outcome: Outcome) -> (action: Option<SpoolAction>)
        ensures
            final(self)@ == old(self)@.finished(),
            match old(self)@.in_flight {
                Some(name) => action is Some && action->0@ == resolution_of(name, outcome),
                None => action is None,
            },
    {
        let current = self.in_flight.take();
        match current {
            Some(name) => Some(resolution(name, outcome)),
            None => None,
        }
    }

    /// The number of names that wait on the channel.
    pub fn waiting(&self) -> (n: usize)
        ensures
            n == self@.queue.len(),
    {
        self.queue.len()
    }

    /// Whether an attempt is under way.
    pub fn busy(&self) -> (yes: bool)
        ensures
            yes == self@.in_flight is Some,
    {
        self.in_flight.is_some()
    }

    /// Whether the attempt under way is the one on the message `name`.
    pub fn is_in_flight(&self, name: &str) -> (yes: bool)
        ensures
            yes == (self@.in_flight == Some(name@)),
    {
        match &self.in_flight {
            Some(current) => *current == String::from_str(name),
            None => false,
        }
    }

    /// Whether shutdown was requested.
    pub fn is_stopped(&self) -> (yes: bool)
        ensures
            yes == self@.stopped,
    {
        self.stopped
    }

    /// Whether the dispatcher's loop may end: nothing is under way, and
    /// nothing waits or shutdown was requested.
    pub fn at_rest(&self) -> (yes: bool)
        ensures
            yes == self@.at_rest(),
    {
        self.in_flight.is_none() && (self.stopped || self.queue.len() == 0)
    }
}

} // verus!
