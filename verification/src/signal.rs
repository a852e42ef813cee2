//! Process signals.
use vstd::prelude::*;
use crate::event::{Command, Event};

verus! {

/// The number of a process signal.
#[derive(Clone, Copy, Debug, PartialEq, Eq, Structural)]
pub struct Signal(pub i32);

impl Signal {
    pub const HUP: i32 = 1;

    pub const INT: i32 = 2;

    pub const QUIT: i32 = 3;

    pub const ILL: i32 = 4;

    pub const TRAP: i32 = 5;

    pub const ABRT: i32 = 6;

    pub const IOT: i32 = 6;

    pub const BUS: i32 = 7;

    pub const FPE: i32 = 8;

    pub const KILL: i32 = 9;

    pub const USR1: i32 = 10;

    pub const SEGV: i32 = 11;

    pub const USR2: i32 = 12;

    pub const PIPE: i32 = 13;

    pub const ALRM: i32 = 14;

    pub const TERM: i32 = 15;

    pub const STKFLT: i32 = 16;

    pub const CHLD: i32 = 17;

    pub const CONT: i32 = 18;

    pub const STOP: i32 = 19;

    pub const TSTP: i32 = 20;

    pub const TTIN: i32 = 21;

    pub const TTOU: i32 = 22;

    pub const URG: i32 = 23;

    pub const XCPU: i32 = 24;

    pub const XFSZ: i32 = 25;

    pub const VTALRM: i32 = 26;

    pub const PROF: i32 = 27;

    pub const WINCH: i32 = 28;

    pub const IO: i32 = 29;

    pub const POLL: i32 = 29;

    pub const PWR: i32 = 30;

    pub const SYS: i32 = 31;
}

/// What has to be done next for a signal source to be added.
#[derive(Clone, Copy, Debug, PartialEq, Eq, Structural)]
pub enum SignalStep {
    /// The signal is to be blocked, so that the event loop gets it.
    Block(i32),
    /// The event loop is to be told.
    Register(Command),
}

/// Prepares a signal for the event loop: it must be blocked. The steps can only be taken one after
/// the other.
#[derive(Debug, PartialEq, Eq)]
pub struct SignalSetup {
    signal: Signal,
    handled: bool,
    step: SignalStep,
}

/// A [`SignalSetup`] as plain values.
#[verifier::ext_equal]
pub struct SignalSetupView {
    pub signal: Signal,
    pub handled: bool,
    pub step: SignalStep,
}

impl View for SignalSetup {
    type V = SignalSetupView;

    closed spec fn view(&self) -> SignalSetupView {
        SignalSetupView { signal: self.signal, handled: self.handled, step: self.step }
    }
}

impl SignalSetupView {
    /// A setup of which no step was taken.
    pub open spec fn start(signal: Signal, handled: bool) -> SignalSetupView {
        SignalSetupView { signal, handled, step: SignalStep::Block(signal.0) }
    }

    /// The setup at its last step.
    pub open spec fn prepared(self) -> SignalSetupView {
        SignalSetupView {
            step: SignalStep::Register(
                Command::AddSignal { signal: self.signal.0, handled: self.handled },
            ),
            ..self
        }
    }

    /// The setup after a step came back with `res`.
    pub open spec fn next(self, res: i32) -> Result<SignalSetupView, Seq<char>> {
        match self.step {
            SignalStep::Block(_) => if res < 0 {
                Err("Could not block signal."@)
            } else {
                Ok(self.prepared())
            },
            SignalStep::Register(_) => Ok(self),
        }
    }

    /// Whether the event loop is to be asked for the given signal, with or without a handler.
    pub open spec fn is_ready(self, signal: Signal, handled: bool) -> bool {
        &&& self.signal == signal
        &&& self.handled == handled
        &&& self == self.prepared()
    }

    /// The signals that the process blocks after a step came back with `res`, where it blocked `mask`
    /// before. To block a signal adds it to those that are blocked already; there are two that
    /// cannot be blocked, and to try that changes nothing. Neither does a step that fails, nor one
    /// in which nothing is to be blocked.
    pub open spec fn blocked(self, mask: Set<i32>, res: i32) -> Set<i32> {
        match self.step {
            SignalStep::Block(signal) => if res < 0 || signal == Signal::KILL || signal
                == Signal::STOP {
                mask
            } else {
                mask.insert(signal)
            },
            SignalStep::Register(_) => mask,
        }
    }
}

impl SignalSetup {
    pub fn new(signal: Signal, handled: bool) -> (r: SignalSetup)
        ensures
            r@ == SignalSetupView::start(signal, handled),
    {
        SignalSetup { signal, handled, step: SignalStep::Block(signal.0) }
    }

    fn request(&self) -> (r: Command)
        ensures
            r == (Command::AddSignal { signal: self@.signal.0, handled: self@.handled }),
    {
        if self.handled {
            Event::signal_request(self.signal)
        } else {
            Event::signal_default_request(self.signal)
        }
    }

    /// Takes what came back from a step. A failure is answered with a complaint.
    pub fn advance(&mut self, res: i32) -> (r: Result<(), &'static str>)
        ensures
            match old(self)@.next(res) {
                Ok(setup) => r is Ok && final(self)@ == setup,
                Err(complaint) => {
                    &&& r matches Err(message) && message@ == complaint
                    &&& *final(self) == *old(self)
                },
            },
    {
        match self.step {
            SignalStep::Block(_) => {
                if res < 0 {
                    return Err("Could not block signal.");
                }
                self.step = SignalStep::Register(self.request());
            },
            SignalStep::Register(_) => {},
        }
        Ok(())
    }

    /// What has to be done next.
    pub fn step(&self) -> (r: SignalStep)
        ensures
            r == self@.step,
    {
        self.step
    }

    pub fn ready(&self, signal: Signal, handled: bool) -> (r: bool)
        ensures
            r == self@.is_ready(signal, handled),
    {
        self.signal == signal && self.handled == handled && self.step == SignalStep::Register(
            self.request(),
        )
    }
}

/// The event loop is asked for a signal only after the signal was blocked, and then once: with the
/// signal and with whether there is a handler. A signal that cannot be blocked is never asked for.
pub proof fn law_registered_signals_are_blocked(signal: Signal, handled: bool, res: i32)
    ensures
        ({
            let first = SignalSetupView::start(signal, handled);
            &&& !first.is_ready(signal, handled)
            &&& first.next(res) is Ok <==> res >= 0
            &&& first.next(res) matches Ok(setup) ==> setup.is_ready(signal, handled)
                && setup.step == SignalStep::Register(
                Command::AddSignal { signal: signal.0, handled },
            )
        }),
{
}

/// Blocking a signal fails exactly when the answer is negative, with a complaint. Otherwise the process
/// blocks the signal besides those that it blocked before, none of which gets through again; to
/// block the signal once more changes nothing, and neither does what the event loop answers later.
pub proof fn law_blocking_adds_the_signal(
    signal: Signal,
    handled: bool,
    mask: Set<i32>,
    res: i32,
    later: i32,
)
    requires
        signal.0 != Signal::KILL,
        signal.0 != Signal::STOP,
    ensures
        ({
            let first = SignalSetupView::start(signal, handled);
            let after = first.blocked(mask, res);
            &&& first.next(res) is Err <==> res < 0
            &&& first.next(res) matches Err(complaint) ==> complaint == "Could not block signal."@
            &&& res < 0 ==> after == mask
            &&& res >= 0 ==> after == mask.insert(signal.0) && after.contains(signal.0)
            &&& mask.subset_of(after)
            &&& res >= 0 ==> first.blocked(after, later) == after
            &&& first.next(res) matches Ok(setup) ==> setup.blocked(after, later) == after
        }),
{
    let first = SignalSetupView::start(signal, handled);
    let after = first.blocked(mask, res);
    assert(after.insert(signal.0) =~= after || res < 0);
}

/// The two signals that cannot be blocked leave those that are blocked as they are.
pub proof fn law_some_signals_cannot_be_blocked(
    signal: Signal,
    handled: bool,
    mask: Set<i32>,
    res: i32,
)
    requires
        signal.0 == Signal::KILL || signal.0 == Signal::STOP,
    ensures
        SignalSetupView::start(signal, handled).blocked(mask, res) == mask,
{
}

/// A signal is ready exactly when all that is left is to ask the event loop for it.
pub proof fn law_ready_means_registering(setup: SignalSetupView, signal: Signal, handled: bool)
    ensures
        setup.is_ready(signal, handled) <==> setup.signal == signal && setup.handled == handled
            && setup.step == SignalStep::Register(
            Command::AddSignal { signal: signal.0, handled },
        ),
        setup.step is Register ==> forall|res: i32| #[trigger]
            setup.next(res) == Ok::<SignalSetupView, Seq<char>>(setup),
{
}

/// A setup starts by blocking its signal, and every call of [`SignalSetup::advance`] asks the event loop for
/// that signal once it is blocked, and complains where it cannot be.
pub proof fn law_advance()
    ensures
        forall|signal: Signal, handled: bool, r: SignalSetup| #[trigger]
            call_ensures(SignalSetup::new, (signal, handled), r) ==> {
                &&& r@.signal == signal
                &&& r@.handled == handled
                &&& r@.step == SignalStep::Block(signal.0)
            },
        forall|s: &mut SignalSetup, res: i32, r: Result<(), &'static str>| #[trigger]
            call_ensures(SignalSetup::advance, (s, res), r) ==> {
                let (before, after) = ((*s)@, (*final(s))@);
                &&& after.signal == before.signal
                &&& after.handled == before.handled
                &&& match before.step {
                    SignalStep::Block(_) => if res < 0 {
                        &&& r matches Err(message) && message@ == "Could not block signal."@
                        &&& after.step == before.step
                    } else {
                        &&& r is Ok
                        &&& after.step == SignalStep::Register(
                            Command::AddSignal {
                                signal: before.signal.0,
                                handled: before.handled,
                            },
                        )
                    },
                    SignalStep::Register(_) => r is Ok && after.step == before.step,
                }
            },
{
}

} // verus!
