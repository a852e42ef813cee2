//! File descriptors that do not block.
use vstd::prelude::*;
use crate::event::{Command, Event};
use crate::events::Events;

verus! {

/// Reads of a file descriptor fail where they would wait.
pub const O_NONBLOCK: i32 = 0x800;

/// Why a file descriptor cannot be made to block, or not to.
#[derive(Clone, Copy, Debug, PartialEq, Eq, Structural)]
pub enum NonblockError {
    /// The file descriptor is negative.
    BadDescriptor,
    /// The flags of the file descriptor are not known.
    NoFlags,
}

/// The flags of a file descriptor after it was made not to block, or to.
pub open spec fn nonblock_flags(flags: i32, nonblock: bool) -> i32 {
    if nonblock {
        flags | O_NONBLOCK
    } else {
        flags ^ O_NONBLOCK
    }
}

/// The flags that have to be set on a file descriptor to make it not block, or to; `None` where
/// it has them already. `flags` is what was found when they were read.
pub fn fd_nonblock(fd: i32, flags: i32, nonblock: bool) -> (r: Result<Option<i32>, NonblockError>)
    ensures
        r == if fd < 0 {
            Err(NonblockError::BadDescriptor)
        } else if flags < 0 {
            Err(NonblockError::NoFlags)
        } else if nonblock_flags(flags, nonblock) == flags {
            Ok(None)
        } else {
            Ok(Some(nonblock_flags(flags, nonblock)))
        },
{
    if fd < 0 {
        return Err(NonblockError::BadDescriptor);
    }
    if flags < 0 {
        return Err(NonblockError::NoFlags);
    }
    let nflags = if nonblock {
        flags | O_NONBLOCK
    } else {
        flags ^ O_NONBLOCK
    };
    if nflags == flags {
        return Ok(None);
    }
    Ok(Some(nflags))
}

impl NonblockError {
    pub open spec fn text(self) -> Seq<char> {
        match self {
            NonblockError::BadDescriptor => "assertion failed: fd >= 0"@,
            NonblockError::NoFlags => "Could not retrieve flag from file descriptor."@,
        }
    }

    pub fn message(self) -> (r: &'static str)
        ensures
            r@ == self.text(),
    {
        match self {
            NonblockError::BadDescriptor => "assertion failed: fd >= 0",
            NonblockError::NoFlags => "Could not retrieve flag from file descriptor.",
        }
    }
}

/// What has to be done next for an I/O source to be added.
#[derive(Clone, Copy, Debug, PartialEq, Eq, Structural)]
pub enum IoStep {
    /// The flags of the file descriptor are to be read.
    ReadFlags,
    /// The flags of the file descriptor are to be set.
    WriteFlags(i32),
    /// The event loop is to be told.
    Register(Command),
}

/// Prepares a file descriptor for the event loop: it must not block. The steps can only be taken one
/// after the other.
#[derive(Debug, PartialEq, Eq)]
pub struct IoSetup {
    fd: i32,
    events: Events,
    step: IoStep,
}

/// An [`IoSetup`] as plain values.
#[verifier::ext_equal]
pub struct IoSetupView {
    pub fd: i32,
    pub events: Events,
    pub step: IoStep,
}

impl View for IoSetup {
    type V = IoSetupView;

    closed spec fn view(&self) -> IoSetupView {
        IoSetupView { fd: self.fd, events: self.events, step: self.step }
    }
}

impl IoSetupView {
    /// A setup of which no step was taken.
    pub open spec fn start(fd: i32, events: Events) -> IoSetupView {
        IoSetupView { fd, events, step: IoStep::ReadFlags }
    }

    /// The setup at its last step.
    pub open spec fn prepared(self) -> IoSetupView {
        IoSetupView {
            step: IoStep::Register(Command::AddIo { fd: self.fd, events: self.events.0 }),
            ..self
        }
    }

    /// The setup after a step came back with `res`.
    pub open spec fn next(self, res: i32) -> Result<IoSetupView, Seq<char>> {
        match self.step {
            IoStep::ReadFlags => if self.fd < 0 {
                Err(NonblockError::BadDescriptor.text())
            } else if res < 0 {
                Err(NonblockError::NoFlags.text())
            } else if nonblock_flags(res, true) == res {
                Ok(self.prepared())
            } else {
                Ok(IoSetupView { step: IoStep::WriteFlags(nonblock_flags(res, true)), ..self })
            },
            IoStep::WriteFlags(_) => if res < 0 {
                Err("Could not set the file descriptor to nonblocking."@)
            } else {
                Ok(self.prepared())
            },
            IoStep::Register(_) => Ok(self),
        }
    }

    /// Whether the event loop is to be asked for the given file descriptor and events.
    pub open spec fn is_ready(self, fd: i32, events: Events) -> bool {
        &&& self.fd == fd
        &&& self.events == events
        &&& fd >= 0
        &&& self == self.prepared()
    }
}

impl IoSetup {
    /// Starts with a file descriptor, before its flags are read. A negative one is answered with a
    /// complaint.
    pub fn new(fd: i32, events: Events) -> (r: Result<IoSetup, &'static str>)
        ensures
            match r {
                Ok(setup) => fd >= 0 && setup@ == IoSetupView::start(fd, events),
                Err(message) => fd < 0 && message@ == NonblockError::BadDescriptor.text(),
            },
    {
        if fd < 0 {
            return Err(NonblockError::BadDescriptor.message());
        }
        Ok(IoSetup { fd, events, step: IoStep::ReadFlags })
    }

    /// What has to be done next.
    pub fn step(&self) -> (r: IoStep)
        ensures
            r == self@.step,
    {
        self.step
    }

    pub fn ready(&self, fd: i32, events: Events) -> (r: bool)
        ensures
            r == self@.is_ready(fd, events),
    {
        self.fd == fd && self.events == events && fd >= 0 && self.step == IoStep::Register(
            Event::io_request(self.fd, self.events),
        )
    }

    /// Takes what came back from a step: the flags, or whether they could be set. A failure is
    /// answered with a complaint.
    pub fn advance(&mut self, res: i32) -> (r: Result<(), &'static str>)
        ensures
            match old(self)@.next(res) {
                Ok(setup) => r is Ok && final(self)@ == setup,
                Err(complaint) => {
                    &&& r matches Err(message) && message@ == complaint
                    &&& *final(self) == *old(self)
                },
            },
    {
        match self.step {
            IoStep::ReadFlags => match fd_nonblock(self.fd, res, true) {
                Err(e) => {
                    return Err(e.message());
                },
                Ok(Some(flags)) => {
                    self.step = IoStep::WriteFlags(flags);
                },
                Ok(None) => {
                    self.step = IoStep::Register(Event::io_request(self.fd, self.events));
                },
            },
            IoStep::WriteFlags(_) => {
                if res < 0 {
                    return Err("Could not set the file descriptor to nonblocking.");
                }
                self.step = IoStep::Register(Event::io_request(self.fd, self.events));
            },
            IoStep::Register(_) => {},
        }
        Ok(())
    }
}

/// A file descriptor that does not block needs no change to make it not block.
pub proof fn law_nonblock_is_idempotent(flags: i32)
    ensures
        nonblock_flags(nonblock_flags(flags, true), true) == nonblock_flags(flags, true),
        nonblock_flags(flags, true) & O_NONBLOCK == O_NONBLOCK,
{
    assert((flags | 0x800i32) | 0x800i32 == flags | 0x800i32) by (bit_vector);
    assert((flags | 0x800i32) & 0x800i32 == 0x800i32) by (bit_vector);
}

/// Making a blocking file descriptor not block, and then block, gives its flags back.
pub proof fn law_block_undoes_nonblock(flags: i32)
    requires
        flags & O_NONBLOCK == 0,
    ensures
        nonblock_flags(nonblock_flags(flags, true), false) == flags,
{
    assert(flags & 0x800i32 == 0 ==> (flags | 0x800i32) ^ 0x800i32 == flags) by (bit_vector);
}

/// The event loop is told of a file descriptor only when the file descriptor does not block: the
/// flags that were read say so, or flags that say so were set.
pub proof fn law_registered_descriptors_do_not_block(fd: i32, events: Events, flags: i32, set: i32)
    ensures
        ({
            let first = IoSetupView::start(fd, events);
            let read = first.next(flags);
            &&& !first.is_ready(fd, events)
            &&& read is Ok <==> fd >= 0 && flags >= 0
            &&& read matches Ok(setup) ==> match setup.step {
                IoStep::ReadFlags => false,
                IoStep::WriteFlags(new) => {
                    &&& new & O_NONBLOCK == O_NONBLOCK
                    &&& !setup.is_ready(fd, events)
                    &&& setup.next(set) is Ok <==> set >= 0
                    &&& setup.next(set) matches Ok(done) ==> done.is_ready(fd, events)
                        && done.step == IoStep::Register(Command::AddIo { fd, events: events.0 })
                },
                IoStep::Register(command) => {
                    &&& flags & O_NONBLOCK == O_NONBLOCK
                    &&& setup.is_ready(fd, events)
                    &&& command == (Command::AddIo { fd, events: events.0 })
                },
            }
        }),
{
    law_nonblock_is_idempotent(flags);
}

/// Whether a file descriptor blocks is changed and none of its other flags: it is made not to block,
/// or else what it did before is turned round.
pub proof fn law_other_flags_stay(flags: i32, nonblock: bool)
    ensures
        nonblock_flags(flags, nonblock) & !O_NONBLOCK == flags & !O_NONBLOCK,
        nonblock ==> nonblock_flags(flags, nonblock) & O_NONBLOCK != 0,
        !nonblock ==> (nonblock_flags(flags, nonblock) & O_NONBLOCK != 0 <==> flags & O_NONBLOCK
            == 0),
{
    assert((flags | 0x800i32) & !0x800i32 == flags & !0x800i32) by (bit_vector);
    assert((flags ^ 0x800i32) & !0x800i32 == flags & !0x800i32) by (bit_vector);
    assert((flags | 0x800i32) & 0x800i32 != 0) by (bit_vector);
    assert((flags ^ 0x800i32) & 0x800i32 != 0 <==> flags & 0x800i32 == 0) by (bit_vector);
}

/// A file descriptor is ready exactly when all that is left is to ask the event loop for it, with its
/// own events.
pub proof fn law_ready_means_registering(setup: IoSetupView, fd: i32, events: Events)
    ensures
        setup.is_ready(fd, events) <==> fd >= 0 && setup.fd == fd && setup.events == events
            && setup.step == IoStep::Register(Command::AddIo { fd, events: events.0 }),
{
}

/// Each step that fails is answered with the complaint of that step, and the file descriptor and its
/// events stay the same throughout.
pub proof fn law_preparation_fails_loudly(setup: IoSetupView, res: i32)
    requires
        setup.fd >= 0,
    ensures
        match setup.step {
            IoStep::ReadFlags => setup.next(res) is Err <==> res < 0,
            IoStep::WriteFlags(_) => setup.next(res) is Err <==> res < 0,
            IoStep::Register(_) => setup.next(res) == Ok::<IoSetupView, Seq<char>>(setup),
        },
        setup.next(res) matches Err(complaint) ==> complaint == if setup.step == IoStep::ReadFlags {
            "Could not retrieve flag from file descriptor."@
        } else {
            "Could not set the file descriptor to nonblocking."@
        },
        setup.next(res) matches Ok(next) ==> next.fd == setup.fd && next.events == setup.events,
        setup.step == IoStep::ReadFlags && res >= 0 ==> (setup.next(res) matches Ok(next)
            && if res & O_NONBLOCK == 0 {
            next.step matches IoStep::WriteFlags(flags) && flags & O_NONBLOCK != 0 && flags
                & !O_NONBLOCK == res & !O_NONBLOCK
        } else {
            next.is_ready(setup.fd, setup.events)
        }),
        setup.step is WriteFlags && res >= 0 ==> (setup.next(res) matches Ok(next)
            && next.is_ready(setup.fd, setup.events)),
{
    law_other_flags_stay(res, true);
    assert(res & 0x800i32 != 0 <==> res | 0x800i32 == res) by (bit_vector);
}

/// What is said of a file descriptor that cannot be made to block, or not to.
pub proof fn law_bad_descriptors_are_named()
    ensures
        NonblockError::BadDescriptor.text() == "assertion failed: fd >= 0"@,
        NonblockError::NoFlags.text() == "Could not retrieve flag from file descriptor."@,
{
}

/// Every call of [`fd_nonblock`] gives flags to be set that differ from those that were found in whether
/// the file descriptor blocks, and in nothing else; or none where it does not block and is not to.
pub proof fn law_fd_nonblock()
    ensures
        forall|fd: i32, flags: i32, nonblock: bool, r: Result<Option<i32>, NonblockError>|
            #[trigger]
            call_ensures(fd_nonblock, (fd, flags, nonblock), r) ==> match r {
                Ok(Some(new)) => {
                    &&& fd >= 0 && flags >= 0
                    &&& new & !O_NONBLOCK == flags & !O_NONBLOCK
                    &&& (new & O_NONBLOCK == 0) != (flags & O_NONBLOCK == 0)
                    &&& nonblock ==> new & O_NONBLOCK != 0
                },
                Ok(None) => fd >= 0 && flags >= 0 && nonblock && flags & O_NONBLOCK != 0,
                Err(NonblockError::BadDescriptor) => fd < 0,
                Err(NonblockError::NoFlags) => fd >= 0 && flags < 0,
            },
{
    assert forall|fd: i32, flags: i32, nonblock: bool, r: Result<Option<i32>, NonblockError>|
        #[trigger]
        call_ensures(fd_nonblock, (fd, flags, nonblock), r) implies match r {
        Ok(Some(new)) => {
            &&& fd >= 0 && flags >= 0
            &&& new & !O_NONBLOCK == flags & !O_NONBLOCK
            &&& (new & O_NONBLOCK == 0) != (flags & O_NONBLOCK == 0)
            &&& nonblock ==> new & O_NONBLOCK != 0
        },
        Ok(None) => fd >= 0 && flags >= 0 && nonblock && flags & O_NONBLOCK != 0,
        Err(NonblockError::BadDescriptor) => fd < 0,
        Err(NonblockError::NoFlags) => fd >= 0 && flags < 0,
    } by {
        law_other_flags_stay(flags, nonblock);
        assert(flags & 0x800i32 != 0 <==> flags | 0x800i32 == flags) by (bit_vector);
        assert(flags ^ 0x800i32 != flags) by (bit_vector);
    }
}

/// A setup starts by reading the flags of a file descriptor that is not negative, and every call of
/// [`IoSetup::advance`] leaves its file descriptor and events alone and fails exactly when the step did.
pub proof fn law_advance()
    ensures
        forall|fd: i32, events: Events, r: Result<IoSetup, &'static str>| #[trigger]
            call_ensures(IoSetup::new, (fd, events), r) ==> match r {
                Ok(setup) => {
                    &&& fd >= 0
                    &&& setup@.fd == fd
                    &&& setup@.events == events
                    &&& setup@.step == IoStep::ReadFlags
                },
                Err(message) => fd < 0 && message@ == "assertion failed: fd >= 0"@,
            },
        forall|s: &mut IoSetup, res: i32, r: Result<(), &'static str>| #[trigger]
            call_ensures(IoSetup::advance, (s, res), r) && (*s)@.fd >= 0 ==> {
                let (before, after) = ((*s)@, (*final(s))@);
                &&& after.fd == before.fd
                &&& after.events == before.events
                &&& r is Err <==> res < 0 && !(before.step is Register)
                &&& r is Err ==> after.step == before.step
                &&& r is Ok ==> match before.step {
                    IoStep::ReadFlags => if res & O_NONBLOCK == 0 {
                        after.step matches IoStep::WriteFlags(flags) && flags & O_NONBLOCK != 0
                            && flags & !O_NONBLOCK == res & !O_NONBLOCK
                    } else {
                        after.step == IoStep::Register(
                            Command::AddIo { fd: before.fd, events: before.events.0 },
                        )
                    },
                    IoStep::WriteFlags(_) => after.step == IoStep::Register(
                        Command::AddIo { fd: before.fd, events: before.events.0 },
                    ),
                    IoStep::Register(_) => after.step == before.step,
                }
            },
{
    law_bad_descriptors_are_named();
    assert forall|s: &mut IoSetup, res: i32, r: Result<(), &'static str>| #[trigger]
        call_ensures(IoSetup::advance, (s, res), r) && (*s)@.fd >= 0 implies {
        let (before, after) = ((*s)@, (*final(s))@);
        &&& after.fd == before.fd
        &&& after.events == before.events
        &&& r is Err <==> res < 0 && !(before.step is Register)
        &&& r is Err ==> after.step == before.step
        &&& r is Ok ==> match before.step {
            IoStep::ReadFlags => if res & O_NONBLOCK == 0 {
                after.step matches IoStep::WriteFlags(flags) && flags & O_NONBLOCK != 0 && flags
                    & !O_NONBLOCK == res & !O_NONBLOCK
            } else {
                after.step == IoStep::Register(
                    Command::AddIo { fd: before.fd, events: before.events.0 },
                )
            },
            IoStep::WriteFlags(_) => after.step == IoStep::Register(
                Command::AddIo { fd: before.fd, events: before.events.0 },
            ),
            IoStep::Register(_) => after.step == before.step,
        }
    } by {
        law_preparation_fails_loudly((*s)@, res);
    }
}

} // verus!
