//! Ending the service when there is no more activity.
use vstd::prelude::*;
use crate::event::{
    acceptance, lookup, AddError, Clock, Command, Event, EventSource, EventSourceId,
    EventSourceTime, Kind, Usec, SD_EVENT_ON,
};
use crate::event_laws::{law_free_source_is_found, well_named};

verus! {

/// How many microseconds there are in a second.
pub const USEC_PER_SEC: u64 = 1000000;

/// The exit code of a service that ends because there is no more activity.
pub const EXIT_IDLE: i32 = 0;

/// The exit code of a service that is interrupted.
pub const EXIT_INTERRUPTED: i32 = 240;

/// A time in seconds, in microseconds.
pub fn seconds_to_usec(seconds: u64) -> (r: u64)
    requires
        seconds * USEC_PER_SEC <= u64::MAX,
    ensures
        r == seconds * USEC_PER_SEC,
{
    seconds * USEC_PER_SEC
}

/// Puts the end of the service off whenever there is activity.
pub struct ActivityMonitor {
    /// The time source that ends the service.
    pub id: EventSourceId,
    /// How long the service may go without activity.
    pub usec: u64,
}

/// The sources after the time source with an id was made to fire at `usec`.
pub open spec fn postponed(sources: Seq<EventSource>, id: EventSourceId, usec: u64) -> Seq<
    EventSource,
> {
    match lookup(sources, Kind::Time, id) {
        Some(k) => match sources[k] {
            EventSource::Time(x) => sources.update(
                k,
                EventSource::Time(
                    EventSourceTime { usec: Usec::Absolute(usec), borrowed: false, ..x },
                ),
            ),
            _ => sources,
        },
        None => sources,
    }
}

/// What is done when the service goes without activity for too long.
pub struct Idle {
    /// Ends the event loop.
    pub command: Command,
    /// When the time source is to fire again.
    pub rearm: Usec,
}

impl ActivityMonitor {
    /// When a service that starts at `now` ends if there is no activity: `usec` is how long it may
    /// go without.
    pub fn deadline(now: u64, usec: u64) -> (r: Usec)
        requires
            now + usec <= u64::MAX,
        ensures
            r == Usec::Absolute((now + usec) as u64),
    {
        Usec::Absolute(now + usec)
    }

    /// What is asked of the event loop at `now`: to end the service if there is no activity for
    /// `usec`.
    pub fn request(now: u64, usec: u64) -> (r: Command)
        requires
            now + usec <= u64::MAX,
        ensures
            r == (Command::AddTime {
                clock: Clock::Monotonic.number(),
                usec: (now + usec) as u64,
                accuracy: 0,
            }),
    {
        Event::time_request(Clock::Monotonic, ActivityMonitor::deadline(now, usec), 0)
    }

    /// Starts to watch for activity, given what the event loop answered to the request and the name
    /// that it gave to the time source. The time source has to be enabled.
    pub fn start(
        event: &mut Event,
        now: u64,
        usec: u64,
        res: i32,
        event_source: EventSourceId,
    ) -> (r: Result<(ActivityMonitor, Command), AddError>)
        requires
            now + usec <= u64::MAX,
        ensures
            match r {
                Ok((monitor, command)) => {
                    &&& acceptance(res, event_source) is Ok
                    &&& monitor == (ActivityMonitor { id: event_source, usec })
                    &&& command == (Command::SetEnabled { event_source, enabled: SD_EVENT_ON })
                    &&& final(event)@ == old(event)@.push(
                        EventSource::Time(
                            EventSourceTime {
                                event_source,
                                usec: Usec::Absolute((now + usec) as u64),
                                borrowed: false,
                            },
                        ),
                    )
                },
                Err(e) => {
                    &&& acceptance(res, event_source) == Err::<(), AddError>(e)
                    &&& final(event)@ == old(event)@.push(
                        EventSource::Time(
                            EventSourceTime {
                                event_source: 0,
                                usec: Usec::Absolute((now + usec) as u64),
                                borrowed: true,
                            },
                        ),
                    )
                },
            },
    {
        match event.add_requested_time(ActivityMonitor::request(now, usec), res, event_source) {
            Ok(mut source) => {
                let command = source.enable();
                let id = source.id();
                source.release();
                Ok((ActivityMonitor { id, usec }, command))
            },
            Err(e) => Err(e),
        }
    }

    /// Notes that there is activity now: the service ends once it goes without for the whole time
    /// again.
    pub fn ping(&mut self, event: &mut Event, now: u64) -> (r: Option<Command>)
        requires
            lookup(old(event)@, Kind::Time, old(self).id) is Some ==> now + old(self).usec
                <= u64::MAX,
        ensures
            *final(self) == *old(self),
            final(event)@ == postponed(old(event)@, old(self).id, (now + old(self).usec) as u64),
            r == if lookup(old(event)@, Kind::Time, old(self).id) is Some {
                Some(
                    Command::SetTime {
                        event_source: old(self).id,
                        usec: (now + old(self).usec) as u64,
                    },
                )
            } else {
                None
            },
    {
        match event.get_event_source_time(self.id) {
            Some(mut source) => {
                let command = source.set_time(ActivityMonitor::deadline(now, self.usec));
                source.release();
                Some(command)
            },
            None => None,
        }
    }

    /// Ends the service, because there was no activity.
    pub fn expired(event: &Event) -> (r: Idle)
        ensures
            r == (Idle { command: Command::Exit { code: EXIT_IDLE }, rearm: Usec::Absolute(0) }),
    {
        Idle { command: event.exit(EXIT_IDLE), rearm: Usec::Absolute(0) }
    }
}

/// Ends the service, because it was interrupted.
pub fn interrupted(event: &Event) -> (r: Command)
    ensures
        r == (Command::Exit { code: EXIT_INTERRUPTED }),
{
    event.exit(EXIT_INTERRUPTED)
}

/// What the service manager sees of the exit code of the event loop: its lowest byte.
pub fn exit_status(res: i32) -> (r: u8)
    ensures
        r == res % 256,
{
    assert(res as u8 == res % 256) by (bit_vector);
    #[verifier::truncate]
    (res as u8)
}

/// Activity moves the end of the service to the whole time after it, and nothing else: the time
/// source is still found, so that later activity moves it again, and no other source changes.
pub proof fn law_activity_postpones_the_end(sources: Seq<EventSource>, k: int, usec: u64)
    requires
        well_named(sources),
        0 <= k < sources.len(),
        sources[k].source_kind() == Kind::Time,
        !sources[k].is_borrowed(),
    ensures
        ({
            let id = sources[k].source_id();
            let after = postponed(sources, id, usec);
            &&& after.len() == sources.len()
            &&& after[k] matches EventSource::Time(x) && x.usec == Usec::Absolute(usec)
            &&& forall|j: int|
                0 <= j < sources.len() && j != k ==> #[trigger] after[j] == sources[j]
            &&& well_named(after)
            &&& lookup(after, Kind::Time, id) == Some(k)
        }),
{
    let id = sources[k].source_id();
    let after = postponed(sources, id, usec);
    law_free_source_is_found(sources, k);
    assert forall|j: int| 0 <= j < sources.len() implies (#[trigger] after[j]).source_id()
        == sources[j].source_id() by {}
    law_free_source_is_found(after, k);
}

/// Of several activities the last one counts.
pub proof fn law_last_activity_counts(
    sources: Seq<EventSource>,
    k: int,
    earlier: u64,
    later: u64,
)
    requires
        well_named(sources),
        0 <= k < sources.len(),
        sources[k].source_kind() == Kind::Time,
        !sources[k].is_borrowed(),
    ensures
        ({
            let id = sources[k].source_id();
            postponed(postponed(sources, id, earlier), id, later) == postponed(sources, id, later)
        }),
{
    let id = sources[k].source_id();
    law_free_source_is_found(sources, k);
    law_activity_postpones_the_end(sources, k, earlier);
    assert(postponed(postponed(sources, id, earlier), id, later) =~= postponed(sources, id, later));
}

/// Where the time source is not found, activity changes nothing.
pub proof fn law_activity_without_a_source(sources: Seq<EventSource>, id: EventSourceId, usec: u64)
    requires
        forall|j: int|
            0 <= j < sources.len() ==> !(#[trigger] sources[j] matches EventSource::Time(x)
                && x.event_source == id && !x.borrowed),
    ensures
        postponed(sources, id, usec) == sources,
{
    crate::search::lemma_first_where_absent(
        sources,
        |s: EventSource| s.is_available(Kind::Time, id),
    );
}

/// Activity moves the deadline of the time source that is found, and changes nothing else of it or of
/// another source.
pub proof fn law_activity_moves_one_deadline(
    sources: Seq<EventSource>,
    id: EventSourceId,
    usec: u64,
    k: int,
)
    requires
        lookup(sources, Kind::Time, id) == Some(k),
    ensures
        ({
            let after = postponed(sources, id, usec);
            &&& after.len() == sources.len()
            &&& 0 <= k < sources.len()
            &&& sources[k] matches EventSource::Time(x)
            &&& after[k] matches EventSource::Time(y)
            &&& y.usec == Usec::Absolute(usec)
            &&& y.event_source == x.event_source
            &&& !y.borrowed
            &&& forall|j: int|
                0 <= j < sources.len() && j != k ==> #[trigger] after[j] == sources[j]
        }),
{
    crate::event_laws::law_lookup_finds_what_is_not_in_use(sources, Kind::Time, id);
}

} // verus!
