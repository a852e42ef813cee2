//! What holds of the sources of an event loop across operations.
use vstd::prelude::*;
use crate::event::{
    acceptance, agrees, armed, arming, kind_position, lookup, mask_read, named, position, toggled,
    toggling, waits_for, AddError, Command, Event, EventSource, EventSourceId, EventSourceIo,
    EventSourceSignal, EventSourceTime, Kind, Source,
};
use crate::events::{law_add_adds, law_toggle_turns_round, law_toggle_undoes_add, Events};
use crate::search::{
    first_where, is_first_where, lemma_first_where, lemma_first_where_absent,
    lemma_first_where_found,
};

verus! {

/// No two sources have the same name, and a source without a name, which the event loop does not
/// know, is in use.
pub open spec fn well_named(sources: Seq<EventSource>) -> bool {
    &&& forall|i: int|
        0 <= i < sources.len() && (#[trigger] sources[i]).source_id() == 0
            ==> sources[i].is_borrowed()
    &&& forall|i: int, j: int|
        0 <= i < j < sources.len() && (#[trigger] sources[i]).source_id() != 0
            ==> sources[i].source_id() != (#[trigger] sources[j]).source_id()
}

/// A source that nobody holds a handle to is found by its id and kind.
pub proof fn law_free_source_is_found(sources: Seq<EventSource>, k: int)
    requires
        well_named(sources),
        0 <= k < sources.len(),
        !sources[k].is_borrowed(),
    ensures
        lookup(sources, sources[k].source_kind(), sources[k].source_id()) == Some(k),
{
    let (kind, id) = (sources[k].source_kind(), sources[k].source_id());
    let p = |s: EventSource| s.is_available(kind, id);
    assert(is_first_where(sources, p, k));
    lemma_first_where_found(sources, p, k);
}

/// While a handle to a source is in use, the source is not found: there is one handle to a source
/// at a time.
pub proof fn law_borrowed_source_is_not_found(sources: Seq<EventSource>, k: int, kind: Kind)
    requires
        well_named(sources),
        0 <= k < sources.len(),
        sources[k].is_borrowed(),
    ensures
        lookup(sources, kind, sources[k].source_id()) is None,
{
    let id = sources[k].source_id();
    lemma_first_where_absent(sources, |s: EventSource| s.is_available(kind, id));
}

/// A source is not found as a source of another kind.
pub proof fn law_kinds_are_kept_apart(sources: Seq<EventSource>, k: int, kind: Kind)
    requires
        well_named(sources),
        0 <= k < sources.len(),
        sources[k].source_kind() != kind,
    ensures
        lookup(sources, kind, sources[k].source_id()) is None,
{
    let id = sources[k].source_id();
    lemma_first_where_absent(sources, |s: EventSource| s.is_available(kind, id));
}

/// A source that was removed by its name is neither found nor removed again.
pub proof fn law_removed_source_is_gone(sources: Seq<EventSource>, k: int, kind: Kind)
    requires
        well_named(sources),
        0 <= k < sources.len(),
        sources[k].source_id() != 0,
    ensures
        position(sources, sources[k].source_id()) == Some(k),
        position(sources.remove(k), sources[k].source_id()) is None,
        lookup(sources.remove(k), kind, sources[k].source_id()) is None,
        well_named(sources.remove(k)),
{
    let id = sources[k].source_id();
    let p = |s: EventSource| s.source_id() == id;
    assert(is_first_where(sources, p, k));
    lemma_first_where_found(sources, p, k);
    let rest = sources.remove(k);
    assert forall|j: int| 0 <= j < rest.len() implies (#[trigger] rest[j]).source_id() != id by {
        assert(rest[j] == if j < k { sources[j] } else { sources[j + 1] });
    }
    lemma_first_where_absent(rest, p);
    lemma_first_where_absent(rest, |s: EventSource| s.is_available(kind, id));
}

/// A source under a new name can be added, and so can one that the event loop refused: it stays
/// without a name, in use, and is not found.
pub proof fn law_added_source_keeps_names(sources: Seq<EventSource>, source: EventSource)
    requires
        well_named(sources),
        source.source_id() == 0 ==> source.is_borrowed(),
        source.source_id() != 0 ==> position(sources, source.source_id()) is None,
    ensures
        well_named(sources.push(source)),
        source.source_id() == 0 ==> forall|kind: Kind| #[trigger]
            lookup(sources.push(source), kind, 0) is None,
{
    let id = source.source_id();
    lemma_first_where(sources, |s: EventSource| s.source_id() == id);
    if id == 0 {
        assert forall|kind: Kind| #[trigger] lookup(sources.push(source), kind, 0) is None by {
            lemma_first_where_absent(sources.push(source), |s: EventSource| s.is_available(kind, 0));
        }
    }
}

/// Making a source wait for more events changes nothing else: not the names, not which sources are
/// found, and not the events of another source.
pub proof fn law_arming_is_local(
    sources: Seq<EventSource>,
    id: EventSourceId,
    events: Events,
    res: i32,
    mask: u32,
)
    requires
        well_named(sources),
    ensures
        well_named(armed(sources, id, events, res, mask)),
        armed(sources, id, events, res, mask).len() == sources.len(),
        forall|j: int|
            0 <= j < sources.len() && sources[j].source_id() != id ==> #[trigger] armed(
                sources,
                id,
                events,
                res,
                mask,
            )[j] == sources[j],
        forall|kind: Kind, other: EventSourceId| #[trigger]
            lookup(armed(sources, id, events, res, mask), kind, other) == lookup(sources, kind, other),
{
    let after = armed(sources, id, events, res, mask);
    let available = |s: EventSource| s.is_available(Kind::Io, id);
    lemma_first_where(sources, available);
    assert forall|j: int| 0 <= j < sources.len() implies same_access(
        #[trigger] after[j],
        sources[j],
    ) by {
        if let Some(k) = lookup(sources, Kind::Io, id) {
            assert(available(sources[k]));
        }
    }
    lemma_same_lookups(sources, after);
}

/// A source that is made to wait for events that it did not wait for, and has them toggled when it
/// fires, ends up as it was. The event loop reports the events that were set last.
pub proof fn law_toggling_undoes_arming(
    sources: Seq<EventSource>,
    k: int,
    events: Events,
    res: i32,
    later: i32,
)
    requires
        well_named(sources),
        0 <= k < sources.len(),
        sources[k].source_kind() == Kind::Io,
        !sources[k].is_borrowed(),
        waits_for(sources[k])@.disjoint(events@),
        res >= 0,
        later >= 0,
    ensures
        ({
            let id = sources[k].source_id();
            let after = armed(sources, id, events, res, waits_for(sources[k]).0);
            toggled(after, id, events, later, waits_for(after[k]).0) == sources
        }),
{
    let id = sources[k].source_id();
    let mask = waits_for(sources[k]).0;
    let after = armed(sources, id, events, res, mask);
    law_free_source_is_found(sources, k);
    law_arming_is_local(sources, id, events, res, mask);
    let p = |s: EventSource| s.source_kind() == Kind::Io && s.source_id() == id;
    assert(is_first_where(after, p, k)) by {
        assert(after[k].source_id() == id);
        assert forall|j: int| 0 <= j < k implies !p(#[trigger] after[j]) by {
            assert(after[j] == sources[j]);
        }
    }
    lemma_first_where_found(after, p, k);
    law_toggle_undoes_add(waits_for(sources[k]), events);
    assert(toggled(after, id, events, later, waits_for(after[k]).0) =~= sources);
}

/// Looking a source up and giving the handle back leaves the sources as they were.
pub proof fn law_release_undoes_lookup(sources: Seq<EventSource>, kind: Kind, id: EventSourceId)
    ensures
        lookup(sources, kind, id) matches Some(k) ==> match sources[k] {
            EventSource::Time(x) => sources.update(
                k,
                EventSource::Time(x.with_borrowed(true).with_borrowed(false)),
            ) == sources,
            EventSource::Io(x) => sources.update(
                k,
                EventSource::Io(x.with_borrowed(true).with_borrowed(false)),
            ) == sources,
            EventSource::Signal(x) => sources.update(
                k,
                EventSource::Signal(x.with_borrowed(true).with_borrowed(false)),
            ) == sources,
        },
{
    lemma_first_where(sources, |s: EventSource| s.is_available(kind, id));
    if let Some(k) = lookup(sources, kind, id) {
        match sources[k] {
            EventSource::Time(x) => {
                assert(sources.update(
                    k,
                    EventSource::Time(x.with_borrowed(true).with_borrowed(false)),
                ) =~= sources);
            },
            EventSource::Io(x) => {
                assert(sources.update(
                    k,
                    EventSource::Io(x.with_borrowed(true).with_borrowed(false)),
                ) =~= sources);
            },
            EventSource::Signal(x) => {
                assert(sources.update(
                    k,
                    EventSource::Signal(x.with_borrowed(true).with_borrowed(false)),
                ) =~= sources);
            },
        }
    }
}

/// Toggling the events of a source changes nothing else: not the names, not which sources are found,
/// and not another source.
pub proof fn law_toggling_is_local(
    sources: Seq<EventSource>,
    id: EventSourceId,
    events: Events,
    res: i32,
    mask: u32,
)
    requires
        well_named(sources),
    ensures
        well_named(toggled(sources, id, events, res, mask)),
        toggled(sources, id, events, res, mask).len() == sources.len(),
        forall|j: int|
            0 <= j < sources.len() && sources[j].source_id() != id ==> #[trigger] toggled(
                sources,
                id,
                events,
                res,
                mask,
            )[j] == sources[j],
        forall|kind: Kind, other: EventSourceId| #[trigger]
            lookup(toggled(sources, id, events, res, mask), kind, other) == lookup(sources, kind, other),
{
    let after = toggled(sources, id, events, res, mask);
    let firing = |s: EventSource| s.source_kind() == Kind::Io && s.source_id() == id;
    lemma_first_where(sources, firing);
    assert forall|j: int| 0 <= j < sources.len() implies same_access(
        #[trigger] after[j],
        sources[j],
    ) by {
        if let Some(k) = kind_position(sources, Kind::Io, id) {
            assert(firing(sources[k]));
        }
    }
    lemma_same_lookups(sources, after);
}

/// Whether two sources are found in the same way.
spec fn same_access(a: EventSource, b: EventSource) -> bool {
    &&& a.source_id() == b.source_id()
    &&& a.source_kind() == b.source_kind()
    &&& a.is_borrowed() == b.is_borrowed()
}

proof fn lemma_same_lookups(sources: Seq<EventSource>, after: Seq<EventSource>)
    requires
        after.len() == sources.len(),
        forall|j: int| 0 <= j < sources.len() ==> same_access(#[trigger] after[j], sources[j]),
    ensures
        well_named(sources) ==> well_named(after),
        forall|kind: Kind, other: EventSourceId| #[trigger]
            lookup(after, kind, other) == lookup(sources, kind, other),
{
    assert forall|kind: Kind, other: EventSourceId| #[trigger]
        lookup(after, kind, other) == lookup(sources, kind, other) by {
        let p = |s: EventSource| s.is_available(kind, other);
        lemma_first_where(sources, p);
        match first_where(sources, p) {
            Some(k) => {
                assert(is_first_where(after, p, k)) by {
                    assert(p(sources[k]) && same_access(after[k], sources[k]));
                    assert forall|j: int| 0 <= j < k implies !p(#[trigger] after[j]) by {
                        assert(!p(sources[j]));
                    }
                }
                lemma_first_where_found(after, p, k);
            },
            None => {
                assert forall|j: int| 0 <= j < after.len() implies !p(#[trigger] after[j]) by {
                    assert(!p(sources[j]));
                }
                lemma_first_where_absent(after, p);
            },
        }
    }
    if well_named(sources) {
        assert forall|i: int, j: int|
            0 <= i < j < after.len() && (
            #[trigger] after[i]).source_id() != 0 implies after[i].source_id() != (
        #[trigger] after[j]).source_id() by {
            assert(same_access(after[i], sources[i]) && same_access(after[j], sources[j]));
        }
        assert forall|i: int|
            0 <= i < after.len() && (
            #[trigger] after[i]).source_id() == 0 implies after[i].is_borrowed() by {
            assert(same_access(after[i], sources[i]));
        }
    }
}

/// The kind of a source, its name, and whether it is in use.
pub open spec fn is_like(source: EventSource, kind: Kind, id: EventSourceId, borrowed: bool) -> bool {
    match source {
        EventSource::Time(x) => kind == Kind::Time && x.event_source == id && x.borrowed == borrowed,
        EventSource::Io(x) => kind == Kind::Io && x.event_source == id && x.borrowed == borrowed,
        EventSource::Signal(x) => kind == Kind::Signal && x.event_source == id && x.borrowed
            == borrowed,
    }
}

/// A lookup finds the first source of the kind and name that is not in use, and fails only where there
/// is none.
pub proof fn law_lookup_finds_what_is_not_in_use(
    sources: Seq<EventSource>,
    kind: Kind,
    id: EventSourceId,
)
    ensures
        match lookup(sources, kind, id) {
            Some(k) => {
                &&& 0 <= k < sources.len()
                &&& is_like(sources[k], kind, id, false)
                &&& forall|j: int| 0 <= j < k ==> !is_like(#[trigger] sources[j], kind, id, false)
            },
            None => forall|j: int|
                0 <= j < sources.len() ==> !is_like(#[trigger] sources[j], kind, id, false),
        },
{
    let p = |s: EventSource| s.is_available(kind, id);
    lemma_first_where(sources, p);
    assert forall|j: int| 0 <= j < sources.len() && !p(sources[j]) implies !is_like(
        #[trigger] sources[j],
        kind,
        id,
        false,
    ) by {}
    match lookup(sources, kind, id) {
        Some(k) => {
            assert(p(sources[k]));
            assert forall|j: int| 0 <= j < k implies !is_like(
                #[trigger] sources[j],
                kind,
                id,
                false,
            ) by {
                assert(!p(sources[j]));
            }
        },
        None => {
            assert forall|j: int| 0 <= j < sources.len() implies !is_like(
                #[trigger] sources[j],
                kind,
                id,
                false,
            ) by {
                assert(!p(sources[j]));
            }
        },
    }
}

/// A source that fires is found by its kind and name, in use or not, and so is one that is to be removed,
/// by its name alone: in each case the first.
pub proof fn law_sources_are_found_in_use_or_not(
    sources: Seq<EventSource>,
    kind: Kind,
    id: EventSourceId,
)
    ensures
        match kind_position(sources, kind, id) {
            Some(k) => {
                &&& 0 <= k < sources.len()
                &&& has_kind_and_name(sources[k], kind, id)
                &&& forall|j: int| 0 <= j < k ==> !has_kind_and_name(#[trigger] sources[j], kind, id)
            },
            None => forall|j: int|
                0 <= j < sources.len() ==> !has_kind_and_name(#[trigger] sources[j], kind, id),
        },
        match position(sources, id) {
            Some(k) => {
                &&& 0 <= k < sources.len()
                &&& has_name(sources[k], id)
                &&& forall|j: int| 0 <= j < k ==> !has_name(#[trigger] sources[j], id)
            },
            None => forall|j: int| 0 <= j < sources.len() ==> !has_name(#[trigger] sources[j], id),
        },
{
    let p = |s: EventSource| s.source_kind() == kind && s.source_id() == id;
    let q = |s: EventSource| s.source_id() == id;
    lemma_first_where(sources, p);
    lemma_first_where(sources, q);
    assert forall|j: int| 0 <= j < sources.len() implies has_kind_and_name(
        #[trigger] sources[j],
        kind,
        id,
    ) == p(sources[j]) && has_name(sources[j], id) == q(sources[j]) by {}
}

/// The name of a source, in use or not.
pub open spec fn has_name(source: EventSource, id: EventSourceId) -> bool {
    match source {
        EventSource::Time(x) => x.event_source == id,
        EventSource::Io(x) => x.event_source == id,
        EventSource::Signal(x) => x.event_source == id,
    }
}

/// The kind and name of a source, in use or not.
pub open spec fn has_kind_and_name(source: EventSource, kind: Kind, id: EventSourceId) -> bool {
    is_like(source, kind, id, true) || is_like(source, kind, id, false)
}

/// What the event loop is told when a source is armed is what the source then waits for: the events that
/// were read and the new ones, and no others. Of all else about the source, and of the other
/// sources, nothing changes. Where the events cannot be read there is a complaint, and where the
/// source is not found nothing is told; nothing changes then.
pub proof fn law_arming_tells_what_is_waited_for(
    sources: Seq<EventSource>,
    id: EventSourceId,
    events: Events,
    res: i32,
    mask: u32,
)
    ensures
        ({
            let after = armed(sources, id, events, res, mask);
            let outcome = arming(sources, id, events, res, mask);
            match lookup(sources, Kind::Io, id) {
                Some(k) => if res >= 0 {
                    &&& outcome matches Ok(Some(Command::SetIoEvents { event_source, events: told }))
                    &&& event_source == id
                    &&& sources[k] matches EventSource::Io(x)
                    &&& after[k] matches EventSource::Io(y)
                    &&& y.events.0 == told
                    &&& y.events@ == Events(mask)@.union(events@)
                    &&& y.event_source == id
                    &&& y.fd == x.fd
                    &&& !y.borrowed
                    &&& after.len() == sources.len()
                    &&& forall|j: int|
                        0 <= j < sources.len() && j != k ==> #[trigger] after[j] == sources[j]
                } else {
                    &&& outcome matches Err(complaint)
                    &&& complaint == "Could not set events on IO event handler."@
                    &&& after == sources
                },
                None => outcome == Ok::<Option<Command>, Seq<char>>(None) && after == sources,
            }
        }),
{
    law_lookup_finds_what_is_not_in_use(sources, Kind::Io, id);
    law_add_adds(Events(mask), events);
}

/// What the event loop is told when events are toggled on a source is what the source then waits for: of
/// the events that were read those that are not toggled, and of those that are toggled the ones that
/// were not read. Of all else about the source, and of the other sources, nothing changes. Where the
/// events cannot be read there is a complaint, and where the source is not found nothing is told;
/// nothing changes then.
pub proof fn law_toggling_tells_what_is_waited_for(
    sources: Seq<EventSource>,
    id: EventSourceId,
    events: Events,
    res: i32,
    mask: u32,
)
    ensures
        ({
            let after = toggled(sources, id, events, res, mask);
            let outcome = toggling(sources, id, events, res, mask);
            match kind_position(sources, Kind::Io, id) {
                Some(k) => if res >= 0 {
                    &&& outcome matches Ok(Some(Command::SetIoEvents { event_source, events: told }))
                    &&& event_source == id
                    &&& sources[k] matches EventSource::Io(x)
                    &&& after[k] matches EventSource::Io(y)
                    &&& y.events.0 == told
                    &&& forall|i: u32| #[trigger]
                        y.events@.contains(i) <==> Events(mask)@.contains(i) != events@.contains(i)
                    &&& y.event_source == id
                    &&& y.fd == x.fd
                    &&& y.borrowed == x.borrowed
                    &&& after.len() == sources.len()
                    &&& forall|j: int|
                        0 <= j < sources.len() && j != k ==> #[trigger] after[j] == sources[j]
                } else {
                    &&& outcome matches Err(complaint)
                    &&& complaint == "Could not set events on IO event handler."@
                    &&& after == sources
                },
                None => outcome == Ok::<Option<Command>, Seq<char>>(None) && after == sources,
            }
        }),
{
    law_sources_are_found_in_use_or_not(sources, Kind::Io, id);
    assert forall|i: u32| #[trigger]
        Events(mask ^ events.0)@.contains(i) <==> Events(mask)@.contains(i) != events@.contains(
            i,
        ) by {
        law_toggle_turns_round(Events(mask), events, i);
    }
}

/// The events of a source are those that the event loop reports, unless it cannot report them.
pub proof fn law_reported_events_count(res: i32, mask: u32)
    ensures
        match mask_read(res, mask) {
            Ok(events) => res >= 0 && events.0 == mask,
            Err(complaint) => res < 0 && complaint == "Could not set events on IO event handler."@,
        },
{
}

/// An outcome agrees with what is expected exactly when it is the same value, or a failure with the same
/// complaint.
pub proof fn law_outcomes_agree<T>(r: Result<T, &'static str>, outcome: Result<T, Seq<char>>)
    ensures
        agrees(r, outcome) <==> match (r, outcome) {
            (Ok(value), Ok(expected)) => value == expected,
            (Err(message), Err(complaint)) => message@ == complaint,
            _ => false,
        },
{
}

/// A source is added exactly when the event loop does not refuse it and names it.
pub proof fn law_sources_are_accepted_with_a_name(res: i32, event_source: EventSourceId)
    ensures
        match acceptance(res, event_source) {
            Ok(()) => res >= 0 && event_source != 0,
            Err(AddError::Refused) => res < 0,
            Err(AddError::Unnamed) => res >= 0 && event_source == 0,
            Err(AddError::Unprepared) => false,
        },
{
}

/// Taking a handle to a source, or giving it back, changes nothing but whether the source is in use; naming
/// it changes nothing but its name.
pub proof fn law_handles_change_only_use(
    time: EventSourceTime,
    io: EventSourceIo,
    signal: EventSourceSignal,
    borrowed: bool,
    id: EventSourceId,
)
    ensures
        ({
            let t = time.with_borrowed(borrowed);
            &&& t.borrowed == borrowed
            &&& t.event_source == time.event_source
            &&& t.usec == time.usec
        }),
        ({
            let i = io.with_borrowed(borrowed);
            &&& i.borrowed == borrowed
            &&& i.event_source == io.event_source
            &&& i.fd == io.fd
            &&& i.events == io.events
        }),
        ({
            let s = signal.with_borrowed(borrowed);
            &&& s.borrowed == borrowed
            &&& s.event_source == signal.event_source
            &&& s.signal == signal.signal
            &&& s.handled == signal.handled
        }),
        ({
            let t = time.with_source_id(id);
            &&& t.event_source == id
            &&& t.borrowed == time.borrowed
            &&& t.usec == time.usec
        }),
        ({
            let i = io.with_source_id(id);
            &&& i.event_source == id
            &&& i.borrowed == io.borrowed
            &&& i.fd == io.fd
            &&& i.events == io.events
        }),
        ({
            let s = signal.with_source_id(id);
            &&& s.event_source == id
            &&& s.borrowed == signal.borrowed
            &&& s.signal == signal.signal
            &&& s.handled == signal.handled
        }),
        time.source_id() == time.event_source && io.source_id() == io.event_source
            && signal.source_id() == signal.event_source,
        time.is_borrowed() == time.borrowed && io.is_borrowed() == io.borrowed
            && signal.is_borrowed() == signal.borrowed,
{
}

/// The names that the event loop has to forget are those of the first sources, followed by those of the
/// others: each source counts for itself, in order, and once if it has a name.
pub proof fn law_every_name_is_forgotten(
    first: Seq<EventSource>,
    others: Seq<EventSource>,
    source: EventSource,
)
    ensures
        named(first + others) == named(first) + named(others),
        has_name(source, 0) ==> named(seq![source]).len() == 0,
        !has_name(source, 0) ==> named(seq![source]).len() == 1 && has_name(
            source,
            named(seq![source])[0],
        ),
    decreases others.len(),
{
    reveal_with_fuel(named, 2);
    assert(seq![source].drop_last() =~= Seq::empty());
    assert(seq![source].last() == source);
    if others.len() == 0 {
        assert(first + others =~= first);
        assert(named(first) + named(others) =~= named(first));
    } else {
        law_every_name_is_forgotten(first, others.drop_last(), source);
        assert((first + others).drop_last() =~= first + others.drop_last());
        assert((first + others).last() == others.last());
        assert(named(first + others) =~= named(first) + named(others));
    }
}

/// Which complaint is made about a change that fails depends on what was to be changed, and on nothing
/// else. A time or a state that cannot be set is passed over.
pub proof fn law_failures_are_complained_about(command: Command)
    ensures
        command.complaint() is None <==> command is SetTime || command is SetEnabled,
        command is AddTime ==> command.complaint() == Some(
            "Could not add time event handler to the event loop."@,
        ),
        command is AddIo ==> command.complaint() == Some(
            "Could not add io event handler to the event loop."@,
        ),
        command is AddSignal ==> command.complaint() == Some(
            "Could not add signal event handler to the event loop."@,
        ),
        command is SetIoEvents ==> command.complaint() == Some(
            "Could not set events on IO event handler."@,
        ),
        command is SetIoFd ==> command.complaint() == Some(
            "Failed to set the event handler's file descriptor."@,
        ),
        command is Exit ==> command.complaint() == Some("Event loop exit failure."@),
{
}

/// What is said of the sources of an event loop is said of all of them, in order.
pub proof fn law_no_source_is_hidden(event: Event)
    ensures
        event@ == event.event_sources@,
{
}

} // verus!
