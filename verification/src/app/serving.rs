//! Whom a stream serves: its packets go to the sessions that are listed among
//! its consumers.
use crate::api::models::UnixTimestamp;
use crate::app::session::{SeekAction, SessionError};
use crate::app::source::SourceWrapper;
use crate::app::{lemma_state_is_consistent, GlobalState};
use crate::domain::dvr::filesystem::RecordingMetadata;
use crate::domain::ClientSessionId;
use crate::sources::dvr::DvrPlayer;
use vstd::prelude::*;

verus! {

/// A stream serves a session.
pub open spec fn serves(state: GlobalState, name: Seq<char>, id: ClientSessionId) -> bool {
    state.streams().contains_key(name)
        && state.streams()[name].rtp_packetizer.consumers@.contains(id)
}

/// Streams serve open sessions of their own only, and only those that show
/// them live.
pub open spec fn serves_live_sessions(state: GlobalState) -> bool {
    forall|name: Seq<char>, id: ClientSessionId| #[trigger]
        serves(state, name, id) ==> {
            let session = state.sessions()[id];
            &&& state.sessions().contains_key(id)
            &&& session.source_id@ == name
            &&& session.live_serial == state.streams()[name].serial
            &&& session.state is Live
        }
}

/// A consumer that is added is the only one to join.
pub proof fn lemma_added(before: SourceWrapper, after: SourceWrapper, id: ClientSessionId)
    requires
        before.adds_consumer(after, id),
    ensures
        after.rtp_packetizer.consumers@.contains(id),
        forall|other: ClientSessionId|
            #![trigger after.rtp_packetizer.consumers@.contains(other)]
            #![trigger before.rtp_packetizer.consumers@.contains(other)]
            other != id ==> (after.rtp_packetizer.consumers@.contains(other)
                <==> before.rtp_packetizer.consumers@.contains(other)),
{
    let ids = before.rtp_packetizer.consumers@;
    let all = after.rtp_packetizer.consumers@;
    if !ids.contains(id) {
        assert(all[ids.len() as int] == id);
    }
    assert forall|other: ClientSessionId| other != id implies (all.contains(other)
        <==> ids.contains(other)) by {
        if ids.contains(other) {
            let j = choose|j: int| 0 <= j < ids.len() && ids[j] == other;
            assert(all[j] == other);
        }
        if all.contains(other) {
            let j = choose|j: int| 0 <= j < all.len() && all[j] == other;
            assert(ids[j] == other);
        }
    }
}

/// A consumer that is removed is the only one to leave.
pub proof fn lemma_removed(before: SourceWrapper, after: SourceWrapper, id: ClientSessionId)
    requires
        before.rtp_packetizer.consumers_distinct(),
        before.removes_consumer(after, id),
    ensures
        !after.rtp_packetizer.consumers@.contains(id),
        forall|other: ClientSessionId|
            #![trigger after.rtp_packetizer.consumers@.contains(other)]
            #![trigger before.rtp_packetizer.consumers@.contains(other)]
            other != id ==> (after.rtp_packetizer.consumers@.contains(other)
                <==> before.rtp_packetizer.consumers@.contains(other)),
{
    let ids = before.rtp_packetizer.consumers@;
    let fewer = after.rtp_packetizer.consumers@;
    if ids.contains(id) {
        ids.index_of_first_ensures(id);
        let at = ids.index_of_first(id)->0;
        assert forall|j: int| 0 <= j < fewer.len() implies #[trigger] fewer[j] == ids[if j < at {
            j
        } else {
            j + 1
        }] && fewer[j] != id by {
            assert(ids[at] == id);
        }
        assert forall|other: ClientSessionId| other != id implies (fewer.contains(other)
            <==> ids.contains(other)) by {
            if ids.contains(other) {
                let j = choose|j: int| 0 <= j < ids.len() && ids[j] == other;
                assert(fewer[if j < at { j } else { j - 1 }] == other);
            }
        }
    }
}

/// A session that is opened and dropped leaves its stream's consumers as they
/// were.
pub proof fn lemma_session_leaves_no_trace(
    before: SourceWrapper,
    between: SourceWrapper,
    after: SourceWrapper,
    id: ClientSessionId,
)
    requires
        !before.rtp_packetizer.consumers@.contains(id),
        before.adds_consumer(between, id),
        between.removes_consumer(after, id),
    ensures
        after.rtp_packetizer.consumers@ == before.rtp_packetizer.consumers@,
{
    let ids = before.rtp_packetizer.consumers@;
    let more = between.rtp_packetizer.consumers@;
    more.index_of_first_ensures(id);
    assert(more[ids.len() as int] == id);
    let at = more.index_of_first(id)->0;
    if at < ids.len() {
        assert(ids[at] == id);
    }
    assert(more.remove(ids.len() as int) =~= ids);
}

/// A session that goes to a recording and back to live is served again by its
/// stream, and the other sessions are served as before.
pub proof fn lemma_back_to_live(
    before: SourceWrapper,
    between: SourceWrapper,
    after: SourceWrapper,
    id: ClientSessionId,
)
    requires
        before.rtp_packetizer.consumers_distinct(),
        before.removes_consumer(between, id),
        between.adds_consumer(after, id),
    ensures
        after.rtp_packetizer.consumers@.contains(id),
        forall|other: ClientSessionId|
            other != id ==> (after.rtp_packetizer.consumers@.contains(other)
                <==> before.rtp_packetizer.consumers@.contains(other)),
{
    lemma_removed(before, between, id);
    lemma_added(between, after, id);
}

/// A stream that is created serves nobody yet.
pub proof fn lemma_creation_keeps_service(
    before: GlobalState,
    after: GlobalState,
    name: Seq<char>,
    stream: SourceWrapper,
)
    requires
        serves_live_sessions(before),
        after.streams() == before.streams().insert(name, stream),
        stream.rtp_packetizer.consumers@.len() == 0,
        after.sessions() == before.sessions(),
    ensures
        serves_live_sessions(after),
{
    assert forall|k: Seq<char>, id: ClientSessionId| #[trigger] serves(after, k, id) implies serves(
        before,
        k,
        id,
    ) && after.streams()[k] == before.streams()[k] by {}
}

/// A stream that is deleted serves nobody any more.
pub proof fn lemma_deletion_keeps_service(before: GlobalState, after: GlobalState, name: Seq<char>)
    requires
        serves_live_sessions(before),
        after.streams() == before.streams().remove(name),
        after.sessions() == before.sessions(),
    ensures
        serves_live_sessions(after),
        forall|id: ClientSessionId| !serves(after, name, id),
{
    assert forall|k: Seq<char>, id: ClientSessionId| #[trigger] serves(after, k, id) implies serves(
        before,
        k,
        id,
    ) && after.streams()[k] == before.streams()[k] by {}
}

/// A new session is served by its stream from when it is opened.
pub proof fn lemma_opening_keeps_service(
    before: GlobalState,
    after: GlobalState,
    name: Seq<char>,
    id: ClientSessionId,
)
    requires
        before.valid(),
        serves_live_sessions(before),
        !before.sessions().contains_key(id),
        before.opened(after, name, id),
    ensures
        serves_live_sessions(after),
        serves(after, name, id),
{
    lemma_added(before.streams()[name], after.streams()[name], id);
    assert forall|k: Seq<char>, other: ClientSessionId| #[trigger] serves(after, k, other) && other
        != id implies serves(before, k, other) && after.streams()[k].serial
        == before.streams()[k].serial by {}
    assert forall|k: Seq<char>| #[trigger] serves(after, k, id) implies k == name by {
        if k != name {
            assert(serves(before, k, id));
        }
    }
}

/// A session that is deleted is served by no stream any more.
pub proof fn lemma_dropping_keeps_service(
    before: GlobalState,
    after: GlobalState,
    id: ClientSessionId,
)
    requires
        before.valid(),
        serves_live_sessions(before),
        before.dropped(after, id),
    ensures
        serves_live_sessions(after),
        forall|name: Seq<char>| !serves(after, name, id),
{
    let source_id = before.sessions()[id].source_id@;
    lemma_state_is_consistent(before);
    if before.streams().contains_key(source_id) {
        lemma_removed(before.streams()[source_id], after.streams()[source_id], id);
    }
    assert forall|k: Seq<char>, other: ClientSessionId| #[trigger]
        serves(after, k, other) implies other != id && serves(before, k, other)
        && after.streams()[k].serial == before.streams()[k].serial by {
        if k != source_id || other != id {
            assert(serves(before, k, other));
        }
    }
}

/// Going live keeps service in order, and whoever goes live again is served
/// by the stream that the session was opened on, if that is still there.
pub proof fn lemma_going_live_keeps_service(
    before: GlobalState,
    after: GlobalState,
    id: ClientSessionId,
    r: Result<Option<DvrPlayer>, SessionError>,
)
    requires
        before.valid(),
        serves_live_sessions(before),
        before.goes_live(after, id, r),
    ensures
        serves_live_sessions(after),
        r matches Ok(Some(_)) && before.on_air(before.sessions()[id]) ==> serves(
            after,
            before.sessions()[id].source_id@,
            id,
        ),
{
    let session = before.sessions()[id];
    let name = session.source_id@;
    if r matches Ok(Some(_)) {
        if before.on_air(session) {
            lemma_added(before.streams()[name], after.streams()[name], id);
        }
        assert forall|k: Seq<char>, other: ClientSessionId| #[trigger]
            serves(after, k, other) implies after.streams()[k].serial == before.streams()[k].serial
            && (serves(before, k, other) || k == name && other == id && before.on_air(session)) by {
            if k != name || other != id {
                assert(serves(before, k, other));
            }
        }
    } else {
        assert forall|k: Seq<char>, other: ClientSessionId| #[trigger]
            serves(after, k, other) implies serves(before, k, other) by {}
    }
}

/// Seeking keeps service in order, a session that plays a recording is served
/// by no stream, and a seek that is refused changes nothing.
pub proof fn lemma_seeking_keeps_service(
    before: GlobalState,
    after: GlobalState,
    id: ClientSessionId,
    timestamp: UnixTimestamp,
    recordings: Seq<RecordingMetadata>,
    r: Result<SeekAction, SessionError>,
)
    requires
        before.valid(),
        serves_live_sessions(before),
        before.seeks(after, id, timestamp, recordings, r),
    ensures
        serves_live_sessions(after),
        r is Ok ==> forall|name: Seq<char>| !serves(after, name, id),
        r is Err ==> before.unchanged(after),
{
    let session = before.sessions()[id];
    let name = session.source_id@;
    lemma_state_is_consistent(before);
    let leaves = before.sessions().contains_key(id) && before.streams().contains_key(name)
        && before.streams()[name].source.codec is Some && session.state is Live && r is Ok;
    if leaves {
        if before.on_air(session) {
            lemma_removed(before.streams()[name], after.streams()[name], id);
        }
        assert forall|k: Seq<char>, other: ClientSessionId| #[trigger]
            serves(after, k, other) implies other != id && serves(before, k, other)
            && after.streams()[k].serial == before.streams()[k].serial by {
            if k != name || other != id {
                assert(serves(before, k, other));
            } else if !before.on_air(session) {
                assert(serves(before, k, other));
            }
            if other == id {
                assert(serves(before, k, id));
            }
        }
    } else {
        assert forall|k: Seq<char>, other: ClientSessionId| #[trigger]
            serves(after, k, other) implies serves(before, k, other) by {}
    }
}

/// Setting the speed keeps service in order, and the session reports the speed
/// that was set.
pub proof fn lemma_speed_keeps_service(
    before: GlobalState,
    after: GlobalState,
    id: ClientSessionId,
    speed: u64,
    position: Option<u64>,
    r: Result<(), SessionError>,
)
    requires
        before.valid(),
        serves_live_sessions(before),
        before.sets_speed(after, id, speed, r),
    ensures
        serves_live_sessions(after),
        r is Ok ==> after.sessions()[id].mode(position).speed == speed,
{
    assert forall|k: Seq<char>, other: ClientSessionId| #[trigger]
        serves(after, k, other) implies serves(before, k, other) by {}
}

} // verus!
