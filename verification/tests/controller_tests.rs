use imgfloat::controller::{ChannelController, DeltaOutcome};
use imgfloat::topic::BroadcastOutcome;

fn runtime() -> tokio::runtime::Runtime {
    tokio::runtime::Builder::new_current_thread()
        .enable_all()
        .build()
        .expect("runtime")
}

#[test]
fn reader_on_unwritten_channel_gets_no_initial_payload() {
    let mut c = ChannelController::new();
    let (_rx, snapshot) = c.reader_connect("alice");
    assert_eq!(snapshot, None);
}

#[test]
fn reader_after_new_gets_exactly_that_state() {
    // writer on "alice" sends {"New":{"assets":[]}}; a reader connecting
    // afterward receives {"assets":[]}
    let mut c = ChannelController::new();
    c.writer_connect("alice");
    let outcome = c.writer_frame("alice", "{\"New\":{\"assets\":[]}}");
    assert_eq!(outcome.delta, DeltaOutcome::Applied);
    let (_rx, snapshot) = c.reader_connect("alice");
    assert_eq!(snapshot.as_deref(), Some("{\"assets\":[]}"));
}

#[test]
fn update_after_new_moves_the_asset() {
    let mut c = ChannelController::new();
    c.writer_connect("alice");
    c.writer_frame(
        "alice",
        "{\"New\":{\"assets\":[{\"id\":\"a1\",\"x\":0,\"y\":0,\"w\":10,\"h\":10,\"url\":\"http://x/i.png\"}]}}",
    );
    let outcome = c.writer_frame(
        "alice",
        "{\"Update\":{\"id\":\"a1\",\"x\":5,\"y\":5,\"w\":10,\"h\":10,\"url\":\"http://x/i.png\"}}",
    );
    assert_eq!(outcome.delta, DeltaOutcome::Applied);
    let (_rx, snapshot) = c.reader_connect("alice");
    assert_eq!(
        snapshot.as_deref(),
        Some("{\"assets\":[{\"id\":\"a1\",\"x\":5,\"y\":5,\"w\":10,\"h\":10,\"url\":\"http://x/i.png\"}]}")
    );
}

#[test]
fn delete_empties_the_cache_entry() {
    let mut c = ChannelController::new();
    c.writer_connect("alice");
    c.writer_frame(
        "alice",
        "{\"New\":{\"assets\":[{\"id\":\"a1\",\"x\":5,\"y\":5,\"w\":10,\"h\":10,\"url\":\"http://x/i.png\"}]}}",
    );
    let outcome = c.writer_frame("alice", "{\"Delete\":\"a1\"}");
    assert_eq!(outcome.delta, DeltaOutcome::Applied);
    let (_rx, snapshot) = c.reader_connect("alice");
    assert_eq!(snapshot.as_deref(), Some("{\"assets\":[]}"));
}

#[test]
fn update_or_delete_without_state_creates_no_entry() {
    let mut c = ChannelController::new();
    c.writer_connect("dana");
    let outcome = c.writer_frame("dana", "{\"Delete\":\"a1\"}");
    assert_eq!(outcome.delta, DeltaOutcome::NoCachedState);
    let outcome = c.writer_frame(
        "dana",
        "{\"Update\":{\"id\":\"a1\",\"x\":5,\"y\":5,\"w\":10,\"h\":10,\"url\":\"u\"}}",
    );
    assert_eq!(outcome.delta, DeltaOutcome::NoCachedState);
    let (_rx, snapshot) = c.reader_connect("dana");
    assert_eq!(snapshot, None);
}

#[test]
fn two_readers_receive_the_same_frames_in_order() {
    // two readers subscribe to "bob" before any write; both receive the
    // writer's exact frames, in the order sent
    let rt = runtime();
    let mut c = ChannelController::new();
    let (mut rx1, s1) = c.reader_connect("bob");
    let (mut rx2, s2) = c.reader_connect("bob");
    assert_eq!(s1, None);
    assert_eq!(s2, None);
    c.writer_connect("bob");
    let first = c.writer_frame("bob", "one");
    assert_eq!(first.broadcast, BroadcastOutcome::Delivered(2));
    c.writer_frame("bob", "two");
    rt.block_on(async {
        assert_eq!(rx1.recv().await.unwrap(), "one");
        assert_eq!(rx1.recv().await.unwrap(), "two");
        assert_eq!(rx2.recv().await.unwrap(), "one");
        assert_eq!(rx2.recv().await.unwrap(), "two");
    });
}

#[test]
fn malformed_frame_is_relayed_but_never_cached() {
    // writer on "carol" sends the non-JSON text `not-json`: no cache
    // entry appears, yet an already-subscribed reader receives the
    // literal text
    let rt = runtime();
    let mut c = ChannelController::new();
    let (mut rx, _snapshot) = c.reader_connect("carol");
    c.writer_connect("carol");
    let outcome = c.writer_frame("carol", "not-json");
    assert_eq!(outcome.delta, DeltaOutcome::ParseFailed);
    assert_eq!(outcome.broadcast, BroadcastOutcome::Delivered(1));
    rt.block_on(async {
        assert_eq!(rx.recv().await.unwrap(), "not-json");
    });
    let (_rx2, snapshot) = c.reader_connect("carol");
    assert_eq!(snapshot, None);
}

#[test]
fn writing_with_no_subscribers_is_not_an_error() {
    let mut c = ChannelController::new();
    c.writer_connect("erin");
    let outcome = c.writer_frame("erin", "{\"New\":{\"assets\":[]}}");
    assert_eq!(outcome.broadcast, BroadcastOutcome::NoSubscribers);
    assert_eq!(outcome.delta, DeltaOutcome::Applied);
    // the delta still reached the cache
    let (_rx, snapshot) = c.reader_connect("erin");
    assert_eq!(snapshot.as_deref(), Some("{\"assets\":[]}"));
}

#[test]
fn reconnect_sees_the_cumulative_state_not_the_delta_log() {
    let mut c = ChannelController::new();
    c.writer_connect("alice");
    c.writer_frame("alice", "{\"New\":{\"assets\":[]}}");
    c.writer_frame("alice", "not-json");
    c.writer_frame(
        "alice",
        "{\"Update\":{\"id\":\"zz\",\"x\":1,\"y\":1,\"w\":1,\"h\":1,\"url\":\"u\"}}",
    );
    c.writer_frame(
        "alice",
        "{\"New\":{\"assets\":[{\"id\":\"a1\",\"x\":0,\"y\":0,\"w\":1,\"h\":1,\"url\":\"u\"},{\"id\":\"a2\",\"x\":0,\"y\":0,\"w\":1,\"h\":1,\"url\":\"u\"}]}}",
    );
    c.writer_frame(
        "alice",
        "{\"Update\":{\"id\":\"a2\",\"x\":9,\"y\":9,\"w\":1,\"h\":1,\"url\":\"u\"}}",
    );
    c.writer_frame("alice", "{\"Delete\":\"a1\"}");
    let (_rx, snapshot) = c.reader_connect("alice");
    assert_eq!(
        snapshot.as_deref(),
        Some("{\"assets\":[{\"id\":\"a2\",\"x\":9,\"y\":9,\"w\":1,\"h\":1,\"url\":\"u\"}]}")
    );
}

#[test]
fn writer_reconnect_gets_the_snapshot_too() {
    let mut c = ChannelController::new();
    assert_eq!(c.writer_connect("alice"), None);
    c.writer_frame("alice", "{\"New\":{\"assets\":[]}}");
    assert_eq!(c.writer_connect("alice").as_deref(), Some("{\"assets\":[]}"));
}

#[test]
fn channels_are_independent() {
    let mut c = ChannelController::new();
    c.writer_connect("alice");
    c.writer_frame("alice", "{\"New\":{\"assets\":[]}}");
    let (_rx, snapshot) = c.reader_connect("bob");
    assert_eq!(snapshot, None);
}

#[test]
fn relay_controller_greets_readers_and_relays() {
    let rt = runtime();
    let mut a = imgfloat::controller::ApplicationController::new();
    let (mut rx, greeting) = a.reader_connect("alice");
    assert_eq!(greeting, "ready");
    a.writer_connect("alice");
    let outcome = a.writer_frame("alice", "hello");
    assert_eq!(outcome, BroadcastOutcome::Delivered(1));
    rt.block_on(async {
        assert_eq!(rx.recv().await.unwrap(), "hello");
    });
    let no_readers = a.writer_frame("nobody", "hello");
    assert_eq!(no_readers, BroadcastOutcome::NoSubscribers);
}

#[test]
fn extreme_number_literals_survive_verbatim() {
    // geometry is carried as text: a literal no float could hold is
    // cached and served back unchanged
    let mut c = ChannelController::new();
    c.writer_connect("alice");
    let outcome = c.writer_frame(
        "alice",
        "{\"New\":{\"assets\":[{\"id\":\"a1\",\"x\":1e999,\"y\":-0.000000000000001,\"w\":10,\"h\":10,\"url\":\"u\"}]}}",
    );
    assert_eq!(outcome.delta, DeltaOutcome::Applied);
    let (_rx, snapshot) = c.reader_connect("alice");
    assert_eq!(
        snapshot.as_deref(),
        Some("{\"assets\":[{\"id\":\"a1\",\"x\":1e999,\"y\":-0.000000000000001,\"w\":10,\"h\":10,\"url\":\"u\"}]}")
    );
}
