//! The channel broadcast and state-reconciliation engine.
//!
//! A [`ChannelController`] keeps, per channel name, a broadcast topic
//! (created lazily, never removed) and the latest reconciled
//! [`ImgfloatState`]. A reader session subscribes to the topic and first
//! receives the cached snapshot, serialized; a writer session has each
//! of its text frames relayed verbatim to the topic's subscribers and,
//! independently of that relay, parsed as a delta and applied to the
//! cache. A frame that does not parse is still relayed but leaves the
//! cache untouched.
//!
//! The controller itself is synchronous; the session loops around it
//! live outside the library and call in with one short-lived borrow per
//! step, so no lock is ever held across socket I/O. Serializing a
//! snapshot cannot fail: the serializer is total, and every state the
//! cache can reach re-parses to itself (see [`cache_wf`]).

use vstd::prelude::*;

verus! {

use vstd::hash_map::StringHashMap;

use crate::json::emit::state_json;
use crate::json::grammar::{parse_message_text, ser_state};
use crate::json::read::parse_message;
use crate::model::{state_wf, AssetView, ImgfloatAssetStateMessage, ImgfloatState, MessageView};
use crate::reconcile::spec_apply;
use crate::topic::{
    new_topic, send_to_topic, subscribe_topic, topic_receiver_count, BroadcastOutcome,
};

/// How many pending payloads each subscriber may lag behind before the
/// topic skips it ahead.
pub const TOPIC_CAPACITY: usize = 100;

/// What one writer frame did to the state cache.
#[derive(Debug, Clone, Copy, PartialEq, Eq, Structural)]
pub enum DeltaOutcome {
    /// The frame parsed as a delta and was applied to the cache.
    Applied,
    /// The frame parsed as an `Update` or `Delete`, but the channel has
    /// no cached state yet; the cache is untouched and no entry is
    /// created.
    NoCachedState,
    /// The frame is not a delta message; the cache is untouched.
    ParseFailed,
}

/// What one writer frame did: its relay to the topic and its effect on
/// the cache, which are independent of each other.
#[derive(Debug, Clone, Copy, PartialEq, Eq, Structural)]
pub struct FrameOutcome {
    pub broadcast: BroadcastOutcome,
    pub delta: DeltaOutcome,
}

/// The channel's cache entry, if any.
pub open spec fn cache_entry(c: Map<Seq<char>, Seq<AssetView>>, channel: Seq<char>) -> Option<
    Seq<AssetView>,
> {
    if c.dom().contains(channel) {
        Some(c[channel])
    } else {
        None
    }
}

/// The whole cache after one writer frame: an unparseable frame and a
/// delta whose application is a no-op both leave it unchanged; an
/// applied delta replaces (or creates) the channel's entry.
pub open spec fn spec_cache_after(
    c: Map<Seq<char>, Seq<AssetView>>,
    channel: Seq<char>,
    frame: Seq<char>,
) -> Map<Seq<char>, Seq<AssetView>> {
    match parse_message_text(frame) {
        None => c,
        Some(m) => match spec_apply(cache_entry(c, channel), m) {
            None => c,
            Some(s2) => c.insert(channel, s2),
        },
    }
}

/// Every cached state is well-formed: its geometry texts are number
/// literals, so its snapshot re-parses.
pub open spec fn cache_wf(c: Map<Seq<char>, Seq<AssetView>>) -> bool {
    forall|ch: Seq<char>| c.dom().contains(ch) ==> state_wf(#[trigger] c[ch])
}

/// A writer frame keeps every cached state well-formed: whatever text
/// comes in, what the cache holds afterwards still re-parses.
pub proof fn lemma_cache_after_preserves_wf(
    c: Map<Seq<char>, Seq<AssetView>>,
    channel: Seq<char>,
    frame: Seq<char>,
)
    requires
        cache_wf(c),
    ensures
        cache_wf(spec_cache_after(c, channel, frame)),
{
    if parse_message_text(frame) is Some {
        crate::json::laws::lemma_parse_message_wf(frame);
        let m = parse_message_text(frame)->0;
        crate::reconcile::lemma_apply_preserves_wf(cache_entry(c, channel), m);
    }
}

pub struct ChannelController {
    channels: StringHashMap<tokio::sync::broadcast::Sender<String>>,
    state_cache: StringHashMap<ImgfloatState>,
}

impl ChannelController {
    /// The set of channel names that have a topic.
    pub closed spec fn topics(&self) -> Set<Seq<char>> {
        self.channels@.dom()
    }

    /// The reconciled state per channel, as a map of mathematical
    /// values.
    pub closed spec fn cache(&self) -> Map<Seq<char>, Seq<AssetView>> {
        Map::new(
            |k: Seq<char>| self.state_cache@.dom().contains(k),
            |k: Seq<char>| self.state_cache@[k]@,
        )
    }

    /// A controller with no topics and an empty cache.
    pub fn new() -> (r: ChannelController)
        ensures
            r.topics() == Set::<Seq<char>>::empty(),
            r.cache() == Map::<Seq<char>, Seq<AssetView>>::empty(),
            cache_wf(r.cache()),
    {
        let r = ChannelController {
            channels: StringHashMap::new(),
            state_cache: StringHashMap::new(),
        };
        proof {
            assert(r.topics() =~= Set::<Seq<char>>::empty());
            assert(r.cache() =~= Map::<Seq<char>, Seq<AssetView>>::empty());
        }
        r
    }

    /// The channel's topic, created on first use.
    fn topic_of(&mut self, channel: &str) -> (r: &tokio::sync::broadcast::Sender<String>)
        ensures
            final(self).topics() == old(self).topics().insert(channel@),
            final(self).cache() == old(self).cache(),
            final(self).channels@.contains_key(channel@),
    {
        if !self.channels.contains_key(channel) {
            self.channels.insert(channel.to_owned(), new_topic(TOPIC_CAPACITY));
        }
        proof {
            assert(self.topics() =~= old(self).topics().insert(channel@));
            assert(self.cache() =~= old(self).cache());
        }
        self.channels.get(channel).unwrap()
    }

    /// Subscribe a reader to the channel, creating the topic if needed,
    /// and hand back the initial snapshot to push: the serialized cached
    /// state, or nothing for a channel never written to.
    pub fn reader_connect(&mut self, channel: &str) -> (r: (
        tokio::sync::broadcast::Receiver<String>,
        Option<String>,
    ))
        ensures
            final(self).topics() == old(self).topics().insert(channel@),
            final(self).cache() == old(self).cache(),
            r.1 is Some <==> old(self).cache().dom().contains(channel@),
            r.1 is Some ==> r.1->0@ == ser_state(old(self).cache()[channel@]),
            cache_wf(old(self).cache()) && r.1 is Some
                ==> crate::json::grammar::parse_state_text(r.1->0@) == Some(
                old(self).cache()[channel@],
            ),
    {
        let rx = {
            let tx = self.topic_of(channel);
            subscribe_topic(tx)
        };
        let snapshot = match self.state_cache.get(channel) {
            Some(st) => Some(state_json(st)),
            None => None,
        };
        proof {
            if cache_wf(old(self).cache()) && snapshot is Some {
                crate::json::laws::lemma_state_round_trip(old(self).cache()[channel@]);
            }
        }
        (rx, snapshot)
    }

    /// Resolve the channel for a writer, creating the topic if needed,
    /// and hand back the snapshot that rehydrates a reconnecting control
    /// client, or nothing for a channel never written to.
    pub fn writer_connect(&mut self, channel: &str) -> (r: Option<String>)
        ensures
            final(self).topics() == old(self).topics().insert(channel@),
            final(self).cache() == old(self).cache(),
            r is Some <==> old(self).cache().dom().contains(channel@),
            r is Some ==> r->0@ == ser_state(old(self).cache()[channel@]),
            cache_wf(old(self).cache()) && r is Some
                ==> crate::json::grammar::parse_state_text(r->0@) == Some(
                old(self).cache()[channel@],
            ),
    {
        let _ = self.topic_of(channel);
        let snapshot = match self.state_cache.get(channel) {
            Some(st) => Some(state_json(st)),
            None => None,
        };
        proof {
            if cache_wf(old(self).cache()) && snapshot is Some {
                crate::json::laws::lemma_state_round_trip(old(self).cache()[channel@]);
            }
        }
        snapshot
    }

    /// Handle one inbound writer text frame: relay it verbatim to the
    /// topic's current subscribers (skipped, not an error, when there is
    /// none), then, regardless of the relay, parse it as a delta and
    /// reconcile the cache. The raw frame reaches readers even when it
    /// does not parse; the cache then stays untouched.
    pub fn writer_frame(&mut self, channel: &str, text: &str) -> (r: FrameOutcome)
        ensures
            final(self).topics() == old(self).topics(),
            !old(self).topics().contains(channel@) ==> r.broadcast is NoSubscribers,
            final(self).cache() == spec_cache_after(old(self).cache(), channel@, text@),
            cache_wf(old(self).cache()) ==> cache_wf(final(self).cache()),
            r.delta is ParseFailed <==> parse_message_text(text@) is None,
            r.delta is NoCachedState <==> (parse_message_text(text@) matches Some(m)
                && spec_apply(cache_entry(old(self).cache(), channel@), m) is None),
            r.delta is Applied <==> (parse_message_text(text@) matches Some(m) && spec_apply(
                cache_entry(old(self).cache(), channel@),
                m,
            ) is Some),
    {
        let broadcast = match self.channels.get(channel) {
            None => BroadcastOutcome::NoSubscribers,
            Some(tx) => {
                if topic_receiver_count(tx) == 0 {
                    BroadcastOutcome::NoSubscribers
                } else {
                    match send_to_topic(tx, text.to_owned()) {
                        Some(n) => BroadcastOutcome::Delivered(n),
                        None => BroadcastOutcome::Refused,
                    }
                }
            },
        };
        let delta = match parse_message(text) {
            None => {
                proof {
                    assert(self.cache() =~= spec_cache_after(
                        old(self).cache(),
                        channel@,
                        text@,
                    ));
                }
                DeltaOutcome::ParseFailed
            },
            Some(msg) => match msg {
                ImgfloatAssetStateMessage::New(st) => {
                    self.state_cache.insert(channel.to_owned(), st);
                    proof {
                        assert(self.cache() =~= spec_cache_after(
                            old(self).cache(),
                            channel@,
                            text@,
                        ));
                    }
                    DeltaOutcome::Applied
                },
                ImgfloatAssetStateMessage::Update(a) => {
                    match self.state_cache.get(channel) {
                        None => {
                            proof {
                                assert(self.cache() =~= spec_cache_after(
                                    old(self).cache(),
                                    channel@,
                                    text@,
                                ));
                            }
                            DeltaOutcome::NoCachedState
                        },
                        Some(st) => {
                            let mut updated = st.clone();
                            updated.apply_update(&a);
                            self.state_cache.insert(channel.to_owned(), updated);
                            proof {
                                assert(self.cache() =~= spec_cache_after(
                                    old(self).cache(),
                                    channel@,
                                    text@,
                                ));
                            }
                            DeltaOutcome::Applied
                        },
                    }
                },
                ImgfloatAssetStateMessage::Delete(id) => {
                    match self.state_cache.get(channel) {
                        None => {
                            proof {
                                assert(self.cache() =~= spec_cache_after(
                                    old(self).cache(),
                                    channel@,
                                    text@,
                                ));
                            }
                            DeltaOutcome::NoCachedState
                        },
                        Some(st) => {
                            let mut updated = st.clone();
                            updated.apply_delete(&id);
                            self.state_cache.insert(channel.to_owned(), updated);
                            proof {
                                assert(self.cache() =~= spec_cache_after(
                                    old(self).cache(),
                                    channel@,
                                    text@,
                                ));
                            }
                            DeltaOutcome::Applied
                        },
                    }
                },
            },
        };
        proof {
            if cache_wf(old(self).cache()) {
                lemma_cache_after_preserves_wf(old(self).cache(), channel@, text@);
            }
        }
        FrameOutcome { broadcast, delta }
    }

}


/// The relay controller for chat traffic: topics without a state cache.
/// A reader is greeted with a fixed ready marker instead of a snapshot;
/// writer frames are relayed verbatim and nothing is reconciled.
pub struct ApplicationController {
    channels: StringHashMap<tokio::sync::broadcast::Sender<String>>,
}

impl ApplicationController {
    /// The set of channel names that have a topic.
    pub closed spec fn topics(&self) -> Set<Seq<char>> {
        self.channels@.dom()
    }

    /// A controller with no topics.
    pub fn new() -> (r: ApplicationController)
        ensures
            r.topics() == Set::<Seq<char>>::empty(),
    {
        let r = ApplicationController { channels: StringHashMap::new() };
        proof {
            assert(r.topics() =~= Set::<Seq<char>>::empty());
        }
        r
    }

    /// Subscribe a reader to the channel, creating the topic if needed,
    /// and hand back the greeting to send before relaying.
    pub fn reader_connect(&mut self, channel: &str) -> (r: (
        tokio::sync::broadcast::Receiver<String>,
        String,
    ))
        ensures
            final(self).topics() == old(self).topics().insert(channel@),
            r.1@ == "ready"@,
    {
        if !self.channels.contains_key(channel) {
            self.channels.insert(channel.to_owned(), new_topic(TOPIC_CAPACITY));
        }
        proof {
            assert(self.topics() =~= old(self).topics().insert(channel@));
        }
        let rx = subscribe_topic(self.channels.get(channel).unwrap());
        (rx, "ready".to_owned())
    }

    /// Resolve the channel for a writer, creating the topic if needed.
    pub fn writer_connect(&mut self, channel: &str)
        ensures
            final(self).topics() == old(self).topics().insert(channel@),
    {
        if !self.channels.contains_key(channel) {
            self.channels.insert(channel.to_owned(), new_topic(TOPIC_CAPACITY));
        }
        proof {
            assert(self.topics() =~= old(self).topics().insert(channel@));
        }
    }

    /// Relay one inbound writer text frame verbatim to the channel's
    /// current subscribers; with none, the frame is skipped, which is
    /// not an error.
    pub fn writer_frame(&mut self, channel: &str, text: &str) -> (r: BroadcastOutcome)
        ensures
            final(self).topics() == old(self).topics(),
            !old(self).topics().contains(channel@) ==> r is NoSubscribers,
    {
        match self.channels.get(channel) {
            None => BroadcastOutcome::NoSubscribers,
            Some(tx) => {
                if topic_receiver_count(tx) == 0 {
                    BroadcastOutcome::NoSubscribers
                } else {
                    match send_to_topic(tx, text.to_owned()) {
                        Some(n) => BroadcastOutcome::Delivered(n),
                        None => BroadcastOutcome::Refused,
                    }
                }
            },
        }
    }
}

/// One channel entry after a whole sequence of writer frames, folded
/// left to right.
pub open spec fn spec_entry_after_frames(
    e: Option<Seq<AssetView>>,
    frames: Seq<Seq<char>>,
) -> Option<Seq<AssetView>>
    decreases frames.len(),
{
    if frames.len() == 0 {
        e
    } else {
        let e2 = match parse_message_text(frames[0]) {
            None => e,
            Some(m) => match spec_apply(e, m) {
                None => e,
                Some(s2) => Some(s2),
            },
        };
        spec_entry_after_frames(e2, frames.skip(1))
    }
}

/// The whole cache after a sequence of writer frames on one channel.
pub open spec fn spec_cache_after_frames(
    c: Map<Seq<char>, Seq<AssetView>>,
    channel: Seq<char>,
    frames: Seq<Seq<char>>,
) -> Map<Seq<char>, Seq<AssetView>>
    decreases frames.len(),
{
    if frames.len() == 0 {
        c
    } else {
        spec_cache_after_frames(spec_cache_after(c, channel, frames[0]), channel, frames.skip(1))
    }
}

/// After any sequence of writer frames, the channel's cache entry is the
/// cumulative reconciled state: the fold of the parsed deltas over the
/// entry that was there before, never the raw frame log; and no other
/// channel's entry moves. A reader reconnecting then receives exactly
/// that cumulative state, by `reader_connect`'s contract.
pub proof fn lemma_snapshot_is_cumulative(
    c: Map<Seq<char>, Seq<AssetView>>,
    channel: Seq<char>,
    frames: Seq<Seq<char>>,
)
    ensures
        cache_entry(spec_cache_after_frames(c, channel, frames), channel)
            == spec_entry_after_frames(cache_entry(c, channel), frames),
        forall|other: Seq<char>|
            other != channel ==> #[trigger] cache_entry(
                spec_cache_after_frames(c, channel, frames),
                other,
            ) == cache_entry(c, other),
    decreases frames.len(),
{
    if frames.len() > 0 {
        let c2 = spec_cache_after(c, channel, frames[0]);
        assert(cache_entry(c2, channel) == (match parse_message_text(frames[0]) {
            None => cache_entry(c, channel),
            Some(m) => match spec_apply(cache_entry(c, channel), m) {
                None => cache_entry(c, channel),
                Some(s2) => Some(s2),
            },
        }));
        assert(forall|other: Seq<char>|
            other != channel ==> #[trigger] cache_entry(c2, other) == cache_entry(c, other));
        lemma_snapshot_is_cumulative(c2, channel, frames.skip(1));
    }
}


/// The whole snapshot path for a full replacement: the frame a control
/// client sends for `New(s)` parses back to exactly `New(s)`; applied to
/// any cache it installs exactly `s` as the channel's entry; and the
/// snapshot a connecting reader is then pushed parses back to exactly
/// `s` — never an approximation of it.
pub proof fn lemma_new_frame_round_trip(
    c: Map<Seq<char>, Seq<AssetView>>,
    channel: Seq<char>,
    s: Seq<AssetView>,
)
    requires
        state_wf(s),
    ensures
        parse_message_text(crate::json::grammar::ser_message(MessageView::New(s))) == Some(
            MessageView::New(s),
        ),
        cache_entry(
            spec_cache_after(c, channel, crate::json::grammar::ser_message(MessageView::New(s))),
            channel,
        ) == Some(s),
        crate::json::grammar::parse_state_text(ser_state(s)) == Some(s),
{
    crate::json::laws::lemma_message_round_trip(MessageView::New(s));
    crate::json::laws::lemma_state_round_trip(s);
    let frame = crate::json::grammar::ser_message(MessageView::New(s));
    assert(spec_apply(cache_entry(c, channel), MessageView::New(s)) == Some(s));
    assert(spec_cache_after(c, channel, frame) == c.insert(channel, s));
    assert(cache_entry(c.insert(channel, s), channel) == Some(s));
}

} // verus!
