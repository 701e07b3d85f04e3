//! The decision core of the polling loop. Each cycle the surrounding driver
//! observes one event — the shutdown flag set, a failed fetch, or a fetched
//! latest item — and `PollState::step` decides the action: stop and hand the
//! cursor back, wait out the interval, or notify and record the new item.
use vstd::prelude::*;

use crate::text::contains_ci;
use crate::text::str_contains_ci;
use crate::video::Video;

verus! {

/// The persisted cursor: the channel watched and the identifier of the last
/// item notified for.
#[derive(Debug, PartialEq, Eq, Clone)]
pub struct ChannelData {
    pub channel: String,
    pub last_id: String,
}

/// What a cycle observed at its decision point.
pub enum CycleEvent {
    /// The shutdown flag was set before the fetch began.
    Shutdown,
    /// The fetch chain failed; the cycle is forfeited.
    FetchFailed,
    /// The channel's current latest item.
    Fetched(Video),
}

/// What the driver must do after a step.
#[derive(Debug, PartialEq, Eq, Clone)]
pub enum CycleAction {
    /// Return the cursor for persistence.
    Stop,
    /// Send the notification for the just-recorded item, then wait.
    Notify,
    /// Wait out the interval (cancellably), then start the next cycle.
    Wait,
}

/// The loop's in-memory state: the cursor and the previously known item.
#[derive(Debug, PartialEq, Eq, Clone)]
pub struct PollState {
    pub channel: ChannelData,
    pub video: Video,
}

/// A fetched item is worth notifying about: its identifier differs from the
/// previously known one, and its title contains neither excluded word in
/// any ASCII case.
pub open spec fn notify_worthy(prev: Video, vid: Video) -> bool {
    vid.youtube_id@ != prev.youtube_id@ && !contains_ci(vid.title@, "wordle"@) && !contains_ci(
        vid.title@,
        "crossword"@,
    )
}

/// The whole decision of one cycle: the state after it and the action owed.
pub open spec fn step_spec(s: PollState, event: CycleEvent) -> (PollState, CycleAction) {
    match event {
        CycleEvent::Shutdown => (s, CycleAction::Stop),
        CycleEvent::FetchFailed => (s, CycleAction::Wait),
        CycleEvent::Fetched(v) => if notify_worthy(s.video, v) {
            (
                PollState {
                    channel: ChannelData { channel: s.channel.channel, last_id: v.youtube_id },
                    video: v,
                },
                CycleAction::Notify,
            )
        } else {
            (s, CycleAction::Wait)
        },
    }
}

impl PollState {
    /// Decide one cycle: stop on shutdown, forfeit a failed fetch, and on a
    /// fetched item notify exactly when it is worth it, recording the item
    /// and its identifier in the cursor.
    pub fn step(&mut self, event: CycleEvent) -> (action: CycleAction)
        ensures
            (*final(self), action) == step_spec(*old(self), event),
    {
        match event {
            CycleEvent::Shutdown => CycleAction::Stop,
            CycleEvent::FetchFailed => CycleAction::Wait,
            CycleEvent::Fetched(v) => {
                let worthy = v.youtube_id != self.video.youtube_id && !str_contains_ci(
                    v.title.as_str(),
                    "wordle",
                ) && !str_contains_ci(v.title.as_str(), "crossword");
                if worthy {
                    self.channel.last_id = v.youtube_id.clone();
                    self.video = v;
                    CycleAction::Notify
                } else {
                    CycleAction::Wait
                }
            },
        }
    }
}

/// Idempotence: when the latest-item identifier is unchanged across two
/// consecutive cycles, neither cycle notifies and the state — and so the
/// cursor — is unchanged.
pub proof fn lemma_unchanged_id_is_idempotent(s: PollState, v1: Video, v2: Video)
    requires
        v1.youtube_id@ == s.video.youtube_id@,
        v2.youtube_id@ == s.video.youtube_id@,
    ensures
        step_spec(s, CycleEvent::Fetched(v1)) == (s, CycleAction::Wait),
        step_spec(step_spec(s, CycleEvent::Fetched(v1)).0, CycleEvent::Fetched(v2)) == (
            s,
            CycleAction::Wait,
        ),
{
}

/// Denylist: an item whose title contains an excluded word in any ASCII
/// case never triggers a notification, even when its identifier changed,
/// and leaves the state unchanged.
pub proof fn lemma_denylist_suppresses(s: PollState, v: Video)
    requires
        contains_ci(v.title@, "wordle"@) || contains_ci(v.title@, "crossword"@),
    ensures
        step_spec(s, CycleEvent::Fetched(v)) == (s, CycleAction::Wait),
{
}

/// Cancellation: a shutdown observed at the cycle boundary stops the loop
/// at once, with the state unchanged, and no other action is owed.
pub proof fn lemma_shutdown_stops(s: PollState)
    ensures
        step_spec(s, CycleEvent::Shutdown) == (s, CycleAction::Stop),
{
}

/// A notifying step records what it notified for: the new item becomes the
/// previously known one and the cursor carries its identifier, the channel
/// untouched.
pub proof fn lemma_notify_updates_cursor(s: PollState, v: Video)
    requires
        notify_worthy(s.video, v),
    ensures
        step_spec(s, CycleEvent::Fetched(v)).1 == CycleAction::Notify,
        step_spec(s, CycleEvent::Fetched(v)).0.channel.last_id@ == v.youtube_id@,
        step_spec(s, CycleEvent::Fetched(v)).0.video == v,
        step_spec(s, CycleEvent::Fetched(v)).0.channel.channel@ == s.channel.channel@,
{
}

} // verus!
