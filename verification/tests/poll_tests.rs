use ctc_notify::poll::ChannelData;
use ctc_notify::poll::CycleAction;
use ctc_notify::poll::CycleEvent;
use ctc_notify::poll::PollState;
use ctc_notify::video::Video;

fn start_state(channel: &str, last_id: &str) -> PollState {
    PollState {
        channel: ChannelData {
            channel: channel.into(),
            last_id: last_id.into(),
        },
        video: Video::new(last_id, "", "", ""),
    }
}

#[test]
fn unchanged_id_never_notifies() {
    let mut state = start_state("C1", "V1");
    let before = state.clone();
    let same = Video::new("V1", "A Fresh Title", "PT10S", "");
    let action = state.step(CycleEvent::Fetched(same));
    assert_eq!(action, CycleAction::Wait);
    assert_eq!(state, before);
    let same_again = Video::new("V1", "Another Title", "PT20S", "");
    let action = state.step(CycleEvent::Fetched(same_again));
    assert_eq!(action, CycleAction::Wait);
    assert_eq!(state, before);
}

#[test]
fn denylisted_title_never_notifies() {
    let mut state = start_state("C1", "V1");
    let before = state.clone();
    let wordle = Video::new("V2", "WoRdLe special!", "PT10S", "");
    assert_eq!(state.step(CycleEvent::Fetched(wordle)), CycleAction::Wait);
    assert_eq!(state, before);
    let crossword = Video::new("V3", "the CROSSWORD returns", "PT10S", "");
    assert_eq!(state.step(CycleEvent::Fetched(crossword)), CycleAction::Wait);
    assert_eq!(state, before);
}

#[test]
fn shutdown_stops_without_fetch() {
    let mut state = start_state("C1", "V1");
    let before = state.clone();
    assert_eq!(state.step(CycleEvent::Shutdown), CycleAction::Stop);
    assert_eq!(state, before);
}

#[test]
fn failed_fetch_forfeits_cycle() {
    let mut state = start_state("C1", "V1");
    let before = state.clone();
    assert_eq!(state.step(CycleEvent::FetchFailed), CycleAction::Wait);
    assert_eq!(state, before);
}

#[test]
fn end_to_end_cycle() {
    let mut state = start_state("C1", "V1");
    let latest = Video::new(
        "V2",
        "New Puzzle",
        "PT37M45S",
        "links: https://tinyurl.com/Abc123 and more",
    );
    let action = state.step(CycleEvent::Fetched(latest));
    assert_eq!(action, CycleAction::Notify);
    assert_eq!(state.channel.channel, "C1");
    assert_eq!(state.channel.last_id, "V2");
    assert_eq!(
        state.video.message(),
        "The latest video New Puzzle (https://www.youtube.com/watch?v=V2) for \
         https://tinyurl.com/Abc123 took 0:37:45."
    );
}
