use cupslib::sched::{FetchPoll, MessageAction, Scheduler, Selected, UserAction};
use cupslib::wire::{Message, UserData};

fn user(id: [u8; 32], name: &str) -> UserData {
    UserData { id, name: Some(name.to_string()), unreads: 0 }
}

fn msg(content: &str) -> Message {
    Message { inbound: true, time: 0, content: content.to_string() }
}

#[test]
fn user_stream_completion_after_three_pending_ticks() {
    let mut s = Scheduler::new();
    // Idle: the first tick starts a fetch and renders nothing.
    assert!(matches!(s.tick_users(FetchPoll::Pending), UserAction::Start));
    // Three ticks with the fetch still pending: keep waiting, render nothing.
    assert!(matches!(s.tick_users(FetchPoll::Pending), UserAction::Wait));
    assert!(matches!(s.tick_users(FetchPoll::Pending), UserAction::Wait));
    assert!(matches!(s.tick_users(FetchPoll::Pending), UserAction::Wait));
    assert!(s.users.is_empty());
    // The fetch completes: deliver once, then the stream is in flight again.
    let a = s.tick_users(FetchPoll::Success(vec![user([1u8; 32], "alice")]));
    assert!(matches!(a, UserAction::Deliver { clear: 0 }));
    assert_eq!(s.users.len(), 1);
    assert!(s.user_inflight);
    // The next pending tick renders nothing again.
    assert!(matches!(s.tick_users(FetchPoll::Pending), UserAction::Wait));
}

#[test]
fn user_stream_clear_count_is_previous_length() {
    let mut s = Scheduler::new();
    s.tick_users(FetchPoll::Pending);
    let long = vec![user([1u8; 32], "a"), user([2u8; 32], "b"), user([3u8; 32], "c")];
    assert!(matches!(s.tick_users(FetchPoll::Success(long)), UserAction::Deliver { clear: 0 }));
    let short = vec![user([1u8; 32], "a")];
    // The renderer is told how many rows the previous list held.
    assert!(matches!(s.tick_users(FetchPoll::Success(short)), UserAction::Deliver { clear: 3 }));
    assert_eq!(s.users.len(), 1);
}

#[test]
fn user_stream_failure_keeps_data_and_restarts() {
    let mut s = Scheduler::new();
    s.tick_users(FetchPoll::Pending);
    s.tick_users(FetchPoll::Success(vec![user([1u8; 32], "a")]));
    let a = s.tick_users(FetchPoll::Failure);
    assert!(matches!(a, UserAction::Failed));
    // The old list survives a failed refresh, and a new fetch is owed.
    assert_eq!(s.users.len(), 1);
    assert!(s.user_inflight);
}

#[test]
fn message_stream_rests_without_a_selected_peer() {
    let mut s = Scheduler::new();
    assert!(matches!(s.tick_messages(FetchPoll::Pending), MessageAction::NoPeer));
    assert!(s.msg_peer.is_none());
}

#[test]
fn message_stream_fetches_selected_peer() {
    let mut s = Scheduler::new();
    s.tick_users(FetchPoll::Pending);
    s.tick_users(FetchPoll::Success(vec![user([1u8; 32], "a"), user([2u8; 32], "b")]));
    let a = s.tick_messages(FetchPoll::Pending);
    assert!(matches!(a, MessageAction::Start { peer } if peer == [1u8; 32]));
    assert_eq!(s.msg_peer, Some([1u8; 32]));
    assert!(matches!(s.tick_messages(FetchPoll::Pending), MessageAction::Wait));
    let a = s.tick_messages(FetchPoll::Success(vec![msg("hi")]));
    assert!(matches!(a, MessageAction::Deliver { peer } if peer == [1u8; 32]));
    assert_eq!(s.messages.len(), 1);
    assert_eq!(s.messages_peer, Some([1u8; 32]));
}

#[test]
fn selection_change_mid_flight_takes_effect_on_completion() {
    let mut s = Scheduler::new();
    s.tick_users(FetchPoll::Pending);
    s.tick_users(FetchPoll::Success(vec![user([1u8; 32], "a"), user([2u8; 32], "b")]));
    // A fetch for the first peer goes out.
    assert!(matches!(s.tick_messages(FetchPoll::Pending), MessageAction::Start { peer } if peer == [1u8; 32]));
    // The selection moves while that fetch is still in flight.
    s.selected = 1;
    assert!(matches!(s.tick_messages(FetchPoll::Pending), MessageAction::Wait));
    // The stale fetch completes: its result is still applied, and the next
    // fetch already targets the newly selected peer.
    let a = s.tick_messages(FetchPoll::Success(vec![msg("stale")]));
    assert!(matches!(a, MessageAction::Deliver { peer } if peer == [2u8; 32]));
    assert_eq!(s.messages_peer, Some([1u8; 32]));
    assert_eq!(s.msg_peer, Some([2u8; 32]));
    // When that one completes, the feed shows the new peer's conversation.
    let a = s.tick_messages(FetchPoll::Success(vec![msg("fresh")]));
    assert!(matches!(a, MessageAction::Deliver { peer } if peer == [2u8; 32]));
    assert_eq!(s.messages_peer, Some([2u8; 32]));
    assert_eq!(s.messages.len(), 1);
}

#[test]
fn completed_fetch_waits_out_an_empty_peer_list() {
    let mut s = Scheduler::new();
    s.tick_users(FetchPoll::Pending);
    s.tick_users(FetchPoll::Success(vec![user([1u8; 32], "a")]));
    assert!(matches!(s.tick_messages(FetchPoll::Pending), MessageAction::Start { .. }));
    // The user list empties while the message fetch is in flight.
    s.tick_users(FetchPoll::Success(vec![]));
    // With no peer selected the loop leaves the fetch unpolled and hands in
    // Pending; the stream rests and nothing is discarded.
    assert!(matches!(s.tick_messages(FetchPoll::Pending), MessageAction::NoPeer));
    assert_eq!(s.msg_peer, Some([1u8; 32]));
    // Peers return: the held completion is observed and delivered.
    s.tick_users(FetchPoll::Success(vec![user([1u8; 32], "a")]));
    let a = s.tick_messages(FetchPoll::Success(vec![msg("kept")]));
    assert!(matches!(a, MessageAction::Deliver { peer } if peer == [1u8; 32]));
    assert_eq!(s.messages.len(), 1);
    assert_eq!(s.messages_peer, Some([1u8; 32]));
}

#[test]
fn message_failure_restarts_for_current_peer() {
    let mut s = Scheduler::new();
    s.tick_users(FetchPoll::Pending);
    s.tick_users(FetchPoll::Success(vec![user([1u8; 32], "a")]));
    s.tick_messages(FetchPoll::Pending);
    let a = s.tick_messages(FetchPoll::Failure);
    assert!(matches!(a, MessageAction::Failed { peer } if peer == [1u8; 32]));
    // The feed is untouched and a new fetch is owed.
    assert!(s.messages.is_empty());
    assert_eq!(s.msg_peer, Some([1u8; 32]));
}

#[test]
fn select_previous_stops_at_top() {
    let mut s = Scheduler::new();
    s.selected = 2;
    s.select_previous();
    assert_eq!(s.selected, 1);
    s.select_previous();
    assert_eq!(s.selected, 0);
    s.select_previous();
    assert_eq!(s.selected, 0);
}

#[test]
fn focus_rotates_through_all_panes() {
    let mut f = Selected::Sidebar;
    f.rotate();
    assert!(matches!(f, Selected::Input));
    f.rotate();
    assert!(matches!(f, Selected::Feed));
    f.rotate();
    assert!(matches!(f, Selected::Namebar));
    f.rotate();
    assert!(matches!(f, Selected::Sidebar));
}
