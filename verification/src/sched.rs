//! Refresh scheduler: the decision core of the interactive refresh loop.
//!
//! Two independently paced streams — the user list, and the message feed of
//! the currently selected peer — are each kept warm by at most one
//! outstanding fetch.  Once per tick the enclosing event loop observes each
//! stream's fetch without blocking and hands the outcome to the matching
//! tick method here, which updates the stored collections and answers with
//! the action to perform: start a fetch, keep waiting, render what was just
//! delivered, or report a failure.  A completed fetch always has a successor
//! issued in the same tick, success or failure, so a stream is never left
//! idle; rendering happens exactly on completed fetches, never on pending
//! ticks.  One discipline binds the loop: while no peer is selected it
//! leaves the message fetch unpolled, so no completed result is ever
//! observed — and so never discarded — without a peer to attribute it to.

use vstd::prelude::*;

use crate::wire::{user_views, message_views, Message, MessageView, UserData, UserDataView};

verus! {

/// What the event loop observed of a stream's fetch this tick: nothing yet,
/// a decoded result, or a transport or decode failure.
pub enum FetchPoll<T> {
    /// Nothing has completed (or nothing is outstanding).
    Pending,
    /// The fetch completed and its response decoded to these records.
    Success(Vec<T>),
    /// The fetch completed with a transport error or an undecodable response.
    Failure,
}

/// The mathematical content of a [`FetchPoll`].
pub enum SpecPoll<V> {
    /// Nothing has completed.
    Pending,
    /// The fetch completed with these records.
    Success(Seq<V>),
    /// The fetch failed.
    Failure,
}

impl View for FetchPoll<UserData> {
    type V = SpecPoll<UserDataView>;

    open spec fn view(&self) -> SpecPoll<UserDataView> {
        match self {
            FetchPoll::Pending => SpecPoll::Pending,
            FetchPoll::Success(v) => SpecPoll::Success(user_views(v@)),
            FetchPoll::Failure => SpecPoll::Failure,
        }
    }
}

impl View for FetchPoll<Message> {
    type V = SpecPoll<MessageView>;

    open spec fn view(&self) -> SpecPoll<MessageView> {
        match self {
            FetchPoll::Pending => SpecPoll::Pending,
            FetchPoll::Success(v) => SpecPoll::Success(message_views(v@)),
            FetchPoll::Failure => SpecPoll::Failure,
        }
    }
}

/// What the event loop must do for the user-list stream after a tick.
#[derive(Clone, Copy, Debug, PartialEq, Eq, Structural)]
pub enum UserAction {
    /// Nothing was outstanding: issue a user-list fetch.
    Start,
    /// The fetch has not completed: poll the same fetch again next tick.
    Wait,
    /// A fetch completed: render the stored user list, clearing any rows
    /// beyond it that the previous list (of the given length) occupied, and
    /// issue the next user-list fetch.
    Deliver {
        /// The previous list's length, whose rows may need clearing.
        clear: usize,
    },
    /// A fetch failed: report it and issue the next user-list fetch.
    Failed,
}

/// What the event loop must do for the message stream after a tick.
pub enum MessageAction {
    /// No peer is selected: the stream rests and nothing is polled.
    NoPeer,
    /// Nothing was outstanding: issue a message fetch for this peer.
    Start {
        /// The selected peer to fetch messages for.
        peer: [u8; 32],
    },
    /// The fetch has not completed: poll the same fetch again next tick.
    Wait,
    /// A fetch completed: render the stored message feed and issue the next
    /// fetch for this (now current) peer.
    Deliver {
        /// The currently selected peer the next fetch targets.
        peer: [u8; 32],
    },
    /// A fetch failed: report it and issue the next fetch for this peer.
    Failed {
        /// The currently selected peer the next fetch targets.
        peer: [u8; 32],
    },
}

/// The scheduler's state: the decoded collections, the selection, and what
/// is in flight on each stream.
pub struct Scheduler {
    /// The most recently delivered user list.
    pub users: Vec<UserData>,
    /// The most recently delivered message feed.
    pub messages: Vec<Message>,
    /// The index of the selected peer in `users`.
    pub selected: usize,
    /// Whether a user-list fetch is outstanding.
    pub user_inflight: bool,
    /// The peer of the outstanding message fetch, if one is outstanding.
    pub msg_peer: Option<[u8; 32]>,
    /// The peer whose conversation `messages` holds, if any was delivered.
    pub messages_peer: Option<[u8; 32]>,
}

/// The mathematical content of a [`Scheduler`].
#[verifier::ext_equal]
pub struct SchedView {
    /// The delivered user records.
    pub users: Seq<UserDataView>,
    /// The delivered message records.
    pub messages: Seq<MessageView>,
    /// The index of the selected peer.
    pub selected: usize,
    /// Whether a user-list fetch is outstanding.
    pub user_inflight: bool,
    /// The peer of the outstanding message fetch.
    pub msg_peer: Option<Seq<u8>>,
    /// The peer whose conversation the feed holds.
    pub messages_peer: Option<Seq<u8>>,
}

/// The view of an optional stored peer key.
pub open spec fn peer_view(p: Option<[u8; 32]>) -> Option<Seq<u8>> {
    match p {
        Option::Some(k) => Option::Some(k@),
        Option::None => Option::None,
    }
}

impl View for Scheduler {
    type V = SchedView;

    open spec fn view(&self) -> SchedView {
        SchedView {
            users: user_views(self.users@),
            messages: message_views(self.messages@),
            selected: self.selected,
            user_inflight: self.user_inflight,
            msg_peer: peer_view(self.msg_peer),
            messages_peer: peer_view(self.messages_peer),
        }
    }
}

/// One tick of the user-list stream: the next state and the action owed.
///
/// Idle starts a fetch; a pending fetch is left to be polled again; a
/// completed fetch replaces the list and is immediately re-issued, so after
/// any tick a fetch is outstanding.
pub open spec fn spec_tick_users(s: SchedView, p: SpecPoll<UserDataView>) -> (SchedView, UserAction) {
    if !s.user_inflight {
        (SchedView { user_inflight: true, ..s }, UserAction::Start)
    } else {
        match p {
            SpecPoll::Pending => (s, UserAction::Wait),
            SpecPoll::Success(v) => (
                SchedView { users: v, ..s },
                UserAction::Deliver { clear: s.users.len() as usize },
            ),
            SpecPoll::Failure => (s, UserAction::Failed),
        }
    }
}

/// The mathematical content of a [`MessageAction`].
pub enum SpecMessageAction {
    /// The stream rests.
    NoPeer,
    /// Issue a fetch for this peer.
    Start {
        /// The selected peer.
        peer: Seq<u8>,
    },
    /// Keep polling the same fetch.
    Wait,
    /// Render the feed and issue the next fetch for this peer.
    Deliver {
        /// The currently selected peer.
        peer: Seq<u8>,
    },
    /// Report the failure and issue the next fetch for this peer.
    Failed {
        /// The currently selected peer.
        peer: Seq<u8>,
    },
}

impl View for MessageAction {
    type V = SpecMessageAction;

    open spec fn view(&self) -> SpecMessageAction {
        match self {
            MessageAction::NoPeer => SpecMessageAction::NoPeer,
            MessageAction::Start { peer } => SpecMessageAction::Start { peer: peer@ },
            MessageAction::Wait => SpecMessageAction::Wait,
            MessageAction::Deliver { peer } => SpecMessageAction::Deliver { peer: peer@ },
            MessageAction::Failed { peer } => SpecMessageAction::Failed { peer: peer@ },
        }
    }
}

/// One tick of the message stream: the next state and the action owed.
///
/// With no selected peer the stream rests untouched — the event loop leaves
/// any outstanding fetch unpolled then, so the observation is `Pending` (the
/// tick method's precondition).  Otherwise: idle starts a fetch for the
/// selected peer; a pending fetch is left alone; a completed fetch — even
/// one issued for a peer no longer selected — replaces the feed, records
/// whose conversation it is, and is immediately re-issued for the currently
/// selected peer.
pub open spec fn spec_tick_messages(s: SchedView, p: SpecPoll<MessageView>) -> (
    SchedView,
    SpecMessageAction,
) {
    if s.selected >= s.users.len() {
        (s, SpecMessageAction::NoPeer)
    } else {
        let current = s.users[s.selected as int].id;
        match s.msg_peer {
            Option::None => (
                SchedView { msg_peer: Option::Some(current), ..s },
                SpecMessageAction::Start { peer: current },
            ),
            Option::Some(inflight_for) => match p {
                SpecPoll::Pending => (s, SpecMessageAction::Wait),
                SpecPoll::Success(v) => (
                    SchedView {
                        messages: v,
                        messages_peer: Option::Some(inflight_for),
                        msg_peer: Option::Some(current),
                        ..s
                    },
                    SpecMessageAction::Deliver { peer: current },
                ),
                SpecPoll::Failure => (
                    SchedView { msg_peer: Option::Some(current), ..s },
                    SpecMessageAction::Failed { peer: current },
                ),
            },
        }
    }
}

/// The user-list stream's state after a sequence of ticks, one per observed
/// poll outcome.
pub open spec fn spec_run_user_ticks(s: SchedView, polls: Seq<SpecPoll<UserDataView>>) -> SchedView
    decreases polls.len(),
{
    if polls.len() == 0 {
        s
    } else {
        spec_run_user_ticks(spec_tick_users(s, polls[0]).0, polls.drop_first())
    }
}

/// How many of a sequence of ticks deliver to the renderer.
pub open spec fn user_deliveries(s: SchedView, polls: Seq<SpecPoll<UserDataView>>) -> nat
    decreases polls.len(),
{
    if polls.len() == 0 {
        0
    } else {
        (if spec_tick_users(s, polls[0]).1 is Deliver {
            1nat
        } else {
            0nat
        }) + user_deliveries(spec_tick_users(s, polls[0]).0, polls.drop_first())
    }
}

/// How many poll outcomes in a sequence are completed successful fetches.
pub open spec fn successes(polls: Seq<SpecPoll<UserDataView>>) -> nat
    decreases polls.len(),
{
    if polls.len() == 0 {
        0
    } else {
        (if polls[0] is Success {
            1nat
        } else {
            0nat
        }) + successes(polls.drop_first())
    }
}

/// Across any run of ticks, the renderer is invoked exactly once per
/// successfully completed fetch and never on an intermediate pending tick.
/// (The one validity condition: while nothing is outstanding yet, the event
/// loop can only have observed `Pending`.)
pub proof fn lemma_renders_once_per_completion(s: SchedView, polls: Seq<SpecPoll<UserDataView>>)
    requires
        !s.user_inflight && polls.len() > 0 ==> polls[0] is Pending,
    ensures
        user_deliveries(s, polls) == successes(polls),
    decreases polls.len(),
{
    if polls.len() > 0 {
        let s1 = spec_tick_users(s, polls[0]).0;
        assert(s1.user_inflight);
        lemma_renders_once_per_completion(s1, polls.drop_first());
    }
}

/// A pending tick of an in-flight stream changes nothing: the stored list,
/// the selection and the outstanding fetch all stay as they are, and the
/// only action owed is to keep waiting.
pub proof fn lemma_pending_tick_is_quiet(s: SchedView, p: SpecPoll<UserDataView>)
    requires
        s.user_inflight,
        p is Pending,
    ensures
        spec_tick_users(s, p).0 == s,
        spec_tick_users(s, p).1 == UserAction::Wait,
{
}

/// Changing the selected peer while a message fetch is in flight is safe and
/// takes effect at the first completion: the fetch issued then already
/// targets the peer selected now, and by the following completion the feed
/// holds that peer's conversation.
pub proof fn lemma_selection_applies_after_completion(
    s: SchedView,
    first: SpecPoll<MessageView>,
    second: SpecPoll<MessageView>,
)
    requires
        s.selected < s.users.len(),
        s.msg_peer is Some,
        first is Success,
        second is Success,
    ensures
        spec_tick_messages(s, first).0.msg_peer == Option::Some(s.users[s.selected as int].id),
        spec_tick_messages(spec_tick_messages(s, first).0, second).0.messages_peer
            == Option::Some(s.users[s.selected as int].id),
{
}

/// A message tick never touches the user list or the selection, so the two
/// streams advance independently.
pub proof fn lemma_message_tick_leaves_users(s: SchedView, p: SpecPoll<MessageView>)
    ensures
        spec_tick_messages(s, p).0.users == s.users,
        spec_tick_messages(s, p).0.selected == s.selected,
        spec_tick_messages(s, p).0.user_inflight == s.user_inflight,
{
}

/// The feed is rendered exactly once per completed message fetch and never
/// on a pending tick.  (The validity conditions are the tick method's own:
/// nothing outstanding cannot complete, and while no peer is selected the
/// fetch is left unpolled, so only `Pending` is observed then.)
pub proof fn lemma_message_renders_once_per_completion(s: SchedView, p: SpecPoll<MessageView>)
    requires
        s.msg_peer is None ==> p is Pending,
        s.selected >= s.users.len() ==> p is Pending,
    ensures
        spec_tick_messages(s, p).1 is Deliver <==> p is Success,
{
}

/// Which pane of the terminal UI holds the focus.
#[derive(Clone, Copy, Debug, PartialEq, Eq, Structural)]
pub enum Selected {
    /// The contact sidebar.
    Sidebar,
    /// The text-entry pane.
    Input,
    /// The message feed.
    Feed,
    /// The contact-name bar.
    Namebar,
}

/// The pane after the focus moves on: sidebar, input, feed, name bar, and
/// around again.
pub open spec fn spec_rotate(s: Selected) -> Selected {
    match s {
        Selected::Sidebar => Selected::Input,
        Selected::Input => Selected::Feed,
        Selected::Feed => Selected::Namebar,
        Selected::Namebar => Selected::Sidebar,
    }
}

impl Selected {
    /// Moves the focus to the next pane in the fixed cycle.
    pub fn rotate(&mut self)
        ensures
            *final(self) == spec_rotate(*old(self)),
    {
        match *self {
            Selected::Sidebar => {
                *self = Selected::Input;
            },
            Selected::Input => {
                *self = Selected::Feed;
            },
            Selected::Feed => {
                *self = Selected::Namebar;
            },
            Selected::Namebar => {
                *self = Selected::Sidebar;
            },
        }
    }
}

impl Scheduler {
    /// A fresh scheduler: nothing fetched, nothing in flight, the first peer
    /// selected.  The first tick of each stream starts its first fetch.
    pub fn new() -> (s: Scheduler)
        ensures
            s@ == (SchedView {
                users: Seq::empty(),
                messages: Seq::empty(),
                selected: 0,
                user_inflight: false,
                msg_peer: Option::None,
                messages_peer: Option::None,
            }),
    {
        let s = Scheduler {
            users: Vec::new(),
            messages: Vec::new(),
            selected: 0,
            user_inflight: false,
            msg_peer: Option::None,
            messages_peer: Option::None,
        };
        proof {
            assert(user_views(s.users@) =~= Seq::<UserDataView>::empty());
            assert(message_views(s.messages@) =~= Seq::<MessageView>::empty());
            assert(s@ =~= SchedView {
                users: Seq::empty(),
                messages: Seq::empty(),
                selected: 0,
                user_inflight: false,
                msg_peer: Option::None,
                messages_peer: Option::None,
            });
        }
        s
    }

    /// One tick of the user-list stream, given what the event loop observed
    /// of the outstanding fetch (`Pending` when none is outstanding).
    ///
    /// The state moves exactly as [`spec_tick_users`] says, and the returned
    /// action is owed: in particular, after any tick a fetch is outstanding,
    /// and `Deliver` comes back exactly when a fetch completed successfully.
    pub fn tick_users(&mut self, poll: FetchPoll<UserData>) -> (a: UserAction)
        requires
            !old(self).user_inflight ==> poll is Pending,
        ensures
            final(self)@ == spec_tick_users(old(self)@, poll@).0,
            a == spec_tick_users(old(self)@, poll@).1,
            final(self).user_inflight,
            a is Deliver <==> (old(self).user_inflight && poll is Success),
    {
        let ghost s0 = self@;
        if !self.user_inflight {
            self.user_inflight = true;
            proof {
                assert(self@ =~= spec_tick_users(s0, poll@).0);
            }
            UserAction::Start
        } else {
            match poll {
                FetchPoll::Pending => {
                    proof {
                        assert(self@ =~= spec_tick_users(s0, poll@).0);
                    }
                    UserAction::Wait
                },
                FetchPoll::Success(v) => {
                    let clear = self.users.len();
                    self.users = v;
                    proof {
                        assert(self@ =~= spec_tick_users(s0, poll@).0);
                    }
                    UserAction::Deliver { clear }
                },
                FetchPoll::Failure => {
                    proof {
                        assert(self@ =~= spec_tick_users(s0, poll@).0);
                    }
                    UserAction::Failed
                },
            }
        }
    }

    /// One tick of the message stream, given what the event loop observed of
    /// the outstanding fetch (`Pending` when none is outstanding).
    ///
    /// While no peer is selected the loop must not observe the fetch at all:
    /// it leaves the fetch unpolled and hands in `Pending`, so a completed
    /// result is never discarded — it is delivered on the first tick at
    /// which a peer is selected again.  The state moves exactly as
    /// [`spec_tick_messages`] says, and the returned action is owed:
    /// whenever a fetch completes, the next one is issued for the peer
    /// selected now — not the peer the completed fetch was issued for — so a
    /// selection change takes effect at the first completion after it, and
    /// the feed is rendered exactly once per completed fetch.
    pub fn tick_messages(&mut self, poll: FetchPoll<Message>) -> (a: MessageAction)
        requires
            old(self).msg_peer is None ==> poll is Pending,
            old(self).selected >= old(self).users.len() ==> poll is Pending,
        ensures
            final(self)@ == spec_tick_messages(old(self)@, poll@).0,
            a@ == spec_tick_messages(old(self)@, poll@).1,
            a is Deliver <==> poll is Success,
    {
        let ghost s0 = self@;
        if self.selected >= self.users.len() {
            proof {
                assert(self@ =~= spec_tick_messages(s0, poll@).0);
            }
            return MessageAction::NoPeer;
        }
        let current = self.users[self.selected].id;
        proof {
            assert(current@ == s0.users[s0.selected as int].id);
        }
        match self.msg_peer {
            Option::None => {
                self.msg_peer = Option::Some(current);
                proof {
                    assert(self@ =~= spec_tick_messages(s0, poll@).0);
                }
                MessageAction::Start { peer: current }
            },
            Option::Some(_) => {
                match poll {
                    FetchPoll::Pending => {
                        proof {
                            assert(self@ =~= spec_tick_messages(s0, poll@).0);
                        }
                        MessageAction::Wait
                    },
                    FetchPoll::Success(v) => {
                        self.messages = v;
                        self.messages_peer = self.msg_peer;
                        self.msg_peer = Option::Some(current);
                        proof {
                            assert(self@ =~= spec_tick_messages(s0, poll@).0);
                        }
                        MessageAction::Deliver { peer: current }
                    },
                    FetchPoll::Failure => {
                        self.msg_peer = Option::Some(current);
                        proof {
                            assert(self@ =~= spec_tick_messages(s0, poll@).0);
                        }
                        MessageAction::Failed { peer: current }
                    },
                }
            },
        }
    }

    /// Moves the sidebar selection one row up, staying put at the top.
    /// Nothing else changes.
    pub fn select_previous(&mut self)
        ensures
            old(self).selected > 0 ==> final(self).selected == old(self).selected - 1,
            old(self).selected == 0 ==> final(self).selected == 0,
            final(self)@ == (SchedView { selected: final(self).selected, ..old(self)@ }),
    {
        if self.selected > 0 {
            self.selected = self.selected - 1;
        }
        proof {
            assert(self@ =~= SchedView { selected: self.selected, ..old(self)@ });
        }
    }
}

} // verus!
