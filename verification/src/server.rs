//! The session server as a state machine: connections go from connecting
//! to joined to leaving to closed, and every event yields the messages to
//! send and the transports to close.

use std::collections::HashSet;
use vstd::prelude::*;
use vstd::std_specs::hash::*;
use crate::error::SessionError;
use crate::protocol::{ClientId, ClientMessage, PlayerPosition, ServerMessage, UserId};
use crate::registry::{
    connection_of_user, distinct_ids, has_id, ids, index_of, inserted, modified, removed,
    repositioned, PlayerSession, SessionRegistry,
};
use crate::timer::BroadcastTimer;

verus! {

/// Where a connection stands in its life.
#[derive(Clone, Copy, Debug, PartialEq, Eq, Structural)]
pub enum ConnectionPhase {
    /// The transport is up; no join has been accepted yet.
    Connecting,
    /// The connection has a session in the registry.
    Joined,
    /// The session is gone and the transport is being torn down.
    Leaving,
    /// No transport: never seen, or torn down. The id may be used again.
    Closed,
}

/// What the embedding loop has to do after an event.
#[derive(Debug, PartialEq, Eq)]
pub enum Action {
    /// Send `message` to each connection of `to`.
    Send { to: Vec<ClientId>, message: ServerMessage },
    /// Tear down the transport of `client_id`, then report it closed.
    Close { client_id: ClientId },
}

/// An [`Action`] as a value: the recipients as a sequence.
pub enum ActionView {
    Send { to: Seq<ClientId>, message: ServerMessage },
    Close { client_id: ClientId },
}

impl View for Action {
    type V = ActionView;

    open spec fn view(&self) -> ActionView {
        match *self {
            Action::Send { to, message } => ActionView::Send { to: to@, message },
            Action::Close { client_id } => ActionView::Close { client_id },
        }
    }
}

/// The values of a list of actions, in order.
pub open spec fn views(actions: Seq<Action>) -> Seq<ActionView> {
    actions.map_values(|a: Action| a@)
}

/// What a join yields: the newcomer is announced to every session that was
/// there before, then each of those is announced to the newcomer alone.
pub open spec fn join_actions(before: Seq<PlayerSession>, client_id: ClientId, user_id: UserId) -> Seq<ActionView> {
    seq![
        ActionView::Send {
            to: ids(before),
            message: ServerMessage::ClientConnected { client_id, user_id },
        },
    ] + Seq::new(
        before.len(),
        |i: int|
            ActionView::Send {
                to: seq![client_id],
                message: ServerMessage::ClientConnected {
                    client_id: before[i].player.client_id,
                    user_id: before[i].player.user_id,
                },
            },
    )
}

/// What the end of a session yields: the sessions that remain are told,
/// then the transport is closed.
pub open spec fn leave_actions(remaining: Seq<PlayerSession>, client_id: ClientId) -> Seq<ActionView> {
    seq![
        ActionView::Send { to: ids(remaining), message: ServerMessage::ClientDisconnected { client_id } },
        ActionView::Close { client_id },
    ]
}

/// One message to every session.
pub open spec fn to_all(sessions: Seq<PlayerSession>, message: ServerMessage) -> Seq<ActionView> {
    seq![ActionView::Send { to: ids(sessions), message }]
}

/// The periodic broadcast: the position of every session, in joining
/// order, each to every session.
pub open spec fn position_actions(sessions: Seq<PlayerSession>) -> Seq<ActionView> {
    Seq::new(
        sessions.len(),
        |i: int|
            ActionView::Send {
                to: ids(sessions),
                message: ServerMessage::UpdatePosition {
                    client_id: sessions[i].player.client_id,
                    position: sessions[i].position,
                },
            },
    )
}

/// The state of a session server as a value.
pub struct ServerState {
    /// The joined sessions, in joining order.
    pub sessions: Seq<PlayerSession>,
    /// The connections that have not joined yet.
    pub connecting: Set<ClientId>,
    /// The connections whose transport is being torn down.
    pub leaving: Set<ClientId>,
    /// The timer of the periodic broadcast.
    pub timer: BroadcastTimer,
}

impl ServerState {
    /// No connection is in two phases at once, no two sessions share a
    /// connection, and the timer is in order.
    pub open spec fn wf(self) -> bool {
        &&& distinct_ids(self.sessions)
        &&& forall|c: ClientId| !(has_id(self.sessions, c) && self.connecting.contains(c))
        &&& forall|c: ClientId| !(has_id(self.sessions, c) && self.leaving.contains(c))
        &&& forall|c: ClientId| !(self.connecting.contains(c) && self.leaving.contains(c))
        &&& self.timer.wf()
    }

    /// The phase of a connection.
    pub open spec fn phase(self, c: ClientId) -> ConnectionPhase {
        if has_id(self.sessions, c) {
            ConnectionPhase::Joined
        } else if self.connecting.contains(c) {
            ConnectionPhase::Connecting
        } else if self.leaving.contains(c) {
            ConnectionPhase::Leaving
        } else {
            ConnectionPhase::Closed
        }
    }

    /// The state after the transport accepted connection `c`.
    pub open spec fn accepted(self, c: ClientId) -> ServerState {
        if self.phase(c) == ConnectionPhase::Closed {
            ServerState { connecting: self.connecting.insert(c), ..self }
        } else {
            self
        }
    }

    /// The state after connection `c` has left, for whatever reason: its
    /// session is gone and it waits for its transport to close. A
    /// connection that is leaving or closed stays as it is.
    pub open spec fn left(self, c: ClientId) -> ServerState {
        match self.phase(c) {
            ConnectionPhase::Joined => ServerState {
                sessions: removed(self.sessions, c),
                leaving: self.leaving.insert(c),
                ..self
            },
            ConnectionPhase::Connecting => ServerState {
                connecting: self.connecting.remove(c),
                leaving: self.leaving.insert(c),
                ..self
            },
            _ => self,
        }
    }

    /// What has to be done when connection `c` leaves: a joined one is
    /// reported to the rest and closed, a connecting one is closed, and one
    /// that is leaving or closed needs nothing more.
    pub open spec fn leave_effects(self, c: ClientId) -> Seq<ActionView> {
        match self.phase(c) {
            ConnectionPhase::Joined => leave_actions(removed(self.sessions, c), c),
            ConnectionPhase::Connecting => seq![ActionView::Close { client_id: c }],
            _ => Seq::empty(),
        }
    }

    /// The state after `error` was held against connection `c`.
    pub open spec fn failed(self, c: ClientId, error: SessionError) -> ServerState {
        if error.spec_ends_connection() {
            self.left(c)
        } else {
            self
        }
    }

    /// What has to be done when `error` was held against connection `c`.
    pub open spec fn failure_effects(self, c: ClientId, error: SessionError) -> Seq<ActionView> {
        if error.spec_ends_connection() {
            self.leave_effects(c)
        } else {
            Seq::empty()
        }
    }

    /// The state after `message` arrived on connection `c`.
    pub open spec fn after_message(self, c: ClientId, message: ClientMessage) -> ServerState {
        match self.phase(c) {
            ConnectionPhase::Connecting => match message {
                ClientMessage::Join { user_id } => ServerState {
                    sessions: inserted(self.sessions, c, user_id),
                    connecting: self.connecting.remove(c),
                    ..self
                },
                _ => self,
            },
            ConnectionPhase::Joined => match message {
                ClientMessage::Join { .. } => self,
                ClientMessage::Disconnect => self.left(c),
                ClientMessage::ChatMessage { .. } => self,
                ClientMessage::UpdatePosition { position } => ServerState {
                    sessions: repositioned(self.sessions, c, position),
                    ..self
                },
                ClientMessage::SendModifier(modifier) => ServerState {
                    sessions: modified(self.sessions, c, modifier),
                    ..self
                },
            },
            _ => self,
        }
    }

    /// What has to be done when `message` arrived on connection `c`.
    pub open spec fn message_effects(self, c: ClientId, message: ClientMessage) -> Seq<ActionView> {
        match self.phase(c) {
            ConnectionPhase::Connecting => match message {
                ClientMessage::Join { user_id } => join_actions(self.sessions, c, user_id),
                _ => Seq::empty(),
            },
            ConnectionPhase::Joined => match message {
                ClientMessage::Join { .. } => Seq::empty(),
                ClientMessage::Disconnect => self.leave_effects(c),
                ClientMessage::ChatMessage { message } => to_all(
                    self.sessions,
                    ServerMessage::ChatMessage { client_id: c, message },
                ),
                ClientMessage::UpdatePosition { position } => to_all(
                    self.sessions,
                    ServerMessage::UpdatePosition { client_id: c, position },
                ),
                ClientMessage::SendModifier(modifier) => to_all(
                    self.sessions,
                    ServerMessage::SendModifier { client_id: c, key_code: modifier },
                ),
            },
            _ => Seq::empty(),
        }
    }

    /// The state once the transport of connection `c` is torn down.
    pub open spec fn closed(self, c: ClientId) -> ServerState {
        ServerState { leaving: self.leaving.remove(c), ..self }
    }

    /// The state after the periodic tick of `delta` nanoseconds.
    pub open spec fn ticked(self, delta: u64) -> ServerState {
        ServerState { timer: self.timer.ticked(delta), ..self }
    }

    /// What a tick of `delta` nanoseconds asks for: the position broadcast
    /// where the timer finishes, nothing otherwise.
    pub open spec fn tick_effects(self, delta: u64) -> Seq<ActionView> {
        if self.timer.finishes(delta) {
            position_actions(self.sessions)
        } else {
            Seq::empty()
        }
    }

    /// The state after a kick of `user_id`: the user's first session leaves.
    pub open spec fn after_kick(self, user_id: UserId) -> ServerState {
        match connection_of_user(self.sessions, user_id) {
            Some(c) => self.left(c),
            None => self,
        }
    }

    /// What a kick of `user_id` asks for.
    pub open spec fn kick_effects(self, user_id: UserId) -> Seq<ActionView> {
        match connection_of_user(self.sessions, user_id) {
            Some(c) => self.leave_effects(c),
            None => Seq::empty(),
        }
    }
}

/// The session server: the registry of joined players, the connections
/// that are on their way in or out, and the broadcast timer.
pub struct SessionServer {
    registry: SessionRegistry,
    connecting: HashSet<ClientId>,
    leaving: HashSet<ClientId>,
    timer: BroadcastTimer,
}

impl View for SessionServer {
    type V = ServerState;

    closed spec fn view(&self) -> ServerState {
        ServerState {
            sessions: self.registry@,
            connecting: self.connecting@,
            leaving: self.leaving@,
            timer: self.timer,
        }
    }
}

impl SessionServer {
    #[verifier::type_invariant]
    spec fn well_formed(self) -> bool {
        self@.wf()
    }

    /// A server without connections whose broadcast timer has the given
    /// period in nanoseconds.
    pub fn new(broadcast_period: u64) -> (s: SessionServer)
        ensures
            s@ == (ServerState {
                sessions: Seq::empty(),
                connecting: Set::empty(),
                leaving: Set::empty(),
                timer: BroadcastTimer { period: broadcast_period, elapsed: 0 },
            }),
            s@.wf(),
    {
        SessionServer {
            registry: SessionRegistry::new(),
            connecting: HashSet::new(),
            leaving: HashSet::new(),
            timer: BroadcastTimer::new(broadcast_period),
        }
    }

    /// Moves the parts out and leaves an empty server behind for the moment.
    fn take(&mut self) -> (parts: (SessionRegistry, HashSet<ClientId>, HashSet<ClientId>, BroadcastTimer))
        ensures
            old(self)@.wf(),
            parts.0@ == old(self)@.sessions,
            parts.1@ == old(self)@.connecting,
            parts.2@ == old(self)@.leaving,
            parts.3 == old(self)@.timer,
    {
        proof {
            use_type_invariant(&*self);
        }
        let mut other = SessionServer::new(0);
        core::mem::swap(self, &mut other);
        let SessionServer { registry, connecting, leaving, timer } = other;
        (registry, connecting, leaving, timer)
    }

    /// Moves parts that fit together back in.
    fn put(
        &mut self,
        registry: SessionRegistry,
        connecting: HashSet<ClientId>,
        leaving: HashSet<ClientId>,
        timer: BroadcastTimer,
    )
        requires
            (ServerState { sessions: registry@, connecting: connecting@, leaving: leaving@, timer }).wf(),
        ensures
            final(self)@ == (ServerState {
                sessions: registry@,
                connecting: connecting@,
                leaving: leaving@,
                timer,
            }),
            final(self)@.wf(),
    {
        let mut other = SessionServer { registry, connecting, leaving, timer };
        core::mem::swap(self, &mut other);
    }

    /// The phase of a connection.
    pub fn phase(&self, client_id: ClientId) -> (p: ConnectionPhase)
        ensures
            p == self@.phase(client_id),
            self@.wf(),
    {
        broadcast use group_hash_axioms;

        proof {
            use_type_invariant(self);
        }
        if self.registry.contains(client_id) {
            ConnectionPhase::Joined
        } else if self.connecting.contains(&client_id) {
            ConnectionPhase::Connecting
        } else if self.leaving.contains(&client_id) {
            ConnectionPhase::Leaving
        } else {
            ConnectionPhase::Closed
        }
    }

    /// The joined sessions.
    pub fn registry(&self) -> (r: &SessionRegistry)
        ensures
            r@ == self@.sessions,
    {
        &self.registry
    }

    /// Takes note of a connection that the transport accepted. An id that
    /// is still connecting, joined or leaving is refused and nothing changes.
    pub fn accept(&mut self, client_id: ClientId) -> (r: Result<(), SessionError>)
        ensures
            r == (if old(self)@.phase(client_id) == ConnectionPhase::Closed {
                Ok::<(), SessionError>(())
            } else {
                Err::<(), SessionError>(SessionError::DuplicateConnection)
            }),
            final(self)@ == old(self)@.accepted(client_id),
            final(self)@.wf(),
    {
        broadcast use group_hash_axioms;

        if let ConnectionPhase::Closed = self.phase(client_id) {
            let (registry, mut connecting, leaving, timer) = self.take();
            connecting.insert(client_id);
            self.put(registry, connecting, leaving, timer);
            Ok(())
        } else {
            Err(SessionError::DuplicateConnection)
        }
    }

    /// Ends whatever connection `client_id` has: see [`ServerState::left`]
    /// and [`ServerState::leave_effects`].
    fn leave(&mut self, client_id: ClientId) -> (actions: Vec<Action>)
        ensures
            final(self)@ == old(self)@.left(client_id),
            views(actions@) == old(self)@.leave_effects(client_id),
            final(self)@.wf(),
    {
        broadcast use group_hash_axioms;

        let phase = self.phase(client_id);
        let mut actions: Vec<Action> = Vec::new();
        match phase {
            ConnectionPhase::Joined => {
                let (mut registry, connecting, mut leaving, timer) = self.take();
                let _ = registry.remove(client_id);
                leaving.insert(client_id);
                let to = registry.client_ids();
                proof {
                    lemma_removed_ids(old(self)@.sessions, client_id);
                }
                self.put(registry, connecting, leaving, timer);
                actions.push(Action::Send { to, message: ServerMessage::ClientDisconnected { client_id } });
                actions.push(Action::Close { client_id });
            },
            ConnectionPhase::Connecting => {
                let (registry, mut connecting, mut leaving, timer) = self.take();
                connecting.remove(&client_id);
                leaving.insert(client_id);
                self.put(registry, connecting, leaving, timer);
                actions.push(Action::Close { client_id });
            },
            _ => {},
        }
        assert(views(actions@) =~= old(self)@.leave_effects(client_id));
        actions
    }

    /// Something failed on a connection: its transport is gone, what it
    /// sent could not be read, or it broke the protocol. The connection
    /// leaves and nothing else is touched; repeating the call changes
    /// nothing. A failure that concerns the directory ends no connection.
    pub fn connection_failed(&mut self, client_id: ClientId, error: SessionError) -> (actions: Vec<Action>)
        ensures
            final(self)@ == old(self)@.failed(client_id, error),
            views(actions@) == old(self)@.failure_effects(client_id, error),
            final(self)@.wf(),
    {
        if error.ends_connection() {
            self.leave(client_id)
        } else {
            proof {
                use_type_invariant(&*self);
            }
            Self::nothing()
        }
    }

    /// One message for every joined session.
    fn send_to_all(&self, message: ServerMessage) -> (actions: Vec<Action>)
        ensures
            views(actions@) == to_all(self@.sessions, message),
    {
        let to = self.registry.client_ids();
        let mut actions: Vec<Action> = Vec::new();
        actions.push(Action::Send { to, message });
        assert(views(actions@) =~= to_all(self@.sessions, message));
        actions
    }

    /// Admits a connecting client: creates its session, announces it to
    /// the sessions that were there and those to it.
    fn join(&mut self, client_id: ClientId, user_id: UserId) -> (actions: Vec<Action>)
        requires
            old(self)@.phase(client_id) == ConnectionPhase::Connecting,
        ensures
            final(self)@ == (ServerState {
                sessions: inserted(old(self)@.sessions, client_id, user_id),
                connecting: old(self)@.connecting.remove(client_id),
                ..old(self)@
            }),
            views(actions@) == join_actions(old(self)@.sessions, client_id, user_id),
            final(self)@.wf(),
    {
        broadcast use group_hash_axioms;

        let (mut registry, mut connecting, leaving, timer) = self.take();
        let before = registry.snapshot();
        let others = registry.client_ids();
        let _ = registry.insert(client_id, user_id);
        connecting.remove(&client_id);
        proof {
            lemma_inserted_ids(old(self)@.sessions, client_id, user_id);
            assert(connecting@ == old(self)@.connecting.remove(client_id));
        }
        self.put(registry, connecting, leaving, timer);
        let mut actions: Vec<Action> = Vec::new();
        actions.push(Action::Send { to: others, message: ServerMessage::ClientConnected { client_id, user_id } });
        let ghost expected = join_actions(old(self)@.sessions, client_id, user_id);
        let mut i: usize = 0;
        while i < before.len()
            invariant
                i <= before@.len(),
                before@.len() == old(self)@.sessions.len(),
                forall|k: int|
                    0 <= k < before@.len() ==> #[trigger] before@[k] == (
                        old(self)@.sessions[k].player.client_id,
                        old(self)@.sessions[k],
                    ),
                expected == join_actions(old(self)@.sessions, client_id, user_id),
                actions@.len() == i + 1,
                forall|k: int| 0 <= k < actions@.len() ==> (#[trigger] actions@[k])@ == expected[k],
            decreases before@.len() - i,
        {
            let peer = before[i].1;
            let mut to: Vec<ClientId> = Vec::new();
            to.push(client_id);
            assert(to@ =~= seq![client_id]);
            actions.push(
                Action::Send {
                    to,
                    message: ServerMessage::ClientConnected {
                        client_id: peer.player.client_id,
                        user_id: peer.player.user_id,
                    },
                },
            );
            i = i + 1;
        }
        assert(views(actions@) =~= expected);
        actions
    }

    /// Handles one message that arrived on a connection. A connecting
    /// client can only join; a joined one can chat, move and disconnect; a
    /// message that does not fit the phase is ignored.
    pub fn handle_message(&mut self, client_id: ClientId, message: ClientMessage) -> (actions: Vec<Action>)
        ensures
            final(self)@ == old(self)@.after_message(client_id, message),
            views(actions@) == old(self)@.message_effects(client_id, message),
            final(self)@.wf(),
    {
        let phase = self.phase(client_id);
        match phase {
            ConnectionPhase::Connecting => match message {
                ClientMessage::Join { user_id } => self.join(client_id, user_id),
                _ => Self::nothing(),
            },
            ConnectionPhase::Joined => match message {
                ClientMessage::Join { .. } => Self::nothing(),
                ClientMessage::Disconnect => self.leave(client_id),
                ClientMessage::ChatMessage { message } => self.send_to_all(
                    ServerMessage::ChatMessage { client_id, message },
                ),
                ClientMessage::UpdatePosition { position } => {
                    let _ = self.set_position(client_id, position);
                    proof {
                        lemma_updated_ids(
                            old(self)@.sessions,
                            index_of(old(self)@.sessions, client_id),
                            self@.sessions[index_of(old(self)@.sessions, client_id)],
                        );
                    }
                    self.send_to_all(ServerMessage::UpdatePosition { client_id, position })
                },
                ClientMessage::SendModifier(modifier) => {
                    let (mut registry, connecting, leaving, timer) = self.take();
                    let _ = registry.apply_modifier(client_id, modifier);
                    proof {
                        lemma_updated_ids(
                            old(self)@.sessions,
                            index_of(old(self)@.sessions, client_id),
                            registry@[index_of(old(self)@.sessions, client_id)],
                        );
                    }
                    self.put(registry, connecting, leaving, timer);
                    self.send_to_all(ServerMessage::SendModifier { client_id, key_code: modifier })
                },
            },
            _ => Self::nothing(),
        }
    }

    /// Nothing to do.
    fn nothing() -> (actions: Vec<Action>)
        ensures
            views(actions@) == Seq::<ActionView>::empty(),
    {
        let actions: Vec<Action> = Vec::new();
        assert(views(actions@) =~= Seq::<ActionView>::empty());
        actions
    }

    /// Overwrites the position of a joined connection without telling
    /// anyone; the next periodic broadcast carries it.
    pub fn set_position(&mut self, client_id: ClientId, position: PlayerPosition) -> (r: Result<(), SessionError>)
        ensures
            r == (if old(self)@.phase(client_id) == ConnectionPhase::Joined {
                Ok::<(), SessionError>(())
            } else {
                Err::<(), SessionError>(SessionError::UnknownConnection)
            }),
            final(self)@ == (ServerState {
                sessions: repositioned(old(self)@.sessions, client_id, position),
                ..old(self)@
            }),
            final(self)@.wf(),
    {
        let (mut registry, connecting, leaving, timer) = self.take();
        let r = registry.apply_position(client_id, position);
        proof {
            if has_id(old(self)@.sessions, client_id) {
                lemma_updated_ids(
                    old(self)@.sessions,
                    index_of(old(self)@.sessions, client_id),
                    registry@[index_of(old(self)@.sessions, client_id)],
                );
            }
        }
        self.put(registry, connecting, leaving, timer);
        r
    }

    /// Evicts a user: the first session that belongs to `user_id` leaves as
    /// if its connection had failed. Nothing happens where the user has none.
    pub fn kick(&mut self, user_id: UserId) -> (actions: Vec<Action>)
        ensures
            final(self)@ == old(self)@.after_kick(user_id),
            views(actions@) == old(self)@.kick_effects(user_id),
            final(self)@.wf(),
    {
        proof {
            use_type_invariant(&*self);
        }
        match self.registry.find_by_user(user_id) {
            Some(client_id) => self.leave(client_id),
            None => Self::nothing(),
        }
    }

    /// The position of every session for every session.
    pub fn broadcast_positions(&self) -> (actions: Vec<Action>)
        ensures
            views(actions@) == position_actions(self@.sessions),
    {
        let sessions = self.registry.snapshot();
        let mut actions: Vec<Action> = Vec::new();
        let mut i: usize = 0;
        while i < sessions.len()
            invariant
                i <= sessions@.len(),
                sessions@.len() == self@.sessions.len(),
                forall|k: int|
                    0 <= k < sessions@.len() ==> #[trigger] sessions@[k] == (
                        self@.sessions[k].player.client_id,
                        self@.sessions[k],
                    ),
                actions@.len() == i,
                forall|k: int|
                    0 <= k < i ==> (#[trigger] actions@[k])@ == position_actions(self@.sessions)[k],
            decreases sessions@.len() - i,
        {
            let session = sessions[i].1;
            let to = self.registry.client_ids();
            actions.push(
                Action::Send {
                    to,
                    message: ServerMessage::UpdatePosition {
                        client_id: session.player.client_id,
                        position: session.position,
                    },
                },
            );
            i = i + 1;
        }
        assert(views(actions@) =~= position_actions(self@.sessions));
        actions
    }

    /// Lets `delta` nanoseconds pass on the broadcast timer and yields the
    /// periodic position broadcast whenever the timer finishes.
    pub fn tick(&mut self, delta: u64) -> (actions: Vec<Action>)
        ensures
            final(self)@ == old(self)@.ticked(delta),
            views(actions@) == old(self)@.tick_effects(delta),
            final(self)@.wf(),
    {
        let (registry, connecting, leaving, timer) = self.take();
        let mut timer = timer;
        let finished = timer.tick(delta);
        proof {
            crate::timer::lemma_tick_keeps_wf(old(self)@.timer, delta);
            assert(timer.wf());
        }
        self.put(registry, connecting, leaving, timer);
        if finished {
            self.broadcast_positions()
        } else {
            Self::nothing()
        }
    }

    /// The user and the position of every joined session, in joining order.
    pub fn players(&self) -> (v: Vec<(UserId, PlayerPosition)>)
        ensures
            v@.len() == self@.sessions.len(),
            forall|i: int|
                0 <= i < v@.len() ==> #[trigger] v@[i] == (
                    self@.sessions[i].player.user_id,
                    self@.sessions[i].position,
                ),
    {
        let sessions = self.registry.snapshot();
        let mut v: Vec<(UserId, PlayerPosition)> = Vec::new();
        let mut i: usize = 0;
        while i < sessions.len()
            invariant
                i <= sessions@.len(),
                sessions@.len() == self@.sessions.len(),
                forall|k: int|
                    0 <= k < sessions@.len() ==> #[trigger] sessions@[k] == (
                        self@.sessions[k].player.client_id,
                        self@.sessions[k],
                    ),
                v@.len() == i,
                forall|k: int|
                    0 <= k < i ==> #[trigger] v@[k] == (
                        self@.sessions[k].player.user_id,
                        self@.sessions[k].position,
                    ),
            decreases sessions@.len() - i,
        {
            let session = sessions[i].1;
            v.push((session.player.user_id, session.position));
            i = i + 1;
        }
        v
    }

    /// The transport of a leaving connection is torn down: the connection
    /// is closed, and its id may be accepted again.
    pub fn closed(&mut self, client_id: ClientId)
        ensures
            final(self)@ == old(self)@.closed(client_id),
            final(self)@.wf(),
    {
        broadcast use group_hash_axioms;

        let (registry, connecting, mut leaving, timer) = self.take();
        leaving.remove(&client_id);
        self.put(registry, connecting, leaving, timer);
    }
}

/// After an insert exactly the old ids and the new one have a session.
pub proof fn lemma_inserted_ids(s: Seq<PlayerSession>, client_id: ClientId, user_id: UserId)
    ensures
        forall|c: ClientId| has_id(inserted(s, client_id, user_id), c) <==> has_id(s, c) || c == client_id,
{
    let t = inserted(s, client_id, user_id);
    assert forall|c: ClientId| has_id(t, c) <==> has_id(s, c) || c == client_id by {
        if !has_id(s, client_id) {
            if has_id(s, c) {
                let i = choose|i: int| 0 <= i < s.len() && (#[trigger] s[i]).player.client_id == c;
                assert(t[i].player.client_id == c);
            }
            if c == client_id {
                assert(t[s.len() as int].player.client_id == c);
            }
            if has_id(t, c) {
                let i = choose|i: int| 0 <= i < t.len() && (#[trigger] t[i]).player.client_id == c;
                if i < s.len() {
                    assert(s[i].player.client_id == c);
                }
            }
        }
    }
}

/// Replacing a session by one of the same connection changes neither which
/// connections have a session nor their order.
pub proof fn lemma_updated_ids(s: Seq<PlayerSession>, k: int, session: PlayerSession)
    requires
        0 <= k < s.len(),
        session.player.client_id == s[k].player.client_id,
    ensures
        ids(s.update(k, session)) == ids(s),
        forall|c: ClientId| has_id(s.update(k, session), c) <==> has_id(s, c),
        distinct_ids(s) ==> distinct_ids(s.update(k, session)),
{
    let t = s.update(k, session);
    assert(ids(t) =~= ids(s));
    assert forall|c: ClientId| has_id(t, c) <==> has_id(s, c) by {
        if has_id(t, c) {
            let i = choose|i: int| 0 <= i < t.len() && (#[trigger] t[i]).player.client_id == c;
            assert(s[i].player.client_id == c);
        }
        if has_id(s, c) {
            let i = choose|i: int| 0 <= i < s.len() && (#[trigger] s[i]).player.client_id == c;
            assert(t[i].player.client_id == c);
        }
    }
    if distinct_ids(s) {
        assert forall|i: int, j: int| 0 <= i < j < t.len() implies (#[trigger] t[i]).player.client_id != (
        #[trigger] t[j]).player.client_id by {
            assert(s[i].player.client_id != s[j].player.client_id);
        }
    }
}

/// The ids that remain after a remove are the ids of the sessions that remain.
pub proof fn lemma_removed_ids(s: Seq<PlayerSession>, client_id: ClientId)
    requires
        distinct_ids(s),
    ensures
        forall|c: ClientId| has_id(removed(s, client_id), c) <==> has_id(s, c) && c != client_id,
{
    crate::registry::lemma_remove_keeps_distinct(s, client_id);
    let t = removed(s, client_id);
    if has_id(s, client_id) {
        let k = index_of(s, client_id);
        assert forall|c: ClientId| has_id(t, c) <==> has_id(s, c) && c != client_id by {
            if has_id(t, c) {
                let i = choose|i: int| 0 <= i < t.len() && (#[trigger] t[i]).player.client_id == c;
                let si = if i < k { i } else { i + 1 };
                assert(s[si].player.client_id == c);
            }
            if has_id(s, c) && c != client_id {
                let i = choose|i: int| 0 <= i < s.len() && (#[trigger] s[i]).player.client_id == c;
                let ti = if i < k { i } else { i - 1 };
                assert(t[ti].player.client_id == c);
            }
        }
    } else {
        assert forall|c: ClientId| has_id(t, c) <==> has_id(s, c) && c != client_id by {}
    }
}

/// A connection leaves once: after it has left, whatever makes it leave
/// again changes nothing and asks for nothing, so its session is removed
/// and its transport closed exactly once.
pub proof fn lemma_leave_is_idempotent(s: ServerState, c: ClientId)
    requires
        s.wf(),
    ensures
        s.left(c).wf(),
        s.left(c).phase(c) == ConnectionPhase::Leaving || s.left(c).phase(c) == ConnectionPhase::Closed,
        s.phase(c) != ConnectionPhase::Closed ==> s.left(c).phase(c) == ConnectionPhase::Leaving,
        s.left(c).left(c) == s.left(c),
        s.left(c).leave_effects(c) == Seq::<ActionView>::empty(),
        !has_id(s.left(c).sessions, c),
{
    lemma_removed_ids(s.sessions, c);
    crate::registry::lemma_remove_keeps_distinct(s.sessions, c);
}

/// No event breaks the state: whatever is accepted, received, lost, closed
/// or ticked, no connection is in two phases and no two sessions share a
/// connection.
pub proof fn lemma_transitions_keep_wf(s: ServerState, c: ClientId, message: ClientMessage, delta: u64)
    requires
        s.wf(),
    ensures
        s.accepted(c).wf(),
        s.after_message(c, message).wf(),
        s.left(c).wf(),
        s.closed(c).wf(),
        s.ticked(delta).wf(),
{
    lemma_leave_is_idempotent(s, c);
    crate::timer::lemma_tick_keeps_wf(s.timer, delta);
    match message {
        ClientMessage::Join { user_id } => {
            lemma_inserted_ids(s.sessions, c, user_id);
            crate::registry::lemma_insert_keeps_distinct(s.sessions, c, user_id);
        },
        ClientMessage::UpdatePosition { position } => {
            if has_id(s.sessions, c) {
                let k = index_of(s.sessions, c);
                lemma_updated_ids(s.sessions, k, PlayerSession { position, ..s.sessions[k] });
            }
        },
        ClientMessage::SendModifier(modifier) => {
            if has_id(s.sessions, c) {
                let k = index_of(s.sessions, c);
                lemma_updated_ids(
                    s.sessions,
                    k,
                    PlayerSession { movement: s.sessions[k].movement.apply(modifier), ..s.sessions[k] },
                );
            }
        },
        _ => {},
    }
}

/// A connecting client that joins is joined afterwards, with a fresh
/// session at the end of the registry; every other connection keeps its
/// phase.
pub proof fn lemma_join_creates_session(s: ServerState, c: ClientId, user_id: UserId, other: ClientId)
    requires
        s.wf(),
        s.phase(c) == ConnectionPhase::Connecting,
        other != c,
    ensures
        s.after_message(c, ClientMessage::Join { user_id }).phase(c) == ConnectionPhase::Joined,
        s.after_message(c, ClientMessage::Join { user_id }).sessions == s.sessions.push(
            PlayerSession::fresh(c, user_id),
        ),
        s.after_message(c, ClientMessage::Join { user_id }).phase(other) == s.phase(other),
{
    lemma_inserted_ids(s.sessions, c, user_id);
}

/// What a connection sends before it has joined, other than a join, and
/// whatever it sends once it is leaving or closed, changes nothing and
/// reaches nobody.
pub proof fn lemma_misplaced_message_is_ignored(s: ServerState, c: ClientId, message: ClientMessage)
    requires
        s.phase(c) != ConnectionPhase::Joined,
        !(s.phase(c) == ConnectionPhase::Connecting && message is Join),
    ensures
        s.after_message(c, message) == s,
        s.message_effects(c, message) == Seq::<ActionView>::empty(),
{
}

/// Once the transport of a leaving connection is closed its id is free
/// again: it can be accepted anew.
pub proof fn lemma_closed_frees_id(s: ServerState, c: ClientId)
    requires
        s.wf(),
        s.phase(c) == ConnectionPhase::Leaving,
    ensures
        s.closed(c).phase(c) == ConnectionPhase::Closed,
        s.closed(c).accepted(c).phase(c) == ConnectionPhase::Connecting,
{
}

} // verus!
