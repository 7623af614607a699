//! The players connected to one session server, keyed by connection.

use vstd::prelude::*;
use crate::error::SessionError;
use crate::movement::{MoveModifier, Movement};
use crate::protocol::{ClientId, PlayerPosition, UserId};

verus! {

/// Who sits behind a connection.
#[derive(Clone, Copy, Debug, PartialEq, Eq, Structural)]
pub struct Player {
    pub client_id: ClientId,
    pub user_id: UserId,
}

/// The authoritative state of one connected player.
#[derive(Clone, Copy, Debug, PartialEq, Eq, Structural)]
pub struct PlayerSession {
    pub player: Player,
    pub position: PlayerPosition,
    pub movement: Movement,
}

impl PlayerSession {
    /// The session a player starts with: at the origin, no key held.
    pub open spec fn fresh(client_id: ClientId, user_id: UserId) -> PlayerSession {
        PlayerSession {
            player: Player { client_id, user_id },
            position: PlayerPosition::origin(),
            movement: Movement { forward: false, backward: false, right: false, left: false },
        }
    }
}

/// The connection ids of a sequence of sessions, in order.
pub open spec fn ids(s: Seq<PlayerSession>) -> Seq<ClientId> {
    s.map_values(|p: PlayerSession| p.player.client_id)
}

/// Whether some session of `s` belongs to connection `id`.
pub open spec fn has_id(s: Seq<PlayerSession>, id: ClientId) -> bool {
    exists|i: int| 0 <= i < s.len() && (#[trigger] s[i]).player.client_id == id
}

/// No two sessions of `s` share a connection id.
pub open spec fn distinct_ids(s: Seq<PlayerSession>) -> bool {
    forall|i: int, j: int|
        0 <= i < j < s.len() ==> (#[trigger] s[i]).player.client_id != (#[trigger] s[j]).player.client_id
}

/// The place of connection `id` in `s`; meaningful where `has_id(s, id)`.
pub open spec fn index_of(s: Seq<PlayerSession>, id: ClientId) -> int {
    choose|i: int| 0 <= i < s.len() && (#[trigger] s[i]).player.client_id == id
}

/// Where the ids are distinct, a session's place is determined by its id.
pub proof fn lemma_index_of_unique(s: Seq<PlayerSession>, i: int)
    requires
        distinct_ids(s),
        0 <= i < s.len(),
    ensures
        has_id(s, s[i].player.client_id),
        index_of(s, s[i].player.client_id) == i,
{
    let id = s[i].player.client_id;
    let j = index_of(s, id);
    assert(0 <= j < s.len() && s[j].player.client_id == id);
    if j < i {
        assert(s[j].player.client_id != s[i].player.client_id);
    } else if i < j {
        assert(s[i].player.client_id != s[j].player.client_id);
    }
}

/// Whether `i` is the place of the first session of `s` that belongs to
/// `user_id`.
pub open spec fn is_first_of_user(s: Seq<PlayerSession>, user_id: UserId, i: int) -> bool {
    &&& 0 <= i < s.len()
    &&& s[i].player.user_id == user_id
    &&& forall|k: int| 0 <= k < i ==> (#[trigger] s[k]).player.user_id != user_id
}

/// The connection of the first session of `s` that belongs to `user_id`.
pub open spec fn connection_of_user(s: Seq<PlayerSession>, user_id: UserId) -> Option<ClientId> {
    if exists|i: int| is_first_of_user(s, user_id, i) {
        Some(s[choose|i: int| is_first_of_user(s, user_id, i)].player.client_id)
    } else {
        None
    }
}

/// The sessions after `insert`: a new session at the end, or no change
/// where the connection already has one.
pub open spec fn inserted(s: Seq<PlayerSession>, client_id: ClientId, user_id: UserId) -> Seq<PlayerSession> {
    if has_id(s, client_id) {
        s
    } else {
        s.push(PlayerSession::fresh(client_id, user_id))
    }
}

/// The sessions after `remove`: without the connection's session, the
/// others in their order.
pub open spec fn removed(s: Seq<PlayerSession>, client_id: ClientId) -> Seq<PlayerSession> {
    if has_id(s, client_id) {
        s.remove(index_of(s, client_id))
    } else {
        s
    }
}

/// The sessions after `apply_position`.
pub open spec fn repositioned(s: Seq<PlayerSession>, client_id: ClientId, position: PlayerPosition) -> Seq<PlayerSession> {
    if has_id(s, client_id) {
        s.update(index_of(s, client_id), PlayerSession { position, ..s[index_of(s, client_id)] })
    } else {
        s
    }
}

/// The sessions after `apply_modifier`.
pub open spec fn modified(s: Seq<PlayerSession>, client_id: ClientId, modifier: MoveModifier) -> Seq<PlayerSession> {
    if has_id(s, client_id) {
        s.update(
            index_of(s, client_id),
            PlayerSession {
                movement: s[index_of(s, client_id)].movement.apply(modifier),
                ..s[index_of(s, client_id)]
            },
        )
    } else {
        s
    }
}

/// One step in the life of a registry.
pub enum RegistryOp {
    Insert(ClientId, UserId),
    Remove(ClientId),
}

/// The sessions after a sequence of inserts and removes, first to last.
pub open spec fn run(s: Seq<PlayerSession>, ops: Seq<RegistryOp>) -> Seq<PlayerSession>
    decreases ops.len(),
{
    if ops.len() == 0 {
        s
    } else {
        match ops.last() {
            RegistryOp::Insert(c, u) => inserted(run(s, ops.drop_last()), c, u),
            RegistryOp::Remove(c) => removed(run(s, ops.drop_last()), c),
        }
    }
}

/// An insert never makes two sessions share a connection id.
pub proof fn lemma_insert_keeps_distinct(s: Seq<PlayerSession>, client_id: ClientId, user_id: UserId)
    requires
        distinct_ids(s),
    ensures
        distinct_ids(inserted(s, client_id, user_id)),
        has_id(inserted(s, client_id, user_id), client_id),
{
    let t = inserted(s, client_id, user_id);
    if !has_id(s, client_id) {
        assert(t[s.len() as int].player.client_id == client_id);
        assert forall|i: int, j: int| 0 <= i < j < t.len() implies (#[trigger] t[i]).player.client_id != (
        #[trigger] t[j]).player.client_id by {
            if j == s.len() {
                assert(s[i].player.client_id != client_id);
            } else {
                assert(s[i].player.client_id != s[j].player.client_id);
            }
        }
    }
}

/// A remove never makes two sessions share a connection id, and the
/// removed connection has no session afterwards.
pub proof fn lemma_remove_keeps_distinct(s: Seq<PlayerSession>, client_id: ClientId)
    requires
        distinct_ids(s),
    ensures
        distinct_ids(removed(s, client_id)),
        !has_id(removed(s, client_id), client_id),
{
    let t = removed(s, client_id);
    if has_id(s, client_id) {
        let k = index_of(s, client_id);
        assert forall|i: int, j: int| 0 <= i < j < t.len() implies (#[trigger] t[i]).player.client_id != (
        #[trigger] t[j]).player.client_id by {
            let si = if i < k { i } else { i + 1 };
            let sj = if j < k { j } else { j + 1 };
            assert(s[si].player.client_id != s[sj].player.client_id);
        }
        assert forall|i: int| 0 <= i < t.len() implies (#[trigger] t[i]).player.client_id != client_id by {
            let si = if i < k { i } else { i + 1 };
            if si < k {
                assert(s[si].player.client_id != s[k].player.client_id);
            } else {
                assert(s[k].player.client_id != s[si].player.client_id);
            }
        }
    }
}

/// Removing a connection a second time changes nothing.
pub proof fn lemma_remove_idempotent(s: Seq<PlayerSession>, client_id: ClientId)
    requires
        distinct_ids(s),
    ensures
        removed(removed(s, client_id), client_id) == removed(s, client_id),
{
    lemma_remove_keeps_distinct(s, client_id);
}

/// Whatever inserts and removes are applied to a registry in whatever
/// order, no two of its sessions ever share a connection id.
pub proof fn lemma_run_keeps_distinct(s: Seq<PlayerSession>, ops: Seq<RegistryOp>)
    requires
        distinct_ids(s),
    ensures
        distinct_ids(run(s, ops)),
    decreases ops.len(),
{
    if ops.len() > 0 {
        lemma_run_keeps_distinct(s, ops.drop_last());
        match ops.last() {
            RegistryOp::Insert(c, u) => lemma_insert_keeps_distinct(run(s, ops.drop_last()), c, u),
            RegistryOp::Remove(c) => lemma_remove_keeps_distinct(run(s, ops.drop_last()), c),
        }
    }
}

/// The sessions of one server. At most one session per connection id,
/// in the order in which they joined.
pub struct SessionRegistry {
    sessions: Vec<PlayerSession>,
}

impl View for SessionRegistry {
    type V = Seq<PlayerSession>;

    closed spec fn view(&self) -> Seq<PlayerSession> {
        self.sessions@
    }
}

impl SessionRegistry {
    #[verifier::type_invariant]
    spec fn well_formed(self) -> bool {
        distinct_ids(self.sessions@)
    }

    /// The empty registry.
    pub fn new() -> (r: SessionRegistry)
        ensures
            r@ == Seq::<PlayerSession>::empty(),
            distinct_ids(r@),
    {
        SessionRegistry { sessions: Vec::new() }
    }

    /// The number of sessions.
    pub fn len(&self) -> (n: usize)
        ensures
            n == self@.len(),
            distinct_ids(self@),
    {
        proof {
            use_type_invariant(self);
        }
        self.sessions.len()
    }

    /// Moves the sessions out, leaving the registry empty for the moment.
    fn take(&mut self) -> (v: Vec<PlayerSession>)
        ensures
            v@ == old(self)@,
            distinct_ids(v@),
            final(self)@ == Seq::<PlayerSession>::empty(),
    {
        proof {
            use_type_invariant(&*self);
        }
        let mut v: Vec<PlayerSession> = Vec::new();
        core::mem::swap(&mut self.sessions, &mut v);
        v
    }

    /// Moves sessions with distinct ids into the registry.
    fn put(&mut self, v: Vec<PlayerSession>)
        requires
            distinct_ids(v@),
        ensures
            final(self)@ == v@,
    {
        let mut v = v;
        core::mem::swap(&mut self.sessions, &mut v);
    }

    /// The place of `client_id` among the sessions, if it has one.
    fn position_of(&self, client_id: ClientId) -> (r: Option<usize>)
        ensures
            match r {
                Some(i) => has_id(self@, client_id) && i == index_of(self@, client_id) && i < self@.len(),
                None => !has_id(self@, client_id),
            },
    {
        proof {
            use_type_invariant(self);
        }
        let mut i: usize = 0;
        while i < self.sessions.len()
            invariant
                i <= self.sessions@.len(),
                distinct_ids(self.sessions@),
                forall|k: int| 0 <= k < i ==> (#[trigger] self.sessions@[k]).player.client_id != client_id,
            decreases self.sessions@.len() - i,
        {
            if self.sessions[i].player.client_id == client_id {
                proof {
                    lemma_index_of_unique(self.sessions@, i as int);
                }
                return Some(i);
            }
            i = i + 1;
        }
        None
    }

    /// Whether connection `client_id` has a session.
    pub fn contains(&self, client_id: ClientId) -> (b: bool)
        ensures
            b == has_id(self@, client_id),
    {
        self.position_of(client_id).is_some()
    }

    /// The session of connection `client_id`, if it has one.
    pub fn get(&self, client_id: ClientId) -> (r: Option<PlayerSession>)
        ensures
            r == (if has_id(self@, client_id) {
                Some(self@[index_of(self@, client_id)])
            } else {
                None
            }),
    {
        match self.position_of(client_id) {
            Some(i) => Some(self.sessions[i]),
            None => None,
        }
    }

    /// A copy of every session with its connection id, in joining order.
    pub fn snapshot(&self) -> (v: Vec<(ClientId, PlayerSession)>)
        ensures
            v@.len() == self@.len(),
            forall|i: int| 0 <= i < self@.len() ==> #[trigger] v@[i] == (self@[i].player.client_id, self@[i]),
            distinct_ids(self@),
    {
        proof {
            use_type_invariant(self);
        }
        let mut v: Vec<(ClientId, PlayerSession)> = Vec::new();
        let mut i: usize = 0;
        while i < self.sessions.len()
            invariant
                i <= self.sessions@.len(),
                v@.len() == i,
                forall|k: int| 0 <= k < i ==> #[trigger] v@[k] == (self.sessions@[k].player.client_id, self.sessions@[k]),
            decreases self.sessions@.len() - i,
        {
            let session = self.sessions[i];
            v.push((session.player.client_id, session));
            i = i + 1;
        }
        v
    }

    /// The connection ids of all sessions, in joining order.
    pub fn client_ids(&self) -> (v: Vec<ClientId>)
        ensures
            v@ == ids(self@),
    {
        let mut v: Vec<ClientId> = Vec::new();
        let mut i: usize = 0;
        while i < self.sessions.len()
            invariant
                i <= self.sessions@.len(),
                v@ == ids(self.sessions@).take(i as int),
            decreases self.sessions@.len() - i,
        {
            v.push(self.sessions[i].player.client_id);
            assert(ids(self.sessions@).take(i + 1) == ids(self.sessions@).take(i as int).push(
                self.sessions@[i as int].player.client_id,
            ));
            i = i + 1;
        }
        assert(ids(self.sessions@).take(i as int) == ids(self.sessions@));
        v
    }

    /// The connection of the first session that belongs to `user_id`.
    pub fn find_by_user(&self, user_id: UserId) -> (r: Option<ClientId>)
        ensures
            r == connection_of_user(self@, user_id),
            r matches Some(c) ==> has_id(self@, c),
    {
        let mut i: usize = 0;
        while i < self.sessions.len()
            invariant
                i <= self.sessions@.len(),
                forall|k: int| 0 <= k < i ==> (#[trigger] self.sessions@[k]).player.user_id != user_id,
            decreases self.sessions@.len() - i,
        {
            if self.sessions[i].player.user_id == user_id {
                let c = self.sessions[i].player.client_id;
                proof {
                    assert(is_first_of_user(self@, user_id, i as int));
                    let j = choose|j: int| is_first_of_user(self@, user_id, j);
                    if j < i {
                        assert(self@[j].player.user_id != user_id);
                    } else if i < j {
                        assert(self@[i as int].player.user_id != user_id);
                    }
                    assert(self@[i as int].player.client_id == c);
                }
                return Some(c);
            }
            i = i + 1;
        }
        proof {
            assert forall|j: int| !is_first_of_user(self@, user_id, j) by {
                if 0 <= j < self@.len() {
                    assert(self@[j].player.user_id != user_id);
                }
            }
        }
        None
    }

    /// Creates the session of a connection that has none yet. A connection
    /// that already has one keeps it untouched and the call fails.
    pub fn insert(&mut self, client_id: ClientId, user_id: UserId) -> (r: Result<PlayerSession, SessionError>)
        ensures
            r == (if has_id(old(self)@, client_id) {
                Err::<PlayerSession, SessionError>(SessionError::DuplicateConnection)
            } else {
                Ok::<PlayerSession, SessionError>(PlayerSession::fresh(client_id, user_id))
            }),
            final(self)@ == inserted(old(self)@, client_id, user_id),
            distinct_ids(final(self)@),
    {
        proof {
            use_type_invariant(&*self);
        }
        if self.position_of(client_id).is_some() {
            return Err(SessionError::DuplicateConnection);
        }
        let session = PlayerSession {
            player: Player { client_id, user_id },
            position: PlayerPosition::new(0, 0, 0),
            movement: Movement::new(),
        };
        let mut sessions = self.take();
        sessions.push(session);
        self.put(sessions);
        Ok(session)
    }

    /// Drops the session of a connection and hands it back; a connection
    /// without a session is left as it is.
    pub fn remove(&mut self, client_id: ClientId) -> (r: Option<PlayerSession>)
        ensures
            r == (if has_id(old(self)@, client_id) {
                Some(old(self)@[index_of(old(self)@, client_id)])
            } else {
                None
            }),
            final(self)@ == removed(old(self)@, client_id),
            !has_id(final(self)@, client_id),
            distinct_ids(final(self)@),
    {
        proof {
            use_type_invariant(&*self);
        }
        match self.position_of(client_id) {
            Some(i) => {
                let mut sessions = self.take();
                let session = sessions.remove(i);
                self.put(sessions);
                Some(session)
            },
            None => None,
        }
    }

    /// Overwrites the position of a connection's session.
    pub fn apply_position(&mut self, client_id: ClientId, position: PlayerPosition) -> (r: Result<(), SessionError>)
        ensures
            r == (if has_id(old(self)@, client_id) {
                Ok::<(), SessionError>(())
            } else {
                Err::<(), SessionError>(SessionError::UnknownConnection)
            }),
            final(self)@ == repositioned(old(self)@, client_id, position),
            distinct_ids(final(self)@),
    {
        proof {
            use_type_invariant(&*self);
        }
        match self.position_of(client_id) {
            Some(i) => {
                let mut sessions = self.take();
                let session = sessions[i];
                sessions.set(i, PlayerSession { position, ..session });
                self.put(sessions);
                Ok(())
            },
            None => Err(SessionError::UnknownConnection),
        }
    }

    /// Applies one movement trigger to the flags of a connection's session.
    pub fn apply_modifier(&mut self, client_id: ClientId, modifier: MoveModifier) -> (r: Result<(), SessionError>)
        ensures
            r == (if has_id(old(self)@, client_id) {
                Ok::<(), SessionError>(())
            } else {
                Err::<(), SessionError>(SessionError::UnknownConnection)
            }),
            final(self)@ == modified(old(self)@, client_id, modifier),
            distinct_ids(final(self)@),
    {
        proof {
            use_type_invariant(&*self);
        }
        match self.position_of(client_id) {
            Some(i) => {
                let mut sessions = self.take();
                let session = sessions[i];
                let mut movement = session.movement;
                movement.modify(modifier);
                sessions.set(i, PlayerSession { movement, ..session });
                self.put(sessions);
                Ok(())
            },
            None => Err(SessionError::UnknownConnection),
        }
    }
}

} // verus!
