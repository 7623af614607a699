//! The state a game client keeps beside its window: what it has loaded
//! from the directory, whom it knows on the session server, and what its
//! keys mean.

use std::collections::HashMap;
use vstd::prelude::*;
use vstd::std_specs::hash::*;
use crate::directory::{IpAddress, Server, ServerId};
use crate::models::api::{Credentials, NewUser, User};
use crate::movement::{MoveModifier, Movement};
use crate::protocol::{ClientId, ClientMessage, PlayerPosition, ServerMessage, UserId};
use crate::registry::{inserted, modified, removed, repositioned, SessionRegistry};

verus! {

/// Whether the client holds a token.
#[derive(Clone, Copy, Debug, PartialEq, Eq, Hash, Structural)]
pub enum AuthState {
    Authenticated,
    Anonymous,
}

impl Default for AuthState {
    fn default() -> (s: AuthState)
        ensures
            s == AuthState::Anonymous,
    {
        AuthState::Anonymous
    }
}

/// Whether the client is connected to a session server.
#[derive(Clone, Copy, Debug, PartialEq, Eq, Hash, Structural)]
pub enum ConnectionState {
    Connected,
    Disconnected,
}

impl Default for ConnectionState {
    fn default() -> (s: ConnectionState)
        ensures
            s == ConnectionState::Disconnected,
    {
        ConnectionState::Disconnected
    }
}

/// Something that is fetched in the background: whether a fetch was
/// started, and what the last fetch brought.
#[derive(Debug, PartialEq, Eq)]
pub struct LoadableData<T> {
    pub loading: bool,
    pub data: Option<T>,
}

impl<T> LoadableData<T> {
    /// Nothing loaded, nothing started.
    pub fn new() -> (l: LoadableData<T>)
        ensures
            l == (LoadableData::<T> { loading: false, data: None }),
    {
        LoadableData { loading: false, data: None }
    }

    /// A fetch begins.
    pub fn start(&mut self)
        ensures
            *final(self) == (LoadableData::<T> { loading: true, data: old(self).data }),
    {
        self.loading = true;
    }

    /// A fetch brought `data`. The mark that a fetch was started stays
    /// set, so what has been loaded once is not fetched again.
    pub fn finish(&mut self, data: T)
        ensures
            *final(self) == (LoadableData::<T> { loading: true, data: Some(data) }),
    {
        self.data = Some(data);
        self.loading = true;
    }

    /// A fetch failed: nothing is held, and it may be tried again.
    pub fn failed(&mut self)
        ensures
            *final(self) == (LoadableData::<T> { loading: false, data: None }),
    {
        self.data = None;
        self.loading = false;
    }
}

impl<T> Default for LoadableData<T> {
    fn default() -> (l: LoadableData<T>)
        ensures
            l == (LoadableData::<T> { loading: false, data: None }),
    {
        LoadableData::new()
    }
}

/// What the user interface or the network asks the client to load.
#[derive(Debug, PartialEq, Eq)]
pub enum ApiEvent {
    Authenticate { username: String, password: String },
    Register { username: String, email: String, password: String },
    LoadProfile,
    LoadServers,
    LoadUser(UserId),
}

/// A request to send to the directory's HTTP interface.
#[derive(Debug, PartialEq, Eq)]
pub enum ApiRequest {
    Authenticate(Credentials),
    Register(NewUser),
    GetProfile { token: String },
    ListServers,
    GetUser(UserId),
}

/// What came back for a request; `Err` stands for any failure.
#[derive(Debug, PartialEq, Eq)]
pub enum ApiMessage {
    AuthenticateFulfilled(Result<String, ()>),
    RegisterFulfilled(Result<String, ()>),
    LoadProfileFulfilled(Result<User, ()>),
    LoadServersFulfilled(Result<Vec<Server>, ()>),
    LoadUserFulfilled(UserId, Result<User, ()>),
}

/// What the client has loaded, or is loading, from the HTTP interface.
pub struct ApiResource {
    pub base_url: String,
    pub token: LoadableData<String>,
    pub profile: LoadableData<User>,
    pub servers: LoadableData<Vec<Server>>,
    pub users: HashMap<UserId, LoadableData<User>>,
}

/// What changes outside the loaded data when an answer arrives.
#[derive(Debug, PartialEq, Eq)]
pub struct ApiOutcome {
    /// The client has become authenticated.
    pub authenticated: bool,
    /// What to load next, in this order.
    pub events: Vec<ApiEvent>,
}

/// What an answer makes the client load next: after a login or a sign-up
/// that succeeded, the profile and then the server list.
pub open spec fn follow_ups(message: ApiMessage) -> Seq<ApiEvent> {
    match message {
        ApiMessage::AuthenticateFulfilled(Ok(_)) | ApiMessage::RegisterFulfilled(Ok(_)) => seq![
            ApiEvent::LoadProfile,
            ApiEvent::LoadServers,
        ],
        _ => Seq::empty(),
    }
}

/// The mark of a user that nothing was asked about yet.
pub open spec fn user_entry(users: Map<UserId, LoadableData<User>>, id: UserId) -> LoadableData<User> {
    if users.contains_key(id) {
        users[id]
    } else {
        LoadableData { loading: false, data: None }
    }
}

impl ApiResource {
    /// Nothing loaded yet from the interface at `base_url`.
    pub fn new(base_url: String) -> (api: ApiResource)
        ensures
            api.base_url == base_url,
            api.token == (LoadableData::<String> { loading: false, data: None }),
            api.profile == (LoadableData::<User> { loading: false, data: None }),
            api.servers == (LoadableData::<Vec<Server>> { loading: false, data: None }),
            api.users@ == Map::<UserId, LoadableData<User>>::empty(),
    {
        ApiResource {
            base_url,
            token: LoadableData::new(),
            profile: LoadableData::new(),
            servers: LoadableData::new(),
            users: HashMap::new(),
        }
    }

    /// The request that `event` calls for in this state, if any: nothing is
    /// asked twice while an answer is awaited, and the profile cannot be
    /// asked for without a token.
    pub open spec fn request_for(&self, event: ApiEvent) -> Option<ApiRequest> {
        match event {
            ApiEvent::Authenticate { username, password } => if self.token.loading {
                None
            } else {
                Some(ApiRequest::Authenticate(Credentials { username, password }))
            },
            ApiEvent::Register { username, email, password } => if self.token.loading {
                None
            } else {
                Some(ApiRequest::Register(NewUser { username, email, password }))
            },
            ApiEvent::LoadProfile => if self.profile.loading {
                None
            } else {
                match self.token.data {
                    Some(token) => Some(ApiRequest::GetProfile { token }),
                    None => None,
                }
            },
            ApiEvent::LoadServers => if self.servers.loading {
                None
            } else {
                Some(ApiRequest::ListServers)
            },
            ApiEvent::LoadUser(id) => if user_entry(self.users@, id).loading {
                None
            } else {
                Some(ApiRequest::GetUser(id))
            },
        }
    }

    /// Takes a wish to load something: marks what it concerns as loading
    /// and hands back the request to send, if one is due.
    pub fn handle_event(&mut self, event: ApiEvent) -> (request: Option<ApiRequest>)
        ensures
            request == old(self).request_for(event),
            final(self).base_url == old(self).base_url,
            final(self).token == (LoadableData::<String> {
                loading: old(self).token.loading || event is Authenticate || event is Register,
                data: old(self).token.data,
            }),
            final(self).profile == (LoadableData::<User> {
                loading: old(self).profile.loading || event is LoadProfile,
                data: old(self).profile.data,
            }),
            final(self).servers == (LoadableData::<Vec<Server>> {
                loading: old(self).servers.loading || event is LoadServers,
                data: old(self).servers.data,
            }),
            final(self).users@ == (match event {
                ApiEvent::LoadUser(id) => old(self).users@.insert(
                    id,
                    LoadableData { loading: true, data: user_entry(old(self).users@, id).data },
                ),
                _ => old(self).users@,
            }),
    {
        broadcast use group_hash_axioms;

        match event {
            ApiEvent::Authenticate { username, password } => {
                if !self.token.loading {
                    self.token.start();
                    Some(ApiRequest::Authenticate(Credentials { username, password }))
                } else {
                    None
                }
            },
            ApiEvent::Register { username, email, password } => {
                if !self.token.loading {
                    self.token.start();
                    Some(ApiRequest::Register(NewUser { username, email, password }))
                } else {
                    None
                }
            },
            ApiEvent::LoadProfile => {
                if !self.profile.loading {
                    self.profile.start();
                    match &self.token.data {
                        Some(token) => Some(ApiRequest::GetProfile { token: token.clone() }),
                        None => None,
                    }
                } else {
                    None
                }
            },
            ApiEvent::LoadServers => {
                if !self.servers.loading {
                    self.servers.start();
                    Some(ApiRequest::ListServers)
                } else {
                    None
                }
            },
            ApiEvent::LoadUser(id) => {
                let mut loadable = match self.users.remove(&id) {
                    Some(loadable) => loadable,
                    None => LoadableData::new(),
                };
                let due = !loadable.loading;
                loadable.start();
                self.users.insert(id, loadable);
                if due {
                    Some(ApiRequest::GetUser(id))
                } else {
                    None
                }
            },
        }
    }

    /// Takes the answer to a request: stores what it brought, or clears
    /// what failed, and says whether the client is now authenticated and
    /// what to load next.
    pub fn handle_message(&mut self, message: ApiMessage) -> (outcome: ApiOutcome)
        ensures
            outcome.authenticated == (message matches ApiMessage::AuthenticateFulfilled(Ok(_)) || message
                matches ApiMessage::RegisterFulfilled(Ok(_))),
            outcome.events@ == follow_ups(message),
            final(self).base_url == old(self).base_url,
            final(self).token == (match message {
                ApiMessage::AuthenticateFulfilled(Ok(token)) | ApiMessage::RegisterFulfilled(Ok(token)) => {
                    LoadableData { loading: true, data: Some(token) }
                },
                ApiMessage::AuthenticateFulfilled(Err(_)) | ApiMessage::RegisterFulfilled(Err(_)) => {
                    LoadableData { loading: false, data: None }
                },
                _ => old(self).token,
            }),
            final(self).profile == (match message {
                ApiMessage::LoadProfileFulfilled(Ok(user)) => LoadableData { loading: true, data: Some(user) },
                ApiMessage::LoadProfileFulfilled(Err(_)) => LoadableData { loading: false, data: None },
                _ => old(self).profile,
            }),
            final(self).servers == (match message {
                ApiMessage::LoadServersFulfilled(Ok(servers)) => LoadableData {
                    loading: true,
                    data: Some(servers),
                },
                ApiMessage::LoadServersFulfilled(Err(_)) => LoadableData { loading: false, data: None },
                _ => old(self).servers,
            }),
            final(self).users@ == (match message {
                ApiMessage::LoadUserFulfilled(_, Ok(user)) => if old(self).users@.contains_key(user.id) {
                    old(self).users@.insert(user.id, LoadableData { loading: true, data: Some(user) })
                } else {
                    old(self).users@
                },
                ApiMessage::LoadUserFulfilled(id, Err(_)) => if old(self).users@.contains_key(id) {
                    old(self).users@.insert(id, LoadableData { loading: false, data: None })
                } else {
                    old(self).users@
                },
                _ => old(self).users@,
            }),
    {
        broadcast use group_hash_axioms;

        let mut outcome = ApiOutcome { authenticated: false, events: Vec::new() };
        match message {
            ApiMessage::AuthenticateFulfilled(result) | ApiMessage::RegisterFulfilled(result) => match result {
                Ok(token) => {
                    self.token.finish(token);
                    outcome.authenticated = true;
                    outcome.events.push(ApiEvent::LoadProfile);
                    outcome.events.push(ApiEvent::LoadServers);
                },
                Err(_) => {
                    self.token.failed();
                },
            },
            ApiMessage::LoadProfileFulfilled(result) => match result {
                Ok(user) => {
                    self.profile.finish(user);
                },
                Err(_) => {
                    self.profile.failed();
                },
            },
            ApiMessage::LoadServersFulfilled(result) => match result {
                Ok(servers) => {
                    self.servers.finish(servers);
                },
                Err(_) => {
                    self.servers.failed();
                },
            },
            ApiMessage::LoadUserFulfilled(id, result) => match result {
                Ok(user) => {
                    let key = user.id;
                    if self.users.contains_key(&key) {
                        let mut loadable: LoadableData<User> = LoadableData::new();
                        loadable.finish(user);
                        self.users.insert(key, loadable);
                    }
                },
                Err(_) => {
                    if self.users.contains_key(&id) {
                        self.users.insert(id, LoadableData::new());
                    }
                },
            },
        }
        assert(outcome.events@ =~= follow_ups(message));
        outcome
    }

    /// The message with which a client that has just connected joins: its
    /// own user id, once the profile is loaded.
    pub fn join_message(&self) -> (message: Option<ClientMessage>)
        ensures
            message == (match self.profile.data {
                Some(user) => Some(ClientMessage::Join { user_id: user.id }),
                None => None,
            }),
    {
        match &self.profile.data {
            Some(user) => Some(ClientMessage::Join { user_id: user.id }),
            None => None,
        }
    }

    /// The name under which `user_id` is known, once it is loaded.
    pub fn username_of(&self, user_id: UserId) -> (name: Option<String>)
        ensures
            name == (match user_entry(self.users@, user_id).data {
                Some(user) => Some(user.username),
                None => None,
            }),
    {
        broadcast use group_hash_axioms;

        match self.users.get(&user_id) {
            Some(loadable) => match &loadable.data {
                Some(user) => Some(user.username.clone()),
                None => None,
            },
            None => None,
        }
    }

    /// Whether `user_id` is the user of this client.
    pub fn is_local_user(&self, user_id: UserId) -> (b: bool)
        ensures
            b == (self.profile.data matches Some(user) && user.id == user_id),
    {
        match &self.profile.data {
            Some(user) => user.id == user_id,
            None => false,
        }
    }

    /// Where to connect for the server `id`: its address and port, if the
    /// loaded server list holds it. The first entry with that id counts.
    pub fn endpoint_of(&self, id: ServerId) -> (endpoint: Option<(IpAddress, u16)>)
        ensures
            endpoint == (match self.servers.data {
                Some(servers) => first_endpoint(servers@, id),
                None => None,
            }),
    {
        match &self.servers.data {
            Some(servers) => find_endpoint(servers, id),
            None => None,
        }
    }
}

/// The address and port of the first of `servers` with the id `id`.
pub fn find_endpoint(servers: &Vec<Server>, id: ServerId) -> (endpoint: Option<(IpAddress, u16)>)
    ensures
        endpoint == first_endpoint(servers@, id),
{
    let mut i: usize = 0;
    assert(servers@.skip(0) =~= servers@);
    while i < servers.len()
        invariant
            i <= servers@.len(),
            first_endpoint(servers@, id) == first_endpoint(servers@.skip(i as int), id),
        decreases servers@.len() - i,
    {
        assert(servers@.skip(i as int)[0] == servers@[i as int]);
        if servers[i].id == id {
            return Some((servers[i].addr, servers[i].port));
        }
        assert(servers@.skip(i as int).drop_first() =~= servers@.skip(i + 1));
        i = i + 1;
    }
    None
}

/// The address and port of the first of `servers` with the id `id`.
pub open spec fn first_endpoint(servers: Seq<Server>, id: ServerId) -> Option<(IpAddress, u16)>
    decreases servers.len(),
{
    if servers.len() == 0 {
        None
    } else if servers[0].id == id {
        Some((servers[0].addr, servers[0].port))
    } else {
        first_endpoint(servers.drop_first(), id)
    }
}

/// What the window has to show after a message of the session server.
#[derive(Clone, Copy, Debug, PartialEq, Eq, Structural)]
pub enum RenderEvent {
    Spawn { client_id: ClientId, user_id: UserId },
    Despawn(ClientId),
    UpdatePosition { client_id: ClientId, position: PlayerPosition },
    UpdateMovement { client_id: ClientId, modifier: MoveModifier },
}

/// What the user asks of the connection.
#[derive(Clone, Copy, Debug, PartialEq, Eq, Structural)]
pub enum ClientEvent {
    Connect(ServerId),
    Disconnect,
}

/// What a message of the session server sets off in the client.
#[derive(Debug, PartialEq, Eq)]
pub struct ServerEffects {
    /// A user whose name is to be loaded.
    pub load_user: Option<UserId>,
    /// What the window has to show.
    pub render: Option<RenderEvent>,
}

/// What the client knows of the session server it is connected to.
pub struct ServerInfo {
    pub id: Option<ServerId>,
    pub connected: HashMap<ClientId, UserId>,
    pub messages: Vec<(ClientId, String)>,
}

/// The user to load and the event to show for a message of the server.
pub open spec fn effects_of(message: ServerMessage) -> (Option<UserId>, Option<RenderEvent>) {
    match message {
        ServerMessage::ClientConnected { client_id, user_id } => (
            Some(user_id),
            Some(RenderEvent::Spawn { client_id, user_id }),
        ),
        ServerMessage::ClientDisconnected { client_id } => (None, Some(RenderEvent::Despawn(client_id))),
        ServerMessage::ChatMessage { .. } => (None, None),
        ServerMessage::UpdatePosition { client_id, position } => (
            None,
            Some(RenderEvent::UpdatePosition { client_id, position }),
        ),
        ServerMessage::SendModifier { client_id, key_code } => (
            None,
            Some(RenderEvent::UpdateMovement { client_id, modifier: key_code }),
        ),
    }
}

impl ServerInfo {
    /// Connected to no server, nobody known, nothing said.
    pub fn new() -> (info: ServerInfo)
        ensures
            info.id.is_none(),
            info.connected@ == Map::<ClientId, UserId>::empty(),
            info.messages@ == Seq::<(ClientId, String)>::empty(),
    {
        ServerInfo { id: None, connected: HashMap::new(), messages: Vec::new() }
    }

    /// Takes a message of the session server: keeps track of who is
    /// connected and of what was said, and hands back what follows for the
    /// loader and for the window.
    pub fn handle_message(&mut self, message: ServerMessage) -> (effects: ServerEffects)
        ensures
            (effects.load_user, effects.render) == effects_of(message),
            final(self).id == old(self).id,
            final(self).connected@ == (match message {
                ServerMessage::ClientConnected { client_id, user_id } => old(self).connected@.insert(
                    client_id,
                    user_id,
                ),
                ServerMessage::ClientDisconnected { client_id } => old(self).connected@.remove(client_id),
                _ => old(self).connected@,
            }),
            final(self).messages@ == (match message {
                ServerMessage::ChatMessage { client_id, message } => old(self).messages@.push(
                    (client_id, message),
                ),
                _ => old(self).messages@,
            }),
    {
        broadcast use group_hash_axioms;

        match message {
            ServerMessage::ClientConnected { client_id, user_id } => {
                self.connected.insert(client_id, user_id);
                ServerEffects {
                    load_user: Some(user_id),
                    render: Some(RenderEvent::Spawn { client_id, user_id }),
                }
            },
            ServerMessage::ClientDisconnected { client_id } => {
                self.connected.remove(&client_id);
                ServerEffects { load_user: None, render: Some(RenderEvent::Despawn(client_id)) }
            },
            ServerMessage::ChatMessage { client_id, message } => {
                self.messages.push((client_id, message));
                ServerEffects { load_user: None, render: None }
            },
            ServerMessage::UpdatePosition { client_id, position } => ServerEffects {
                load_user: None,
                render: Some(RenderEvent::UpdatePosition { client_id, position }),
            },
            ServerMessage::SendModifier { client_id, key_code } => ServerEffects {
                load_user: None,
                render: Some(RenderEvent::UpdateMovement { client_id, modifier: key_code }),
            },
        }
    }

    /// The connection to the server `id` was opened.
    pub fn connected_to(&mut self, id: ServerId)
        ensures
            final(self).id == Some(id),
            final(self).connected@ == old(self).connected@,
            final(self).messages@ == old(self).messages@,
    {
        self.id = Some(id);
    }

    /// The user disconnects: the client forgets its own connection, where
    /// it knows it, and has a `Disconnect` to send.
    pub fn disconnect(&mut self, own: Option<ClientId>) -> (message: ClientMessage)
        ensures
            message == ClientMessage::Disconnect,
            final(self).id == old(self).id,
            final(self).connected@ == (match own {
                Some(client_id) => old(self).connected@.remove(client_id),
                None => old(self).connected@,
            }),
            final(self).messages@ == old(self).messages@,
    {
        broadcast use group_hash_axioms;

        if let Some(client_id) = own {
            self.connected.remove(&client_id);
        }
        ClientMessage::Disconnect
    }
}

/// The players as the client shows them after `event`: a spawn adds a
/// player unless its connection is already shown, a despawn takes one
/// away, and the updates change the one they name.
pub open spec fn shown_after(
    players: Seq<crate::registry::PlayerSession>,
    event: RenderEvent,
) -> Seq<crate::registry::PlayerSession> {
    match event {
        RenderEvent::Spawn { client_id, user_id } => inserted(players, client_id, user_id),
        RenderEvent::Despawn(client_id) => removed(players, client_id),
        RenderEvent::UpdatePosition { client_id, position } => repositioned(players, client_id, position),
        RenderEvent::UpdateMovement { client_id, modifier } => modified(players, client_id, modifier),
    }
}

/// Applies what the server reported to the players that the client shows.
pub fn handle_render_event(players: &mut SessionRegistry, event: RenderEvent)
    ensures
        final(players)@ == shown_after(old(players)@, event),
{
    match event {
        RenderEvent::Spawn { client_id, user_id } => {
            let _ = players.insert(client_id, user_id);
        },
        RenderEvent::Despawn(client_id) => {
            let _ = players.remove(client_id);
        },
        RenderEvent::UpdatePosition { client_id, position } => {
            let _ = players.apply_position(client_id, position);
        },
        RenderEvent::UpdateMovement { client_id, modifier } => {
            let _ = players.apply_modifier(client_id, modifier);
        },
    }
}

/// What happened to one key since the last frame.
#[derive(Clone, Copy, Debug, PartialEq, Eq, Structural)]
pub struct KeyEdge {
    pub just_pressed: bool,
    pub just_released: bool,
}

/// What happened to the four movement keys since the last frame.
#[derive(Clone, Copy, Debug, PartialEq, Eq, Structural)]
pub struct MovementKeys {
    pub forward: KeyEdge,
    pub backward: KeyEdge,
    pub right: KeyEdge,
    pub left: KeyEdge,
}

/// The trigger of one key: a start where it went down, else a stop where
/// it went up.
pub open spec fn key_trigger(edge: KeyEdge, start: MoveModifier, stop: MoveModifier) -> Seq<MoveModifier> {
    if edge.just_pressed {
        seq![start]
    } else if edge.just_released {
        seq![stop]
    } else {
        Seq::empty()
    }
}

/// The triggers of a frame: forward, backward, right, left, in this order.
pub open spec fn key_triggers(keys: MovementKeys) -> Seq<MoveModifier> {
    key_trigger(keys.forward, MoveModifier::StartForward, MoveModifier::StopForward) + key_trigger(
        keys.backward,
        MoveModifier::StartBackward,
        MoveModifier::StopBackward,
    ) + key_trigger(keys.right, MoveModifier::StartRight, MoveModifier::StopRight) + key_trigger(
        keys.left,
        MoveModifier::StartLeft,
        MoveModifier::StopLeft,
    )
}

/// Turns the key edges of a frame into movement triggers, applies them to
/// the local player's flags and hands them back to be sent.
pub fn keyboard_input(movement: &mut Movement, keys: MovementKeys) -> (triggers: Vec<MoveModifier>)
    ensures
        triggers@ == key_triggers(keys),
        *final(movement) == old(movement).apply_all(key_triggers(keys)),
{
    let mut triggers: Vec<MoveModifier> = Vec::new();
    let edges = [
        (keys.forward, MoveModifier::StartForward, MoveModifier::StopForward),
        (keys.backward, MoveModifier::StartBackward, MoveModifier::StopBackward),
        (keys.right, MoveModifier::StartRight, MoveModifier::StopRight),
        (keys.left, MoveModifier::StartLeft, MoveModifier::StopLeft),
    ];
    let ghost mut done: Seq<MoveModifier> = Seq::empty();
    let mut i: usize = 0;
    while i < 4
        invariant
            i <= 4,
            edges@.len() == 4,
            edges@[0] == (keys.forward, MoveModifier::StartForward, MoveModifier::StopForward),
            edges@[1] == (keys.backward, MoveModifier::StartBackward, MoveModifier::StopBackward),
            edges@[2] == (keys.right, MoveModifier::StartRight, MoveModifier::StopRight),
            edges@[3] == (keys.left, MoveModifier::StartLeft, MoveModifier::StopLeft),
            triggers@ == done,
            *movement == old(movement).apply_all(done),
            done == partial_triggers(keys, i as nat),
        decreases 4 - i,
    {
        let (edge, start, stop) = edges[i];
        if edge.just_pressed {
            movement.modify(start);
            triggers.push(start);
            proof {
                lemma_apply_all_push(*old(movement), done, start);
                done = done.push(start);
            }
        } else if edge.just_released {
            movement.modify(stop);
            triggers.push(stop);
            proof {
                lemma_apply_all_push(*old(movement), done, stop);
                done = done.push(stop);
            }
        }
        proof {
            assert(done =~= partial_triggers(keys, (i + 1) as nat));
        }
        i = i + 1;
    }
    assert(partial_triggers(keys, 4) =~= key_triggers(keys));
    triggers
}

/// The triggers of the first `n` keys of a frame.
pub open spec fn partial_triggers(keys: MovementKeys, n: nat) -> Seq<MoveModifier> {
    (if n >= 1 {
        key_trigger(keys.forward, MoveModifier::StartForward, MoveModifier::StopForward)
    } else {
        Seq::empty()
    }) + (if n >= 2 {
        key_trigger(keys.backward, MoveModifier::StartBackward, MoveModifier::StopBackward)
    } else {
        Seq::empty()
    }) + (if n >= 3 {
        key_trigger(keys.right, MoveModifier::StartRight, MoveModifier::StopRight)
    } else {
        Seq::empty()
    }) + (if n >= 4 {
        key_trigger(keys.left, MoveModifier::StartLeft, MoveModifier::StopLeft)
    } else {
        Seq::empty()
    })
}

/// Applying a sequence and then one more trigger is applying the longer
/// sequence.
pub proof fn lemma_apply_all_push(m: Movement, ms: Seq<MoveModifier>, t: MoveModifier)
    ensures
        m.apply_all(ms.push(t)) == m.apply_all(ms).apply(t),
{
    assert(ms.push(t).drop_last() =~= ms);
}

/// What the login form holds.
#[derive(Debug, PartialEq, Eq)]
pub struct LoginInputState {
    pub username: String,
    pub password: String,
}

/// What the sign-up form holds.
#[derive(Debug, PartialEq, Eq)]
pub struct RegisterInputState {
    pub username: String,
    pub email: String,
    pub password: String,
}

/// What the chat line holds.
#[derive(Debug, PartialEq, Eq)]
pub struct ChatInputState {
    pub text: String,
}

impl LoginInputState {
    /// What a click on the login button asks for.
    pub fn submit(&self) -> (event: ApiEvent)
        ensures
            event == (ApiEvent::Authenticate { username: self.username, password: self.password }),
    {
        ApiEvent::Authenticate { username: self.username.clone(), password: self.password.clone() }
    }
}

impl RegisterInputState {
    /// What a click on the sign-up button asks for.
    pub fn submit(&self) -> (event: ApiEvent)
        ensures
            event == (ApiEvent::Register {
                username: self.username,
                email: self.email,
                password: self.password,
            }),
    {
        ApiEvent::Register {
            username: self.username.clone(),
            email: self.email.clone(),
            password: self.password.clone(),
        }
    }
}

impl ChatInputState {
    /// What a click on the send button sends; the chat line is empty
    /// afterwards.
    pub fn submit(&mut self) -> (message: ClientMessage)
        ensures
            message == (ClientMessage::ChatMessage { message: old(self).text }),
            final(self).text@ == Seq::<char>::empty(),
    {
        let mut text = String::new();
        core::mem::swap(&mut self.text, &mut text);
        ClientMessage::ChatMessage { message: text }
    }
}

/// How somebody is shown: by name once the name is loaded, else by user
/// id, else, where not even the user is known, by connection.
#[derive(Debug, PartialEq, Eq)]
pub enum DisplayName {
    Name(String),
    User(UserId),
    Connection(ClientId),
}

/// How the user `user_id` is shown.
pub open spec fn shown_user(users: Map<UserId, LoadableData<User>>, user_id: UserId) -> DisplayName {
    match user_entry(users, user_id).data {
        Some(user) => DisplayName::Name(user.username),
        None => DisplayName::User(user_id),
    }
}

/// How the author of a chat line is shown.
pub open spec fn shown_author(
    connected: Map<ClientId, UserId>,
    users: Map<UserId, LoadableData<User>>,
    client_id: ClientId,
) -> DisplayName {
    if connected.contains_key(client_id) {
        shown_user(users, connected[client_id])
    } else {
        DisplayName::Connection(client_id)
    }
}

/// How the user `user_id` is shown in the list of connected users.
pub fn display_user(api: &ApiResource, user_id: UserId) -> (name: DisplayName)
    ensures
        name == shown_user(api.users@, user_id),
{
    match api.username_of(user_id) {
        Some(username) => DisplayName::Name(username),
        None => DisplayName::User(user_id),
    }
}

/// How the author of a chat line is shown.
pub fn display_author(info: &ServerInfo, api: &ApiResource, client_id: ClientId) -> (name: DisplayName)
    ensures
        name == shown_author(info.connected@, api.users@, client_id),
{
    broadcast use group_hash_axioms;

    let user_id = match info.connected.get(&client_id) {
        Some(user_id) => *user_id,
        None => {
            return DisplayName::Connection(client_id);
        },
    };
    display_user(api, user_id)
}

/// What a click on the reload button of the server browser asks for:
/// nothing while the list is loading.
pub fn reload_servers(api: &ApiResource, clicked: bool) -> (event: Option<ApiEvent>)
    ensures
        event == (if clicked && !api.servers.loading {
            Some(ApiEvent::LoadServers)
        } else {
            None
        }),
{
    if clicked && !api.servers.loading {
        Some(ApiEvent::LoadServers)
    } else {
        None
    }
}

} // verus!
