//! The bodies of the HTTP interfaces.

use vstd::prelude::*;
use crate::auth::{text_of, token_for, unsecured_token, uuid_text};
use crate::directory::Server;
use crate::protocol::{PlayerPosition, UserId};

verus! {

/// What a user logs in with.
#[derive(Debug, PartialEq, Eq)]
pub struct Credentials {
    pub username: String,
    pub password: String,
}

/// The answer to a login or a sign-up: the token to present from then on.
#[derive(Debug, PartialEq, Eq)]
pub struct AuthResponse {
    pub token: String,
}

/// A user as others see it.
#[derive(Debug, PartialEq, Eq)]
pub struct User {
    pub id: UserId,
    pub username: String,
}

/// What a user signs up with.
#[derive(Debug, PartialEq, Eq)]
pub struct NewUser {
    pub username: String,
    pub email: String,
    pub password: String,
}

/// What a session server tells its manager about itself.
#[derive(Debug, PartialEq, Eq)]
pub struct ServerInfoResponse {
    pub server: Option<Server>,
}

/// The users that are playing on a session server.
#[derive(Debug, PartialEq, Eq)]
pub struct PlayerResponse {
    pub players: Vec<UserId>,
}

impl AuthResponse {
    /// The answer that carries `token`, if there is one.
    pub fn with_token(token: Option<String>) -> (r: Option<AuthResponse>)
        ensures
            r == (match token {
                Some(token) => Some(AuthResponse { token }),
                None => None,
            }),
    {
        match token {
            Some(token) => Some(AuthResponse { token }),
            None => None,
        }
    }

    /// The answer for a stored user: the token that names the user's id,
    /// where one can be made.
    pub fn from_user(value: crate::models::data::User) -> (r: Option<AuthResponse>)
        ensures
            r.is_some() == unsecured_token(uuid_text(value.id)).is_some(),
            r matches Some(response) ==> Some(response.token@) == unsecured_token(uuid_text(value.id)),
    {
        let token = token_for(value.id);
        AuthResponse::with_token(token)
    }
}

impl Server {
    /// The advertisement that a stored row stands for, where the stored
    /// port is a port at all.
    pub fn from_stored(value: crate::models::data::Server) -> (r: Option<Server>)
        ensures
            r == (if 0 <= value.port <= u16::MAX {
                Some(
                    Server {
                        id: value.id,
                        addr: value.addr,
                        port: value.port as u16,
                        name: value.name,
                        last_ping: value.last_ping,
                    },
                )
            } else {
                None
            }),
    {
        if 0 <= value.port && value.port <= 65535 {
            Some(
                Server {
                    id: value.id,
                    addr: value.addr,
                    port: value.port as u16,
                    name: value.name,
                    last_ping: value.last_ping,
                },
            )
        } else {
            None
        }
    }
}

impl PlayerResponse {
    /// The users among the players of a session server, in their order.
    pub fn from_players(players: &Vec<(UserId, PlayerPosition)>) -> (r: PlayerResponse)
        ensures
            r.players@ == players@.map_values(|p: (UserId, PlayerPosition)| p.0),
    {
        let mut ids: Vec<UserId> = Vec::new();
        let mut i: usize = 0;
        while i < players.len()
            invariant
                i <= players@.len(),
                ids@ == players@.map_values(|p: (UserId, PlayerPosition)| p.0).take(i as int),
            decreases players@.len() - i,
        {
            ids.push(players[i].0);
            assert(players@.map_values(|p: (UserId, PlayerPosition)| p.0).take(i + 1)
                == players@.map_values(|p: (UserId, PlayerPosition)| p.0).take(i as int).push(players@[i as int].0));
            i = i + 1;
        }
        assert(players@.map_values(|p: (UserId, PlayerPosition)| p.0).take(i as int)
            == players@.map_values(|p: (UserId, PlayerPosition)| p.0));
        PlayerResponse { players: ids }
    }
}

impl User {
    /// The public face of a stored user.
    pub fn from_stored(value: crate::models::data::User) -> (u: User)
        ensures
            u == (User { id: value.id, username: value.username }),
    {
        User { id: value.id, username: value.username }
    }
}

} // verus!
