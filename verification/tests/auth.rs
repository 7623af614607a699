use engine::auth::{get_user_id_from_auth, text_after, token_for, user_id_of_subject};
use engine::directory::{IpAddress, Server};
use engine::models::api::{AuthResponse, PlayerResponse, User};
use engine::models::data;
use engine::protocol::PlayerPosition;

const ID: u128 = 0xa1a2a3a4_b1b2_c1c2_d1d2_d3d4d5d6d7d8;

fn stored(id: u128, hash: &str) -> data::User {
    data::User {
        id,
        username: String::from("ann"),
        email: String::from("ann@example.org"),
        password_hash: String::from(hash),
    }
}

#[test]
fn text_after_gives_what_follows_the_first_delimiter() {
    assert_eq!(text_after("Bearer: abc", "Bearer: "), Some(String::from("abc")));
    assert_eq!(text_after("xx Bearer: abc", "Bearer: "), Some(String::from("abc")));
    assert_eq!(text_after("Bearer: a Bearer: b", "Bearer: "), Some(String::from("a Bearer: b")));
    assert_eq!(text_after("Bearer: ", "Bearer: "), Some(String::new()));
    assert_eq!(text_after("Bearer:abc", "Bearer: "), None);
    assert_eq!(text_after("bearer: abc", "Bearer: "), None);
    assert_eq!(text_after("", "Bearer: "), None);
    assert_eq!(text_after("Bear", "Bearer: "), None);
    assert_eq!(text_after("abc", ""), Some(String::from("abc")));
    assert_eq!(text_after("aab", "ab"), Some(String::new()));
    assert_eq!(text_after("ünï→x", "→"), Some(String::from("x")));
}

#[test]
fn a_token_names_the_user_it_was_made_for() {
    let token = token_for(ID).unwrap();
    let other = token_for(ID + 1).unwrap();
    assert_ne!(token, other);
    assert_eq!(token, token_for(ID).unwrap());
    assert_eq!(token.matches('.').count(), 2);
    assert!(token.ends_with('.'));
    let header = format!("Bearer: {}", token);
    assert_eq!(get_user_id_from_auth(Some(header.as_str())), Ok(ID));
    let header = format!("Bearer: {}", other);
    assert_eq!(get_user_id_from_auth(Some(header.as_str())), Ok(ID + 1));
}

#[test]
fn a_header_without_a_readable_token_names_nobody() {
    assert_eq!(get_user_id_from_auth(None), Err(()));
    assert_eq!(get_user_id_from_auth(Some("")), Err(()));
    assert_eq!(get_user_id_from_auth(Some("Basic abc")), Err(()));
    assert_eq!(get_user_id_from_auth(Some("Bearer: ")), Err(()));
    assert_eq!(get_user_id_from_auth(Some("Bearer: not.a.token")), Err(()));
    let token = token_for(ID).unwrap();
    assert_eq!(get_user_id_from_auth(Some(token.as_str())), Err(()));
    let wrong_prefix = format!("Bearer {}", token);
    assert_eq!(get_user_id_from_auth(Some(wrong_prefix.as_str())), Err(()));
}

#[test]
fn the_subject_of_a_token_is_the_text_of_a_uuid() {
    assert_eq!(user_id_of_subject(Some(String::from("a1a2a3a4-b1b2-c1c2-d1d2-d3d4d5d6d7d8"))), Ok(ID));
    assert_eq!(user_id_of_subject(Some(String::from("00000000-0000-0000-0000-000000000001"))), Ok(1));
    assert_eq!(user_id_of_subject(Some(String::from("ann"))), Err(()));
    assert_eq!(user_id_of_subject(Some(String::new())), Err(()));
    assert_eq!(user_id_of_subject(None), Err(()));
}

#[test]
fn the_answer_to_a_login_carries_the_users_token() {
    let response = AuthResponse::from_user(stored(ID, "")).unwrap();
    assert_eq!(response.token, token_for(ID).unwrap());
    let header = format!("Bearer: {}", response.token);
    assert_eq!(get_user_id_from_auth(Some(header.as_str())), Ok(ID));
    assert_eq!(AuthResponse::with_token(None), None);
    assert_eq!(
        AuthResponse::with_token(Some(String::from("t"))),
        Some(AuthResponse { token: String::from("t") })
    );
}

#[test]
fn a_password_is_verified_against_the_stored_hash() {
    let empty = stored(1, "$2a$06$DCq7YPn5Rq63x1Lad4cll.TV4S6ytwfsfvkgY8jIucDrjc8deX1s.");
    assert!(empty.verify_password(""));
    assert!(!empty.verify_password("a"));
    let a = stored(2, "$2a$06$m0CrhHm10qJ3lXRY.5zDGO3rS2KdeeWLuGmsfGlMfOxih58VYVfxe");
    assert!(a.verify_password("a"));
    assert!(!a.verify_password(""));
    assert!(!a.verify_password("b"));
}

#[test]
fn a_hash_that_cannot_be_read_admits_nobody() {
    assert!(!stored(1, "").verify_password(""));
    assert!(!stored(1, "secret").verify_password("secret"));
    assert!(!stored(1, "$2a$06$short").verify_password("a"));
}

#[test]
fn only_a_clear_yes_is_accepted() {
    assert!(data::accepted(Some(true)));
    assert!(!data::accepted(Some(false)));
    assert!(!data::accepted(None));
}

#[test]
fn a_sign_up_is_stored_with_a_hash_of_its_password() {
    let sign_up = || engine::models::api::NewUser {
        username: String::from("ann"),
        email: String::from("ann@example.org"),
        password: String::from("correct horse"),
    };
    let new_user = data::NewUser::from_api(sign_up()).unwrap();
    assert_eq!(new_user.username, "ann");
    assert_eq!(new_user.email, "ann@example.org");
    assert_ne!(new_user.password_hash, "correct horse");
    let user = stored(1, new_user.password_hash.as_str());
    assert!(user.verify_password("correct horse"));
    assert!(!user.verify_password("correct horse "));
    assert_eq!(
        data::NewUser::with_hash(sign_up(), String::from("h")),
        data::NewUser {
            username: String::from("ann"),
            email: String::from("ann@example.org"),
            password_hash: String::from("h"),
        }
    );
}

#[test]
fn a_stored_user_shows_its_id_and_name_only() {
    assert_eq!(User::from_stored(stored(5, "h")), User { id: 5, username: String::from("ann") });
}

#[test]
fn a_stored_server_needs_a_port_that_is_one() {
    let row = |port: i32| data::Server {
        id: 3,
        name: String::from("Arena-1"),
        addr: IpAddress::V4(1),
        port,
        last_ping: 9,
    };
    assert_eq!(
        Server::from_stored(row(2525)),
        Some(Server::with_id(3, IpAddress::V4(1), 2525, String::from("Arena-1"), 9))
    );
    assert_eq!(Server::from_stored(row(0)).unwrap().port, 0);
    assert_eq!(Server::from_stored(row(65535)).unwrap().port, 65535);
    assert_eq!(Server::from_stored(row(65536)), None);
    assert_eq!(Server::from_stored(row(-1)), None);
    assert_eq!(Server::from_stored(row(i32::MIN)), None);
}

#[test]
fn the_player_response_lists_the_users() {
    let origin = PlayerPosition::default();
    assert_eq!(PlayerResponse::from_players(&vec![]), PlayerResponse { players: vec![] });
    assert_eq!(
        PlayerResponse::from_players(&vec![(7, origin), (3, origin), (7, origin)]),
        PlayerResponse { players: vec![7, 3, 7] }
    );
}
