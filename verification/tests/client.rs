use engine::client::{
    display_author, display_user, find_endpoint, handle_render_event, keyboard_input, reload_servers,
    ApiEvent, ApiMessage, ApiRequest, ApiResource, AuthState, ChatInputState, ClientEvent,
    ConnectionState, DisplayName, KeyEdge, LoadableData, LoginInputState, MovementKeys,
    RegisterInputState, RenderEvent, ServerInfo,
};
use engine::directory::{IpAddress, Server};
use engine::models::api::{Credentials, NewUser, User};
use engine::movement::{MoveModifier, Movement};
use engine::protocol::{ClientMessage, PlayerPosition, ServerMessage};
use engine::registry::SessionRegistry;

fn api() -> ApiResource {
    ApiResource::new(String::from("http://localhost:3000"))
}

fn user(id: u128, name: &str) -> User {
    User { id, username: String::from(name) }
}

fn idle() -> KeyEdge {
    KeyEdge { just_pressed: false, just_released: false }
}

fn down() -> KeyEdge {
    KeyEdge { just_pressed: true, just_released: false }
}

fn up() -> KeyEdge {
    KeyEdge { just_pressed: false, just_released: true }
}

#[test]
fn the_client_starts_anonymous_and_disconnected() {
    assert_eq!(AuthState::default(), AuthState::Anonymous);
    assert_eq!(ConnectionState::default(), ConnectionState::Disconnected);
}

#[test]
fn loadable_data_follows_its_fetches() {
    let mut l: LoadableData<u8> = LoadableData::new();
    assert_eq!(l, LoadableData { loading: false, data: None });
    assert_eq!(LoadableData::<u8>::default(), l);
    l.start();
    assert_eq!(l, LoadableData { loading: true, data: None });
    l.finish(5);
    assert_eq!(l, LoadableData { loading: true, data: Some(5) });
    l.start();
    assert_eq!(l, LoadableData { loading: true, data: Some(5) });
    l.failed();
    assert_eq!(l, LoadableData { loading: false, data: None });
}

#[test]
fn a_new_api_resource_holds_nothing() {
    let api = api();
    assert_eq!(api.base_url, "http://localhost:3000");
    assert_eq!(api.token, LoadableData::new());
    assert_eq!(api.profile, LoadableData::new());
    assert_eq!(api.servers, LoadableData::new());
    assert!(api.users.is_empty());
}

#[test]
fn authenticate_is_asked_once_while_the_answer_is_awaited() {
    let mut api = api();
    let login = || ApiEvent::Authenticate { username: String::from("ann"), password: String::from("pw") };
    assert_eq!(
        api.handle_event(login()),
        Some(ApiRequest::Authenticate(Credentials {
            username: String::from("ann"),
            password: String::from("pw"),
        }))
    );
    assert!(api.token.loading);
    assert_eq!(api.handle_event(login()), None);
    let register = ApiEvent::Register {
        username: String::from("ann"),
        email: String::from("ann@example.org"),
        password: String::from("pw"),
    };
    assert_eq!(api.handle_event(register), None);
}

#[test]
fn register_asks_with_the_sign_up_data() {
    let mut api = api();
    let register = ApiEvent::Register {
        username: String::from("ann"),
        email: String::from("ann@example.org"),
        password: String::from("pw"),
    };
    assert_eq!(
        api.handle_event(register),
        Some(ApiRequest::Register(NewUser {
            username: String::from("ann"),
            email: String::from("ann@example.org"),
            password: String::from("pw"),
        }))
    );
    assert!(api.token.loading);
}

#[test]
fn a_failed_login_may_be_tried_again() {
    let mut api = api();
    let login = || ApiEvent::Authenticate { username: String::from("ann"), password: String::from("pw") };
    assert!(api.handle_event(login()).is_some());
    let outcome = api.handle_message(ApiMessage::AuthenticateFulfilled(Err(())));
    assert!(!outcome.authenticated);
    assert!(outcome.events.is_empty());
    assert_eq!(api.token, LoadableData::new());
    assert!(api.handle_event(login()).is_some());
}

#[test]
fn a_login_that_succeeds_loads_the_profile_and_then_the_servers() {
    let mut api = api();
    let outcome = api.handle_message(ApiMessage::AuthenticateFulfilled(Ok(String::from("tok"))));
    assert!(outcome.authenticated);
    assert_eq!(outcome.events, vec![ApiEvent::LoadProfile, ApiEvent::LoadServers]);
    assert_eq!(api.token, LoadableData { loading: true, data: Some(String::from("tok")) });
    let outcome = api.handle_message(ApiMessage::RegisterFulfilled(Ok(String::from("tok2"))));
    assert!(outcome.authenticated);
    assert_eq!(outcome.events, vec![ApiEvent::LoadProfile, ApiEvent::LoadServers]);
    assert_eq!(api.token.data, Some(String::from("tok2")));
    let outcome = api.handle_message(ApiMessage::RegisterFulfilled(Err(())));
    assert!(!outcome.authenticated);
    assert_eq!(api.token, LoadableData::new());
}

#[test]
fn the_profile_is_asked_for_with_the_token() {
    let mut api = api();
    assert_eq!(api.handle_event(ApiEvent::LoadProfile), None);
    assert!(api.profile.loading);
    let mut api = self::api();
    api.handle_message(ApiMessage::AuthenticateFulfilled(Ok(String::from("tok"))));
    assert_eq!(
        api.handle_event(ApiEvent::LoadProfile),
        Some(ApiRequest::GetProfile { token: String::from("tok") })
    );
    assert_eq!(api.handle_event(ApiEvent::LoadProfile), None);
    let outcome = api.handle_message(ApiMessage::LoadProfileFulfilled(Ok(user(1, "ann"))));
    assert!(!outcome.authenticated);
    assert!(outcome.events.is_empty());
    assert_eq!(api.profile, LoadableData { loading: true, data: Some(user(1, "ann")) });
    api.handle_message(ApiMessage::LoadProfileFulfilled(Err(())));
    assert_eq!(api.profile, LoadableData::new());
}

#[test]
fn the_server_list_is_loaded_once_at_a_time() {
    let mut api = api();
    assert_eq!(api.handle_event(ApiEvent::LoadServers), Some(ApiRequest::ListServers));
    assert_eq!(api.handle_event(ApiEvent::LoadServers), None);
    api.handle_message(ApiMessage::LoadServersFulfilled(Err(())));
    assert_eq!(api.servers, LoadableData::new());
    assert_eq!(api.handle_event(ApiEvent::LoadServers), Some(ApiRequest::ListServers));
    let list = vec![Server::with_id(1, IpAddress::V4(1), 2525, String::from("a"), 0)];
    api.handle_message(ApiMessage::LoadServersFulfilled(Ok(list.clone())));
    assert_eq!(api.servers, LoadableData { loading: true, data: Some(list) });
}

#[test]
fn users_are_loaded_one_by_one() {
    let mut api = api();
    assert_eq!(api.handle_event(ApiEvent::LoadUser(7)), Some(ApiRequest::GetUser(7)));
    assert_eq!(api.users.get(&7), Some(&LoadableData { loading: true, data: None }));
    assert_eq!(api.handle_event(ApiEvent::LoadUser(7)), None);
    assert_eq!(api.handle_event(ApiEvent::LoadUser(8)), Some(ApiRequest::GetUser(8)));
    assert_eq!(api.username_of(7), None);
    api.handle_message(ApiMessage::LoadUserFulfilled(7, Ok(user(7, "bob"))));
    assert_eq!(api.users.get(&7), Some(&LoadableData { loading: true, data: Some(user(7, "bob")) }));
    assert_eq!(api.username_of(7), Some(String::from("bob")));
    api.handle_message(ApiMessage::LoadUserFulfilled(8, Err(())));
    assert_eq!(api.users.get(&8), Some(&LoadableData { loading: false, data: None }));
    assert_eq!(api.handle_event(ApiEvent::LoadUser(8)), Some(ApiRequest::GetUser(8)));
    assert_eq!(api.users.len(), 2);
}

#[test]
fn an_answer_for_a_user_nobody_asked_about_is_dropped() {
    let mut api = api();
    api.handle_message(ApiMessage::LoadUserFulfilled(7, Ok(user(7, "bob"))));
    api.handle_message(ApiMessage::LoadUserFulfilled(8, Err(())));
    assert!(api.users.is_empty());
    assert_eq!(api.handle_event(ApiEvent::LoadUser(9)), Some(ApiRequest::GetUser(9)));
    api.handle_message(ApiMessage::LoadUserFulfilled(9, Ok(user(10, "eve"))));
    assert_eq!(api.users.get(&9), Some(&LoadableData { loading: true, data: None }));
    assert_eq!(api.users.get(&10), None);
}

#[test]
fn a_client_joins_with_its_own_user_id() {
    let mut api = api();
    assert_eq!(api.join_message(), None);
    assert!(!api.is_local_user(5));
    api.handle_message(ApiMessage::LoadProfileFulfilled(Ok(user(5, "ann"))));
    assert_eq!(api.join_message(), Some(ClientMessage::Join { user_id: 5 }));
    assert!(api.is_local_user(5));
    assert!(!api.is_local_user(6));
}

#[test]
fn the_endpoint_of_a_server_comes_from_the_loaded_list() {
    let mut api = api();
    assert_eq!(api.endpoint_of(1), None);
    let list = vec![
        Server::with_id(1, IpAddress::V4(0x7f000001), 2525, String::from("a"), 0),
        Server::with_id(2, IpAddress::V6(1), 2526, String::from("b"), 0),
        Server::with_id(1, IpAddress::V4(9), 9, String::from("c"), 0),
    ];
    assert_eq!(find_endpoint(&list, 1), Some((IpAddress::V4(0x7f000001), 2525)));
    assert_eq!(find_endpoint(&list, 2), Some((IpAddress::V6(1), 2526)));
    assert_eq!(find_endpoint(&list, 3), None);
    assert_eq!(find_endpoint(&Vec::new(), 1), None);
    api.handle_message(ApiMessage::LoadServersFulfilled(Ok(list)));
    assert_eq!(api.endpoint_of(2), Some((IpAddress::V6(1), 2526)));
    assert_eq!(api.endpoint_of(4), None);
}

#[test]
fn server_messages_update_what_the_client_knows() {
    let mut info = ServerInfo::new();
    assert_eq!(info.id, None);
    let effects = info.handle_message(ServerMessage::ClientConnected { client_id: 1, user_id: 10 });
    assert_eq!(effects.load_user, Some(10));
    assert_eq!(effects.render, Some(RenderEvent::Spawn { client_id: 1, user_id: 10 }));
    assert_eq!(info.connected.get(&1), Some(&10));

    let effects = info.handle_message(ServerMessage::ChatMessage { client_id: 1, message: String::from("hi") });
    assert_eq!(effects.load_user, None);
    assert_eq!(effects.render, None);
    assert_eq!(info.messages, vec![(1, String::from("hi"))]);

    let position = PlayerPosition::new(1.0f32.to_bits(), 0, 0);
    let effects = info.handle_message(ServerMessage::UpdatePosition { client_id: 1, position });
    assert_eq!(effects.load_user, None);
    assert_eq!(effects.render, Some(RenderEvent::UpdatePosition { client_id: 1, position }));

    let effects =
        info.handle_message(ServerMessage::SendModifier { client_id: 1, key_code: MoveModifier::StartLeft });
    assert_eq!(
        effects.render,
        Some(RenderEvent::UpdateMovement { client_id: 1, modifier: MoveModifier::StartLeft })
    );

    let effects = info.handle_message(ServerMessage::ClientDisconnected { client_id: 1 });
    assert_eq!(effects.load_user, None);
    assert_eq!(effects.render, Some(RenderEvent::Despawn(1)));
    assert!(info.connected.is_empty());
    assert_eq!(info.messages.len(), 1);
}

#[test]
fn connecting_and_disconnecting() {
    let mut info = ServerInfo::new();
    info.connected_to(77);
    assert_eq!(info.id, Some(77));
    info.handle_message(ServerMessage::ClientConnected { client_id: 1, user_id: 10 });
    info.handle_message(ServerMessage::ClientConnected { client_id: 2, user_id: 20 });
    assert_eq!(info.disconnect(Some(1)), ClientMessage::Disconnect);
    assert_eq!(info.connected.len(), 1);
    assert_eq!(info.connected.get(&2), Some(&20));
    assert_eq!(info.disconnect(None), ClientMessage::Disconnect);
    assert_eq!(info.connected.len(), 1);
    assert_eq!(ClientEvent::Connect(77), ClientEvent::Connect(77));
    assert_ne!(ClientEvent::Connect(77), ClientEvent::Disconnect);
}

#[test]
fn render_events_change_the_players_shown() {
    let mut shown = SessionRegistry::new();
    handle_render_event(&mut shown, RenderEvent::Spawn { client_id: 1, user_id: 10 });
    handle_render_event(&mut shown, RenderEvent::Spawn { client_id: 2, user_id: 20 });
    handle_render_event(&mut shown, RenderEvent::Spawn { client_id: 1, user_id: 30 });
    assert_eq!(shown.client_ids(), vec![1, 2]);
    assert_eq!(shown.get(1).unwrap().player.user_id, 10);
    let position = PlayerPosition::new(2.5f32.to_bits(), 0, 1.0f32.to_bits());
    handle_render_event(&mut shown, RenderEvent::UpdatePosition { client_id: 2, position });
    handle_render_event(&mut shown, RenderEvent::UpdatePosition { client_id: 3, position });
    assert_eq!(shown.get(2).unwrap().position, position);
    handle_render_event(
        &mut shown,
        RenderEvent::UpdateMovement { client_id: 1, modifier: MoveModifier::StartBackward },
    );
    assert_eq!(shown.get(1).unwrap().movement, Movement { backward: true, ..Movement::new() });
    handle_render_event(&mut shown, RenderEvent::Despawn(1));
    handle_render_event(&mut shown, RenderEvent::Despawn(1));
    assert_eq!(shown.client_ids(), vec![2]);
}

#[test]
fn keys_become_triggers_in_a_fixed_order() {
    let mut m = Movement::new();
    let keys = MovementKeys { forward: down(), backward: down(), right: down(), left: down() };
    assert_eq!(
        keyboard_input(&mut m, keys),
        vec![
            MoveModifier::StartForward,
            MoveModifier::StartBackward,
            MoveModifier::StartRight,
            MoveModifier::StartLeft,
        ]
    );
    assert_eq!(m, Movement { forward: true, backward: true, right: true, left: true });
    let keys = MovementKeys { forward: up(), backward: idle(), right: up(), left: idle() };
    assert_eq!(keyboard_input(&mut m, keys), vec![MoveModifier::StopForward, MoveModifier::StopRight]);
    assert_eq!(m, Movement { forward: false, backward: true, right: false, left: true });
}

#[test]
fn a_key_that_went_down_and_up_in_one_frame_counts_as_down() {
    let mut m = Movement::new();
    let both = KeyEdge { just_pressed: true, just_released: true };
    let keys = MovementKeys { forward: idle(), backward: both, right: idle(), left: idle() };
    assert_eq!(keyboard_input(&mut m, keys), vec![MoveModifier::StartBackward]);
    assert!(m.backward);
}

#[test]
fn idle_keys_trigger_nothing() {
    let mut m = Movement { forward: true, backward: false, right: false, left: true };
    let keys = MovementKeys { forward: idle(), backward: idle(), right: idle(), left: idle() };
    assert_eq!(keyboard_input(&mut m, keys), vec![]);
    assert_eq!(m, Movement { forward: true, backward: false, right: false, left: true });
}

#[test]
fn the_forms_submit_what_they_hold() {
    let login = LoginInputState { username: String::from("ann"), password: String::from("pw") };
    assert_eq!(
        login.submit(),
        ApiEvent::Authenticate { username: String::from("ann"), password: String::from("pw") }
    );
    assert_eq!(login.username, "ann");
    let sign_up = RegisterInputState {
        username: String::from("ann"),
        email: String::from("ann@example.org"),
        password: String::from("pw"),
    };
    assert_eq!(
        sign_up.submit(),
        ApiEvent::Register {
            username: String::from("ann"),
            email: String::from("ann@example.org"),
            password: String::from("pw"),
        }
    );
}

#[test]
fn sending_a_chat_line_empties_it() {
    let mut chat = ChatInputState { text: String::from("hello") };
    assert_eq!(chat.submit(), ClientMessage::ChatMessage { message: String::from("hello") });
    assert_eq!(chat.text, "");
    assert_eq!(chat.submit(), ClientMessage::ChatMessage { message: String::new() });
}

#[test]
fn people_are_shown_by_the_best_name_known() {
    let mut api = api();
    let mut info = ServerInfo::new();
    assert_eq!(display_author(&info, &api, 1), DisplayName::Connection(1));
    info.handle_message(ServerMessage::ClientConnected { client_id: 1, user_id: 10 });
    assert_eq!(display_author(&info, &api, 1), DisplayName::User(10));
    assert_eq!(display_user(&api, 10), DisplayName::User(10));
    api.handle_event(ApiEvent::LoadUser(10));
    assert_eq!(display_author(&info, &api, 1), DisplayName::User(10));
    api.handle_message(ApiMessage::LoadUserFulfilled(10, Ok(user(10, "bob"))));
    assert_eq!(display_author(&info, &api, 1), DisplayName::Name(String::from("bob")));
    assert_eq!(display_user(&api, 10), DisplayName::Name(String::from("bob")));
    assert_eq!(display_author(&info, &api, 2), DisplayName::Connection(2));
}

#[test]
fn the_server_list_is_reloaded_on_a_click_unless_it_is_loading() {
    let mut api = api();
    assert_eq!(reload_servers(&api, false), None);
    assert_eq!(reload_servers(&api, true), Some(ApiEvent::LoadServers));
    api.handle_event(ApiEvent::LoadServers);
    assert_eq!(reload_servers(&api, true), None);
}
