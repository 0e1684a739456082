use anime_quotes::auth::{login, logout, register, AuthUser};
use anime_quotes::errors::AppError;
use anime_quotes::quotes::{authorize, create_quote, get_quotes, read_quote, Decision, QuoteWithoutId};
use anime_quotes::session::Session;
use anime_quotes::store::{Quote, Store, User};

fn creds(username: &str, password: &str) -> AuthUser {
    AuthUser { username: username.to_string(), password: password.to_string() }
}

fn fields(quote: &str, anime: &str, character: &str) -> QuoteWithoutId {
    QuoteWithoutId {
        quote: quote.to_string(),
        anime: anime.to_string(),
        character: character.to_string(),
    }
}

#[test]
fn register_then_login() {
    let mut store = Store::new();
    let mut session = Session::new();

    let user = register(&mut store, &mut session, creds("alice", "secret1")).unwrap();
    assert_eq!(user.username, "alice");
    assert_eq!(session.get_user_id(), Some(user.id));

    let mut fresh = Session::new();
    let logged_in = login(&store, &mut fresh, creds("alice", "secret1")).unwrap();
    assert_eq!(logged_in.id, user.id);
    assert_eq!(logged_in.username, "alice");
    assert_eq!(fresh.get_user_id(), Some(user.id));
}

#[test]
fn login_failures_are_indistinguishable() {
    let mut store = Store::new();
    let mut session = Session::new();
    register(&mut store, &mut session, creds("alice", "secret1")).unwrap();

    let mut wrong_pw = Session::new();
    let wrong_password = login(&store, &mut wrong_pw, creds("alice", "wrong")).unwrap_err();
    assert_eq!(wrong_password, AppError::AuthenticationError);
    assert_eq!(wrong_pw.get_user_id(), None);

    let mut unknown = Session::new();
    let unknown_user = login(&store, &mut unknown, creds("bob", "anything")).unwrap_err();
    assert_eq!(unknown_user, AppError::AuthenticationError);
    assert_eq!(unknown_user, wrong_password);
    assert_eq!(unknown.get_user_id(), None);
}

#[test]
fn register_rejects_empty_fields_and_duplicates() {
    let mut store = Store::new();
    let mut session = Session::new();

    let empty_username = register(&mut store, &mut session, creds("", "secret1")).unwrap_err();
    assert_eq!(empty_username, AppError::ValidationError);
    let empty_password = register(&mut store, &mut session, creds("alice", "")).unwrap_err();
    assert_eq!(empty_password, AppError::ValidationError);
    assert_eq!(session.get_user_id(), None);

    register(&mut store, &mut session, creds("alice", "secret1")).unwrap();
    let mut other = Session::new();
    let duplicate = register(&mut store, &mut other, creds("alice", "secret2")).unwrap_err();
    assert_eq!(duplicate, AppError::ValidationError);
    assert_eq!(other.get_user_id(), None);
}

#[test]
fn created_quote_is_owned_by_the_session_user() {
    let mut store = Store::new();
    let mut session = Session::new();
    let alice = register(&mut store, &mut session, creds("alice", "secret1")).unwrap();

    let q = create_quote(&mut store, &session, fields("Believe it!", "Naruto", "Naruto"))
        .unwrap();
    let stored = Quote::find_by_id(&store, q.id).unwrap();
    assert_eq!(stored.user_id, alice.id);
    assert_eq!(stored.quote, "Believe it!");
    assert_eq!(stored.anime, "Naruto");
    assert_eq!(stored.character, "Naruto");
}

#[test]
fn reading_a_foreign_quote_is_refused() {
    let mut store = Store::new();

    let mut bob_session = Session::new();
    register(&mut store, &mut bob_session, creds("bob", "hunter2")).unwrap();
    let bobs_quote =
        create_quote(&mut store, &bob_session, fields("I am mad.", "Trigun", "Vash")).unwrap();

    let mut alice_session = Session::new();
    register(&mut store, &mut alice_session, creds("alice", "secret1")).unwrap();

    let denied = read_quote(&store, &alice_session, bobs_quote.id).unwrap_err();
    assert_eq!(denied, AppError::AuthorizationError);
}

#[test]
fn logout_unbinds_the_session() {
    let mut store = Store::new();
    let mut session = Session::new();
    register(&mut store, &mut session, creds("alice", "secret1")).unwrap();

    let message = logout(&mut session);
    assert_eq!(message.message, "Logged out");
    assert_eq!(session.get_user_id(), None);

    let refused =
        create_quote(&mut store, &session, fields("Believe it!", "Naruto", "Naruto")).unwrap_err();
    assert_eq!(refused, AppError::AuthenticationError);
}

#[test]
fn logout_is_idempotent() {
    let mut session = Session::new();
    logout(&mut session);
    logout(&mut session);
    assert_eq!(session.get_user_id(), None);

    let mut never_bound = Session::new();
    let message = logout(&mut never_bound);
    assert_eq!(message.message, "Logged out");
}

#[test]
fn create_then_read_round_trip() {
    let mut store = Store::new();
    let mut session = Session::new();
    register(&mut store, &mut session, creds("alice", "secret1")).unwrap();

    let created = create_quote(
        &mut store,
        &session,
        fields("People die if they are killed.", "Fate/stay night", "Shirou"),
    )
    .unwrap();
    let read = read_quote(&store, &session, created.id).unwrap();
    assert_eq!(read.id, created.id);
    assert_eq!(read.quote, "People die if they are killed.");
    assert_eq!(read.anime, "Fate/stay night");
    assert_eq!(read.character, "Shirou");
}

#[test]
fn quote_listing_is_owner_filtered() {
    let mut store = Store::new();

    let mut alice = Session::new();
    register(&mut store, &mut alice, creds("alice", "secret1")).unwrap();
    create_quote(&mut store, &alice, fields("A", "X", "C1")).unwrap();
    create_quote(&mut store, &alice, fields("B", "Y", "C2")).unwrap();

    let mut bob = Session::new();
    register(&mut store, &mut bob, creds("bob", "hunter2")).unwrap();
    create_quote(&mut store, &bob, fields("C", "Z", "C3")).unwrap();

    let alices = get_quotes(&store, &alice).unwrap();
    assert_eq!(alices.len(), 2);
    assert_eq!(alices[0].quote, "A");
    assert_eq!(alices[1].quote, "B");

    let bobs = get_quotes(&store, &bob).unwrap();
    assert_eq!(bobs.len(), 1);
    assert_eq!(bobs[0].quote, "C");
}

#[test]
fn unauthenticated_quote_access_is_refused() {
    let store = Store::new();
    let session = Session::new();
    assert_eq!(get_quotes(&store, &session).unwrap_err(), AppError::AuthenticationError);
    assert_eq!(read_quote(&store, &session, 1).unwrap_err(), AppError::AuthenticationError);
}

#[test]
fn reading_a_missing_quote_is_not_found() {
    let mut store = Store::new();
    let mut session = Session::new();
    register(&mut store, &mut session, creds("alice", "secret1")).unwrap();
    assert_eq!(read_quote(&store, &session, 42).unwrap_err(), AppError::NotFoundError);
}

#[test]
fn authorize_decides_by_session_and_owner() {
    assert_eq!(authorize(None, 1), Decision::DenyUnauthenticated);
    assert_eq!(authorize(Some(1), 1), Decision::Allow);
    assert_eq!(authorize(Some(1), 2), Decision::DenyNotOwner);
}

#[test]
fn session_binding_can_be_replaced() {
    let mut session = Session::new();
    assert_eq!(session.get_user_id(), None);
    session.insert_user_id(7);
    assert_eq!(session.get_user_id(), Some(7));
    session.insert_user_id(9);
    assert_eq!(session.get_user_id(), Some(9));
    session.destroy();
    assert_eq!(session.get_user_id(), None);
}

#[test]
fn default_records_are_placeholders() {
    let u = User::default();
    assert_eq!(u.id, -1);
    assert_eq!(u.username, "");
    assert_eq!(u.password, "");

    let p = anime_quotes::auth::UserWithoutPassword::default();
    assert_eq!(p.id, -1);
    assert_eq!(p.username, "");

    let q = anime_quotes::quotes::QuoteWithId::default();
    assert_eq!(q.id, 0);
    assert_eq!(q.quote, "");
    assert_eq!(q.anime, "");
    assert_eq!(q.character, "");
}
