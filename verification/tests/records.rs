use anime_quotes::errors::AppError;
use anime_quotes::store::{Quote, Store, User};

fn seeded_store() -> (Store, User) {
    let mut store = Store::new();
    let user = User::new(&mut store, "alice".to_string(), "$encoded$hash".to_string()).unwrap();
    (store, user)
}

#[test]
fn create_assigns_ids_from_one() {
    let (mut store, alice) = seeded_store();
    assert_eq!(alice.id, 1);
    let bob = User::new(&mut store, "bob".to_string(), "$h$2".to_string()).unwrap();
    assert_eq!(bob.id, 2);
    let q1 = Quote::new(&mut store, alice.id, "A".to_string(), "X".to_string(), "C".to_string())
        .unwrap();
    assert_eq!(q1.id, 1);
    let q2 = Quote::new(&mut store, bob.id, "B".to_string(), "Y".to_string(), "D".to_string())
        .unwrap();
    assert_eq!(q2.id, 2);
}

#[test]
fn user_create_refuses_taken_username() {
    let (mut store, _alice) = seeded_store();
    let refused = User::new(&mut store, "alice".to_string(), "$h$other".to_string()).unwrap_err();
    assert_eq!(refused, AppError::ValidationError);
    assert_eq!(User::find(&store).unwrap().len(), 1);
}

#[test]
fn user_lookup_by_id_and_username() {
    let (store, alice) = seeded_store();
    let by_id = User::find_by_id(&store, alice.id).unwrap();
    assert_eq!(by_id.username, "alice");
    assert_eq!(by_id.password, "$encoded$hash");
    let by_name = User::find_by_username(&store, &"alice".to_string()).unwrap();
    assert_eq!(by_name.id, alice.id);

    assert_eq!(User::find_by_id(&store, 99).unwrap_err(), AppError::NotFoundError);
    let missing = User::find_by_username(&store, &"bob".to_string()).unwrap_err();
    assert_eq!(missing, AppError::NotFoundError);
}

#[test]
fn quote_create_requires_existing_owner() {
    let mut store = Store::new();
    let refused =
        Quote::new(&mut store, 1, "A".to_string(), "X".to_string(), "C".to_string()).unwrap_err();
    assert_eq!(refused, AppError::NotFoundError);
    assert_eq!(Quote::find(&store).unwrap().len(), 0);
}

#[test]
fn quote_update_changes_only_its_fields() {
    let (mut store, alice) = seeded_store();
    let mut q = Quote::new(&mut store, alice.id, "A".to_string(), "X".to_string(), "C".to_string())
        .unwrap();
    q.update(&mut store, "A2".to_string(), "X2".to_string(), "C2".to_string()).unwrap();
    assert_eq!(q.quote, "A2");

    let stored = Quote::find_by_id(&store, q.id).unwrap();
    assert_eq!(stored.quote, "A2");
    assert_eq!(stored.anime, "X2");
    assert_eq!(stored.character, "C2");
    assert_eq!(stored.user_id, alice.id);
}

#[test]
fn quote_update_of_missing_id_is_not_found() {
    let (mut store, alice) = seeded_store();
    let mut q = Quote::new(&mut store, alice.id, "A".to_string(), "X".to_string(), "C".to_string())
        .unwrap();
    q.delete(&mut store).unwrap();
    let refused =
        q.update(&mut store, "B".to_string(), "Y".to_string(), "D".to_string()).unwrap_err();
    assert_eq!(refused, AppError::NotFoundError);
}

#[test]
fn quote_delete_removes_exactly_one() {
    let (mut store, alice) = seeded_store();
    let q1 = Quote::new(&mut store, alice.id, "A".to_string(), "X".to_string(), "C".to_string())
        .unwrap();
    let q2 = Quote::new(&mut store, alice.id, "B".to_string(), "Y".to_string(), "D".to_string())
        .unwrap();
    q1.delete(&mut store).unwrap();
    assert_eq!(Quote::find_by_id(&store, q1.id).unwrap_err(), AppError::NotFoundError);
    assert_eq!(Quote::find_by_id(&store, q2.id).unwrap().quote, "B");
    assert_eq!(q1.delete(&mut store).unwrap_err(), AppError::NotFoundError);
}

#[test]
fn user_delete_cascades_to_owned_quotes() {
    let (mut store, alice) = seeded_store();
    let bob = User::new(&mut store, "bob".to_string(), "$h$2".to_string()).unwrap();
    Quote::new(&mut store, alice.id, "A".to_string(), "X".to_string(), "C".to_string()).unwrap();
    let bobs = Quote::new(&mut store, bob.id, "B".to_string(), "Y".to_string(), "D".to_string())
        .unwrap();

    alice.delete(&mut store).unwrap();
    assert_eq!(User::find_by_id(&store, alice.id).unwrap_err(), AppError::NotFoundError);
    let remaining = Quote::find(&store).unwrap();
    assert_eq!(remaining.len(), 1);
    assert_eq!(remaining[0].id, bobs.id);
    assert_eq!(alice.delete(&mut store).unwrap_err(), AppError::NotFoundError);
}

#[test]
fn update_password_replaces_the_stored_hash() {
    let (mut store, mut alice) = seeded_store();
    alice.update_password(&mut store, "$encoded$new".to_string()).unwrap();
    assert_eq!(alice.password, "$encoded$new");
    let stored = User::find_by_id(&store, alice.id).unwrap();
    assert_eq!(stored.password, "$encoded$new");
    assert_eq!(stored.username, "alice");
}

#[test]
fn owned_quotes_listing_follows_ownership() {
    let (mut store, alice) = seeded_store();
    let bob = User::new(&mut store, "bob".to_string(), "$h$2".to_string()).unwrap();
    Quote::new(&mut store, alice.id, "A".to_string(), "X".to_string(), "C".to_string()).unwrap();
    Quote::new(&mut store, bob.id, "B".to_string(), "Y".to_string(), "D".to_string()).unwrap();
    Quote::new(&mut store, alice.id, "E".to_string(), "Z".to_string(), "F".to_string()).unwrap();

    let alices = alice.quotes(&store).unwrap();
    assert_eq!(alices.len(), 2);
    assert_eq!(alices[0].quote, "A");
    assert_eq!(alices[1].quote, "E");

    let by_owner = Quote::find_by_user_id(&store, bob.id).unwrap();
    assert_eq!(by_owner.len(), 1);
    assert_eq!(by_owner[0].quote, "B");

    let nobody = Quote::find_by_user_id(&store, 99).unwrap();
    assert_eq!(nobody.len(), 0);
}
