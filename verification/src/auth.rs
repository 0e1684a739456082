use vstd::prelude::*;

use crate::errors::AppError;
use crate::hasher;
use crate::hasher::password_verifies;
use crate::session::Session;
use crate::store::{has_username, Store, User, UserView};

verus! {

/// Credentials as a client submits them.
#[derive(Debug)]
pub struct AuthUser {
    pub username: String,
    pub password: String,
}

/// The password-free projection of a user record: the only shape of a user
/// that endpoints ever return, so a stored hash cannot leak.
#[derive(Debug)]
pub struct UserWithoutPassword {
    pub id: i32,
    pub username: String,
}

impl Default for UserWithoutPassword {
    /// The placeholder projection: an unassigned id and an empty username.
    fn default() -> (r: Self)
        ensures
            r.id == -1,
            r.username@.len() == 0,
    {
        UserWithoutPassword { id: -1, username: String::new() }
    }
}

impl From<User> for UserWithoutPassword {
    /// Project a user record down to its public fields.
    fn from(user: User) -> Self {
        UserWithoutPassword { id: user.id, username: user.username }
    }
}

impl vstd::std_specs::convert::FromSpecImpl<User> for UserWithoutPassword {
    open spec fn obeys_from_spec() -> bool {
        true
    }

    open spec fn from_spec(user: User) -> Self {
        UserWithoutPassword { id: user.id, username: user.username }
    }
}

/// A human-readable response body.
#[derive(Debug)]
pub struct Message {
    pub message: String,
}

/// Register a new account: refuse empty inputs and taken usernames, hash the
/// password under a fresh salt, create the record, and bind the session to
/// the new id before reporting success, so a success response and the session
/// state never disagree. No failure binds the session or touches the store.
pub fn register(store: &mut Store, session: &mut Session, payload: AuthUser) -> (r: Result<
    UserWithoutPassword,
    AppError,
>)
    requires
        old(store).wf(),
    ensures
        final(store).wf(),
        (r == Err::<UserWithoutPassword, AppError>(AppError::ValidationError) <==> (
        payload.username@.len() == 0 || payload.password@.len() == 0 || has_username(
            old(store)@.users,
            payload.username@,
        ))),
        (payload.username@.len() > 0 && payload.password@.len() > 0 && !has_username(
            old(store)@.users,
            payload.username@,
        ) && old(store)@.next_user_id < i32::MAX) ==> (r is Ok || r == Err::<
            UserWithoutPassword,
            AppError,
        >(AppError::HashingError)),
        match r {
            Ok(u) => {
                &&& u.id as int == old(store)@.next_user_id
                &&& u.username@ == payload.username@
                &&& exists|h: Seq<char>|
                    #[trigger] password_verifies(payload.password@, h) && final(store)@.users =~= old(
                        store,
                    )@.users.push(
                        (UserView {
                            id: u.id as int,
                            username: payload.username@,
                            password: h,
                            created_at: final(store)@.clock,
                            updated_at: final(store)@.clock,
                        }),
                    )
                &&& final(store)@.quotes == old(store)@.quotes
                &&& final(store)@.next_user_id == old(store)@.next_user_id + 1
                &&& final(store)@.next_quote_id == old(store)@.next_quote_id
                &&& final(session)@ == Some(u.id as int)
            },
            Err(e) => {
                &&& final(store)@ == old(store)@
                &&& final(session)@ == old(session)@
                &&& (e == AppError::ValidationError || e == AppError::HashingError || e
                    == AppError::StorageError)
                &&& (e == AppError::StorageError ==> old(store)@.next_user_id == i32::MAX)
            },
        },
{
    if payload.username.as_str().is_empty() || payload.password.as_str().is_empty() {
        return Err(AppError::ValidationError);
    }
    if User::find_by_username(store, &payload.username).is_ok() {
        return Err(AppError::ValidationError);
    }
    let hashed = match hasher::hash_password(payload.password.as_str()) {
        Ok(h) => h,
        Err(e) => {
            return Err(e);
        },
    };
    match User::new(store, payload.username, hashed) {
        Ok(user) => {
            session.insert_user_id(user.id);
            Ok(UserWithoutPassword::from(user))
        },
        Err(e) => Err(e),
    }
}

/// Log an existing account in. The check is exact: it succeeds if and only if
/// some stored user carries the submitted username and the submitted password
/// verifies against that user's stored hash; only then is the session bound,
/// to exactly that user's id. A missing username and a wrong password yield
/// the same `AuthenticationError`, so a client cannot probe which usernames
/// exist. The store is never modified.
pub fn login(store: &Store, session: &mut Session, payload: AuthUser) -> (r: Result<
    UserWithoutPassword,
    AppError,
>)
    requires
        store.wf(),
    ensures
        (r is Ok <==> exists|k: int|
            0 <= k < store@.users.len() && (#[trigger] store@.users[k]).username
                == payload.username@ && password_verifies(
                payload.password@,
                store@.users[k].password,
            )),
        match r {
            Ok(u) => {
                &&& exists|k: int|
                    0 <= k < store@.users.len() && (#[trigger] store@.users[k]).username
                        == payload.username@ && password_verifies(
                        payload.password@,
                        store@.users[k].password,
                    ) && u.id as int == store@.users[k].id && u.username@
                        == store@.users[k].username
                &&& final(session)@ == Some(u.id as int)
            },
            Err(e) => {
                &&& e == AppError::AuthenticationError
                &&& final(session)@ == old(session)@
            },
        },
{
    let user = match User::find_by_username(store, &payload.username) {
        Ok(u) => u,
        Err(_) => {
            return Err(AppError::AuthenticationError);
        },
    };
    let ghost k0 = choose|k: int|
        0 <= k < store@.users.len() && (#[trigger] store@.users[k]).username == payload.username@
            && user@ == store@.users[k];
    if hasher::verify_password(payload.password.as_str(), user.password.as_str()) {
        proof {
            assert(password_verifies(payload.password@, store@.users[k0].password));
        }
        session.insert_user_id(user.id);
        Ok(UserWithoutPassword::from(user))
    } else {
        proof {
            assert forall|k: int|
                0 <= k < store@.users.len() && (#[trigger] store@.users[k]).username
                    == payload.username@ implies !password_verifies(
                payload.password@,
                store@.users[k].password,
            ) by {
                if k < k0 {
                    assert(store@.users[k].username != store@.users[k0].username);
                } else if k > k0 {
                    assert(store@.users[k0].username != store@.users[k].username);
                }
            }
        }
        Err(AppError::AuthenticationError)
    }
}

/// Destroy the session's server-side binding unconditionally and report it.
/// Logging out an already logged-out session is not an error: the operation
/// is idempotent and always leaves the session unbound.
pub fn logout(session: &mut Session) -> (m: Message)
    ensures
        final(session)@ is None,
        m.message@ == "Logged out"@,
{
    session.destroy();
    Message { message: "Logged out".to_owned() }
}

} // verus!
