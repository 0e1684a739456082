use vstd::prelude::*;

use crate::errors::AppError;
use crate::session::Session;
use crate::store::{has_quote_id, has_user_id, quotes_owned_by, Quote, QuoteView, Store};

verus! {

/// Fields of a quote as a client submits them; the store assigns the id.
#[derive(Debug)]
pub struct QuoteWithoutId {
    pub quote: String,
    pub anime: String,
    pub character: String,
}

/// A quote as endpoints return it: the stored fields and the assigned id.
#[derive(Debug)]
pub struct QuoteWithId {
    pub id: i32,
    pub quote: String,
    pub anime: String,
    pub character: String,
}

impl Default for QuoteWithId {
    /// The placeholder projection: an unassigned id and empty fields.
    fn default() -> (r: Self)
        ensures
            r.id == 0,
            r.quote@.len() == 0,
            r.anime@.len() == 0,
            r.character@.len() == 0,
    {
        QuoteWithId {
            id: 0,
            quote: String::new(),
            anime: String::new(),
            character: String::new(),
        }
    }
}

impl From<Quote> for QuoteWithId {
    /// Project a quote record down to the fields endpoints return.
    fn from(quote: Quote) -> Self {
        QuoteWithId {
            id: quote.id,
            quote: quote.quote,
            anime: quote.anime,
            character: quote.character,
        }
    }
}

impl vstd::std_specs::convert::FromSpecImpl<Quote> for QuoteWithId {
    open spec fn obeys_from_spec() -> bool {
        true
    }

    open spec fn from_spec(quote: Quote) -> Self {
        QuoteWithId {
            id: quote.id,
            quote: quote.quote,
            anime: quote.anime,
            character: quote.character,
        }
    }
}

/// A human-readable response body.
#[derive(Debug)]
pub struct Message {
    pub message: String,
}

/// Outcome of the ownership authorization check. The two refusals stay
/// distinct: a missing session is an authentication failure, a foreign owner
/// an authorization failure.
#[derive(Clone, Copy, Debug, PartialEq, Eq, Structural)]
pub enum Decision {
    /// The session is bound to the record's owner.
    Allow,
    /// No authenticated session.
    DenyUnauthenticated,
    /// Authenticated, but not the owner.
    DenyNotOwner,
}

/// The pure authorization rule: deny without an authenticated session, deny
/// an authenticated non-owner, allow exactly the owner. It runs before any
/// data about a quote is returned.
pub fn authorize(session_user_id: Option<i32>, resource_owner_id: i32) -> (d: Decision)
    ensures
        d == (match session_user_id {
            Option::None => Decision::DenyUnauthenticated,
            Option::Some(uid) => if uid == resource_owner_id {
                Decision::Allow
            } else {
                Decision::DenyNotOwner
            },
        }),
{
    match session_user_id {
        Option::None => Decision::DenyUnauthenticated,
        Option::Some(uid) => if uid == resource_owner_id {
            Decision::Allow
        } else {
            Decision::DenyNotOwner
        },
    }
}

/// Create a quote owned by the session's user. Without an authenticated
/// session nothing is stored and the caller gets `AuthenticationError`; with
/// one, the quote is stored under the bound user id and handed back with its
/// assigned id and its fields unchanged.
pub fn create_quote(store: &mut Store, session: &Session, payload: QuoteWithoutId) -> (r: Result<
    QuoteWithId,
    AppError,
>)
    requires
        old(store).wf(),
    ensures
        final(store).wf(),
        (r == Err::<QuoteWithId, AppError>(AppError::AuthenticationError) <==> session@ is None),
        r is Err ==> final(store)@ == old(store)@,
        (session@ matches Some(uid) ==> {
            &&& (r is Ok <==> has_user_id(old(store)@.users, uid) && old(store)@.next_quote_id
                < i32::MAX)
            &&& (r == Err::<QuoteWithId, AppError>(AppError::NotFoundError) <==> !has_user_id(
                old(store)@.users,
                uid,
            ))
            &&& match r {
                Ok(q) => {
                    &&& q.id as int == old(store)@.next_quote_id
                    &&& q.quote@ == payload.quote@
                    &&& q.anime@ == payload.anime@
                    &&& q.character@ == payload.character@
                    &&& final(store)@.quotes =~= old(store)@.quotes.push(
                        (QuoteView {
                            id: q.id as int,
                            user_id: uid,
                            quote: payload.quote@,
                            anime: payload.anime@,
                            character: payload.character@,
                            created_at: final(store)@.clock,
                            updated_at: final(store)@.clock,
                        }),
                    )
                    &&& final(store)@.users == old(store)@.users
                    &&& final(store)@.next_quote_id == old(store)@.next_quote_id + 1
                    &&& final(store)@.next_user_id == old(store)@.next_user_id
                },
                Err(e) => e == AppError::NotFoundError || e == AppError::StorageError,
            }
        }),
{
    let uid = match session.get_user_id() {
        Some(id) => id,
        None => {
            return Err(AppError::AuthenticationError);
        },
    };
    match Quote::new(store, uid, payload.quote, payload.anime, payload.character) {
        Ok(q) => Ok(QuoteWithId::from(q)),
        Err(e) => Err(e),
    }
}

/// List the quotes owned by the session's user, in storage order. Without an
/// authenticated session the caller gets `AuthenticationError` and learns
/// nothing; foreign quotes are never included.
pub fn get_quotes(store: &Store, session: &Session) -> (r: Result<Vec<QuoteWithId>, AppError>)
    ensures
        (r == Err::<Vec<QuoteWithId>, AppError>(AppError::AuthenticationError) <==> session@
            is None),
        (session@ matches Some(uid) ==> match r {
            Ok(v) => {
                &&& v@.len() == quotes_owned_by(store@.quotes, uid).len()
                &&& forall|j: int|
                    0 <= j < v@.len() ==> ((#[trigger] v@[j]).id as int == quotes_owned_by(
                        store@.quotes,
                        uid,
                    )[j].id && v@[j].quote@ == quotes_owned_by(store@.quotes, uid)[j].quote
                        && v@[j].anime@ == quotes_owned_by(store@.quotes, uid)[j].anime
                        && v@[j].character@ == quotes_owned_by(store@.quotes, uid)[j].character)
            },
            Err(_) => false,
        }),
{
    let uid = match session.get_user_id() {
        Some(id) => id,
        None => {
            return Err(AppError::AuthenticationError);
        },
    };
    let qs = match Quote::find_by_user_id(store, uid) {
        Ok(qs) => qs,
        Err(e) => {
            return Err(e);
        },
    };
    let mut out: Vec<QuoteWithId> = Vec::new();
    let mut i: usize = 0;
    while i < qs.len()
        invariant
            0 <= i <= qs.len(),
            qs@.map_values(|q: Quote| q@) =~= quotes_owned_by(store@.quotes, uid as int),
            out@.len() == i,
            forall|j: int|
                0 <= j < i ==> ((#[trigger] out@[j]).id == qs@[j].id && out@[j].quote@
                    == qs@[j].quote@ && out@[j].anime@ == qs@[j].anime@ && out@[j].character@
                    == qs@[j].character@),
        decreases qs.len() - i,
    {
        let q = &qs[i];
        out.push(
            QuoteWithId {
                id: q.id,
                quote: q.quote.clone(),
                anime: q.anime.clone(),
                character: q.character.clone(),
            },
        );
        i = i + 1;
    }
    Ok(out)
}

/// Read one quote by id, applying the ownership authorization check before
/// any of its data is returned: an unauthenticated caller gets
/// `AuthenticationError`, a missing id `NotFoundError`, an authenticated
/// non-owner `AuthorizationError` and never the quote's contents, and the
/// owner the stored fields unchanged.
pub fn read_quote(store: &Store, session: &Session, id: i32) -> (r: Result<QuoteWithId, AppError>)
    requires
        store.wf(),
    ensures
        (r == Err::<QuoteWithId, AppError>(AppError::AuthenticationError) <==> session@ is None),
        (session@ matches Some(uid) ==> {
            &&& (r == Err::<QuoteWithId, AppError>(AppError::NotFoundError) <==> !has_quote_id(
                store@.quotes,
                id as int,
            ))
            &&& (r == Err::<QuoteWithId, AppError>(AppError::AuthorizationError) <==> exists|k: int|
                0 <= k < store@.quotes.len() && (#[trigger] store@.quotes[k]).id == id as int
                    && store@.quotes[k].user_id != uid)
            &&& (r is Ok <==> exists|k: int|
                0 <= k < store@.quotes.len() && (#[trigger] store@.quotes[k]).id == id as int
                    && store@.quotes[k].user_id == uid)
            &&& match r {
                Ok(q) => q.id == id && exists|k: int|
                    0 <= k < store@.quotes.len() && (#[trigger] store@.quotes[k]).id == id as int
                        && store@.quotes[k].user_id == uid && q.quote@ == store@.quotes[k].quote
                        && q.anime@ == store@.quotes[k].anime && q.character@
                        == store@.quotes[k].character,
                Err(e) => e == AppError::NotFoundError || e == AppError::AuthorizationError,
            }
        }),
{
    let uid = match session.get_user_id() {
        Some(id) => id,
        None => {
            return Err(AppError::AuthenticationError);
        },
    };
    let q = match Quote::find_by_id(store, id) {
        Ok(q) => q,
        Err(_) => {
            return Err(AppError::NotFoundError);
        },
    };
    proof {
        let k0 = choose|k: int|
            0 <= k < store@.quotes.len() && (#[trigger] store@.quotes[k]).id == id as int && q@
                == store@.quotes[k];
        assert forall|k: int|
            0 <= k < store@.quotes.len() && (#[trigger] store@.quotes[k]).id
                == id as int implies store@.quotes[k] == q@ by {
            if k < k0 {
                assert(store@.quotes[k].id != store@.quotes[k0].id);
            } else if k > k0 {
                assert(store@.quotes[k0].id != store@.quotes[k].id);
            }
        }
    }
    match authorize(Some(uid), q.user_id) {
        Decision::Allow => Ok(QuoteWithId::from(q)),
        Decision::DenyNotOwner => Err(AppError::AuthorizationError),
        Decision::DenyUnauthenticated => Err(AppError::AuthenticationError),
    }
}

/// Law: once a quote with a previously unused id is appended to storage, that
/// id identifies exactly that record, so creating a quote and then reading it
/// back by the returned id reproduces its fields unchanged.
pub proof fn lemma_create_then_read_round_trip(quotes: Seq<QuoteView>, q: QuoteView)
    requires
        !has_quote_id(quotes, q.id),
    ensures
        has_quote_id(quotes.push(q), q.id),
        forall|k: int|
            0 <= k < quotes.push(q).len() && (#[trigger] quotes.push(q)[k]).id == q.id
                ==> quotes.push(q)[k] == q,
{
    assert(quotes.push(q)[quotes.len() as int] == q);
    assert forall|k: int|
        0 <= k < quotes.push(q).len() && (#[trigger] quotes.push(q)[k]).id
            == q.id implies quotes.push(q)[k] == q by {
        if k < quotes.len() {
            assert(quotes.push(q)[k] == quotes[k]);
        }
    }
}

} // verus!
