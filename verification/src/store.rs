use vstd::prelude::*;

use crate::errors::AppError;

verus! {

// ---------------------------------------------------------------------------
// Mathematical model of the record store
// ---------------------------------------------------------------------------

/// Mathematical image of a stored user record.
pub ghost struct UserView {
    pub id: int,
    pub username: Seq<char>,
    pub password: Seq<char>,
    pub created_at: int,
    pub updated_at: int,
}

/// Mathematical image of a stored quote record.
pub ghost struct QuoteView {
    pub id: int,
    pub user_id: int,
    pub quote: Seq<char>,
    pub anime: Seq<char>,
    pub character: Seq<char>,
    pub created_at: int,
    pub updated_at: int,
}

/// Mathematical image of the whole record store.
pub ghost struct StoreView {
    pub users: Seq<UserView>,
    pub quotes: Seq<QuoteView>,
    pub next_user_id: int,
    pub next_quote_id: int,
    pub clock: int,
}

/// Some stored user carries this id.
pub open spec fn has_user_id(users: Seq<UserView>, id: int) -> bool {
    exists|i: int| 0 <= i < users.len() && (#[trigger] users[i]).id == id
}

/// Some stored user carries this username.
pub open spec fn has_username(users: Seq<UserView>, name: Seq<char>) -> bool {
    exists|i: int| 0 <= i < users.len() && (#[trigger] users[i]).username == name
}

/// Some stored quote carries this id.
pub open spec fn has_quote_id(quotes: Seq<QuoteView>, id: int) -> bool {
    exists|i: int| 0 <= i < quotes.len() && (#[trigger] quotes[i]).id == id
}

/// No two stored users share an id.
pub open spec fn user_ids_unique(users: Seq<UserView>) -> bool {
    forall|i: int, j: int|
        0 <= i < j < users.len() ==> (#[trigger] users[i]).id != (#[trigger] users[j]).id
}

/// No two stored users share a username: uniqueness is enforced here, by an
/// application-level check at creation, rather than left to the backing table.
pub open spec fn usernames_unique(users: Seq<UserView>) -> bool {
    forall|i: int, j: int|
        0 <= i < j < users.len() ==> (#[trigger] users[i]).username != (#[trigger] users[j]).username
}

/// No two stored quotes share an id.
pub open spec fn quote_ids_unique(quotes: Seq<QuoteView>) -> bool {
    forall|i: int, j: int|
        0 <= i < j < quotes.len() ==> (#[trigger] quotes[i]).id != (#[trigger] quotes[j]).id
}

/// Referential integrity: every quote's owner is an existing user.
pub open spec fn quotes_owned(quotes: Seq<QuoteView>, users: Seq<UserView>) -> bool {
    forall|i: int| 0 <= i < quotes.len() ==> has_user_id(users, (#[trigger] quotes[i]).user_id)
}

/// Well-formedness of the store: ids are positive, below the next free id and
/// unique; usernames are unique; every quote references an existing user.
pub open spec fn store_wf(s: StoreView) -> bool {
    &&& 1 <= s.next_user_id <= i32::MAX
    &&& 1 <= s.next_quote_id <= i32::MAX
    &&& 0 <= s.clock
    &&& forall|i: int| 0 <= i < s.users.len() ==> 1 <= (#[trigger] s.users[i]).id < s.next_user_id
    &&& forall|i: int|
        0 <= i < s.quotes.len() ==> 1 <= (#[trigger] s.quotes[i]).id < s.next_quote_id
    &&& user_ids_unique(s.users)
    &&& usernames_unique(s.users)
    &&& quote_ids_unique(s.quotes)
    &&& quotes_owned(s.quotes, s.users)
}

/// The store's logical clock after one mutation: it advances by one step and
/// stops only at the far end of its range.
pub open spec fn tick(c: int) -> int {
    if c == u64::MAX { c } else { c + 1 }
}

/// The stored quotes owned by `user_id`, in storage order.
pub open spec fn quotes_owned_by(quotes: Seq<QuoteView>, user_id: int) -> Seq<QuoteView>
    decreases quotes.len(),
{
    if quotes.len() == 0 {
        Seq::empty()
    } else {
        let rest = quotes_owned_by(quotes.drop_last(), user_id);
        if quotes.last().user_id == user_id {
            rest.push(quotes.last())
        } else {
            rest
        }
    }
}

/// The stored quotes left after removing every quote owned by `user_id`.
pub open spec fn quotes_not_owned_by(quotes: Seq<QuoteView>, user_id: int) -> Seq<QuoteView>
    decreases quotes.len(),
{
    if quotes.len() == 0 {
        Seq::empty()
    } else {
        let rest = quotes_not_owned_by(quotes.drop_last(), user_id);
        if quotes.last().user_id != user_id {
            rest.push(quotes.last())
        } else {
            rest
        }
    }
}

/// The stored quotes left after removing the one carrying `id`.
pub open spec fn quotes_without(quotes: Seq<QuoteView>, id: int) -> Seq<QuoteView>
    decreases quotes.len(),
{
    if quotes.len() == 0 {
        Seq::empty()
    } else {
        let rest = quotes_without(quotes.drop_last(), id);
        if quotes.last().id != id {
            rest.push(quotes.last())
        } else {
            rest
        }
    }
}

/// The stored users left after removing the one carrying `id`.
pub open spec fn users_without(users: Seq<UserView>, id: int) -> Seq<UserView>
    decreases users.len(),
{
    if users.len() == 0 {
        Seq::empty()
    } else {
        let rest = users_without(users.drop_last(), id);
        if users.last().id != id {
            rest.push(users.last())
        } else {
            rest
        }
    }
}

// ---------------------------------------------------------------------------
// Records
// ---------------------------------------------------------------------------

/// A registered account. `password` holds the self-describing encoded hash of
/// the account's password, never the plaintext.
#[derive(Debug)]
pub struct User {
    pub id: i32,
    pub username: String,
    pub password: String,
    pub created_at: u64,
    pub updated_at: u64,
}

impl View for User {
    type V = UserView;

    open spec fn view(&self) -> UserView {
        UserView {
            id: self.id as int,
            username: self.username@,
            password: self.password@,
            created_at: self.created_at as int,
            updated_at: self.updated_at as int,
        }
    }
}

/// A short attributed text snippet owned by one user.
#[derive(Debug)]
pub struct Quote {
    pub id: i32,
    pub user_id: i32,
    pub quote: String,
    pub anime: String,
    pub character: String,
    pub created_at: u64,
    pub updated_at: u64,
}

impl View for Quote {
    type V = QuoteView;

    open spec fn view(&self) -> QuoteView {
        QuoteView {
            id: self.id as int,
            user_id: self.user_id as int,
            quote: self.quote@,
            anime: self.anime@,
            character: self.character@,
            created_at: self.created_at as int,
            updated_at: self.updated_at as int,
        }
    }
}

// ---------------------------------------------------------------------------
// The store
// ---------------------------------------------------------------------------

/// The record store: the process-wide persistence resource. It assigns ids,
/// keeps them unique, and enforces referential integrity between quotes and
/// users. It embeds no authorization logic.
pub struct Store {
    users: Vec<User>,
    quotes: Vec<Quote>,
    next_user_id: i32,
    next_quote_id: i32,
    clock: u64,
}

impl View for Store {
    type V = StoreView;

    closed spec fn view(&self) -> StoreView {
        StoreView {
            users: self.users@.map_values(|u: User| u@),
            quotes: self.quotes@.map_values(|q: Quote| q@),
            next_user_id: self.next_user_id as int,
            next_quote_id: self.next_quote_id as int,
            clock: self.clock as int,
        }
    }
}

impl Store {
    /// Well-formedness of this store value; constructors establish it and
    /// every operation preserves it.
    pub open spec fn wf(&self) -> bool {
        store_wf(self@)
    }

    /// An empty store, ready to hand out ids from 1.
    pub fn new() -> (s: Store)
        ensures
            s.wf(),
            s@.users =~= Seq::<UserView>::empty(),
            s@.quotes =~= Seq::<QuoteView>::empty(),
            s@.next_user_id == 1,
            s@.next_quote_id == 1,
            s@.clock == 0,
    {
        Store { users: Vec::new(), quotes: Vec::new(), next_user_id: 1, next_quote_id: 1, clock: 0 }
    }

    /// Advance the logical clock by one mutation step.
    fn tick_clock(&mut self)
        ensures
            final(self)@ == (StoreView { clock: tick(old(self)@.clock), ..old(self)@ }),
    {
        if self.clock < u64::MAX {
            self.clock = self.clock + 1;
        }
    }
}

// ---------------------------------------------------------------------------
// User operations
// ---------------------------------------------------------------------------

/// A field-for-field copy of a user record.
fn clone_user(u: &User) -> (r: User)
    ensures
        r == *u,
{
    User {
        id: u.id,
        username: u.username.clone(),
        password: u.password.clone(),
        created_at: u.created_at,
        updated_at: u.updated_at,
    }
}

/// Whether some stored user already carries this username.
fn username_taken(store: &Store, name: &String) -> (b: bool)
    ensures
        b == has_username(store@.users, name@),
{
    let mut i: usize = 0;
    while i < store.users.len()
        invariant
            0 <= i <= store.users.len(),
            forall|j: int| 0 <= j < i ==> (#[trigger] store@.users[j]).username != name@,
        decreases store.users.len() - i,
    {
        if store.users[i].username == *name {
            proof {
                assert(store@.users[i as int].username == name@);
            }
            return true;
        }
        i = i + 1;
    }
    false
}

/// Index of the user record carrying this id, if any.
fn find_user_index(store: &Store, id: i32) -> (r: Option<usize>)
    ensures
        match r {
            Some(k) => k < store@.users.len() && store@.users[k as int].id == id as int
                && has_user_id(store@.users, id as int),
            None => !has_user_id(store@.users, id as int),
        },
{
    let mut i: usize = 0;
    while i < store.users.len()
        invariant
            0 <= i <= store.users.len(),
            forall|j: int| 0 <= j < i ==> (#[trigger] store@.users[j]).id != id as int,
        decreases store.users.len() - i,
    {
        if store.users[i].id == id {
            return Some(i);
        }
        i = i + 1;
    }
    None
}

/// Well-formedness survives any rewrite that keeps every user's id and
/// username, every quote's id and owner, and both id bounds in place.
proof fn lemma_wf_preserved(s0: StoreView, s1: StoreView)
    requires
        store_wf(s0),
        s1.users.len() == s0.users.len(),
        forall|i: int|
            0 <= i < s1.users.len() ==> (#[trigger] s1.users[i]).id == s0.users[i].id
                && s1.users[i].username == s0.users[i].username,
        s1.quotes.len() == s0.quotes.len(),
        forall|i: int|
            0 <= i < s1.quotes.len() ==> (#[trigger] s1.quotes[i]).id == s0.quotes[i].id
                && s1.quotes[i].user_id == s0.quotes[i].user_id,
        s1.next_user_id == s0.next_user_id,
        s1.next_quote_id == s0.next_quote_id,
        0 <= s1.clock,
    ensures
        store_wf(s1),
{
    assert forall|i: int| 0 <= i < s1.quotes.len() implies has_user_id(
        s1.users,
        (#[trigger] s1.quotes[i]).user_id,
    ) by {
        let j = choose|j: int|
            0 <= j < s0.users.len() && (#[trigger] s0.users[j]).id == s0.quotes[i].user_id;
        assert(s1.users[j].id == s1.quotes[i].user_id);
    }
}

/// Extending a prefix by one quote extends its owned-by image exactly when
/// that quote has the owner in question.
proof fn lemma_owned_by_step(quotes: Seq<QuoteView>, user_id: int, i: int)
    requires
        0 <= i < quotes.len(),
    ensures
        quotes[i].user_id == user_id ==> quotes_owned_by(quotes.subrange(0, i + 1), user_id)
            == quotes_owned_by(quotes.subrange(0, i), user_id).push(quotes[i]),
        quotes[i].user_id != user_id ==> quotes_owned_by(quotes.subrange(0, i + 1), user_id)
            == quotes_owned_by(quotes.subrange(0, i), user_id),
{
    let t = quotes.subrange(0, i + 1);
    assert(t.drop_last() =~= quotes.subrange(0, i));
    assert(t.last() == quotes[i]);
}

/// The same step fact for the not-owned-by image.
proof fn lemma_not_owned_by_step(quotes: Seq<QuoteView>, user_id: int, i: int)
    requires
        0 <= i < quotes.len(),
    ensures
        quotes[i].user_id != user_id ==> quotes_not_owned_by(quotes.subrange(0, i + 1), user_id)
            == quotes_not_owned_by(quotes.subrange(0, i), user_id).push(quotes[i]),
        quotes[i].user_id == user_id ==> quotes_not_owned_by(quotes.subrange(0, i + 1), user_id)
            == quotes_not_owned_by(quotes.subrange(0, i), user_id),
{
    let t = quotes.subrange(0, i + 1);
    assert(t.drop_last() =~= quotes.subrange(0, i));
    assert(t.last() == quotes[i]);
}

/// The same step fact for quote removal by id.
proof fn lemma_quotes_without_step(quotes: Seq<QuoteView>, id: int, i: int)
    requires
        0 <= i < quotes.len(),
    ensures
        quotes[i].id != id ==> quotes_without(quotes.subrange(0, i + 1), id) == quotes_without(
            quotes.subrange(0, i),
            id,
        ).push(quotes[i]),
        quotes[i].id == id ==> quotes_without(quotes.subrange(0, i + 1), id) == quotes_without(
            quotes.subrange(0, i),
            id,
        ),
{
    let t = quotes.subrange(0, i + 1);
    assert(t.drop_last() =~= quotes.subrange(0, i));
    assert(t.last() == quotes[i]);
}

/// The same step fact for user removal by id.
proof fn lemma_users_without_step(users: Seq<UserView>, id: int, i: int)
    requires
        0 <= i < users.len(),
    ensures
        users[i].id != id ==> users_without(users.subrange(0, i + 1), id) == users_without(
            users.subrange(0, i),
            id,
        ).push(users[i]),
        users[i].id == id ==> users_without(users.subrange(0, i + 1), id) == users_without(
            users.subrange(0, i),
            id,
        ),
{
    let t = users.subrange(0, i + 1);
    assert(t.drop_last() =~= users.subrange(0, i));
    assert(t.last() == users[i]);
}

/// Removing a user keeps the survivors pairwise distinct, keeps them among
/// the originals, and removes every record carrying the id.
proof fn lemma_users_without_props(users: Seq<UserView>, id: int)
    requires
        user_ids_unique(users),
        usernames_unique(users),
    ensures
        user_ids_unique(users_without(users, id)),
        usernames_unique(users_without(users, id)),
        forall|k: int|
            0 <= k < users_without(users, id).len() ==> ((#[trigger] users_without(users, id)[k]).id
                != id && users.contains(users_without(users, id)[k])),
    decreases users.len(),
{
    if users.len() == 0 {
    } else {
        let d = users.drop_last();
        lemma_users_without_props(d, id);
        let fd = users_without(d, id);
        let f = users_without(users, id);
        let lastu = users.last();
        assert forall|k: int| 0 <= k < fd.len() implies users.contains(fd[k]) by {
            let a = choose|a: int| 0 <= a < d.len() && d[a] == fd[k];
            assert(users[a] == fd[k]);
        }
        if lastu.id != id {
            assert(f == fd.push(lastu));
            assert(users[users.len() - 1] == lastu);
            assert forall|i: int, j: int| 0 <= i < j < f.len() implies (#[trigger] f[i]).id != (
            #[trigger] f[j]).id && f[i].username != f[j].username by {
                if j < fd.len() {
                    assert(f[i] == fd[i] && f[j] == fd[j]);
                } else {
                    assert(f[j] == lastu);
                    assert(f[i] == fd[i]);
                    let a = choose|a: int| 0 <= a < d.len() && d[a] == fd[i];
                    assert(users[a] == f[i]);
                    assert(users[a].id != users[users.len() - 1].id);
                    assert(users[a].username != users[users.len() - 1].username);
                }
            }
        } else {
            assert(f == fd);
        }
    }
}

/// Removing an owner's quotes keeps the survivors pairwise distinct in id,
/// keeps them among the originals, and removes every quote of that owner.
proof fn lemma_not_owned_by_props(quotes: Seq<QuoteView>, user_id: int)
    requires
        quote_ids_unique(quotes),
    ensures
        quote_ids_unique(quotes_not_owned_by(quotes, user_id)),
        forall|k: int|
            0 <= k < quotes_not_owned_by(quotes, user_id).len() ==> ((#[trigger] quotes_not_owned_by(
                quotes,
                user_id,
            )[k]).user_id != user_id && quotes.contains(quotes_not_owned_by(quotes, user_id)[k])),
    decreases quotes.len(),
{
    if quotes.len() == 0 {
    } else {
        let d = quotes.drop_last();
        lemma_not_owned_by_props(d, user_id);
        let fd = quotes_not_owned_by(d, user_id);
        let f = quotes_not_owned_by(quotes, user_id);
        let lastq = quotes.last();
        assert forall|k: int| 0 <= k < fd.len() implies quotes.contains(fd[k]) by {
            let a = choose|a: int| 0 <= a < d.len() && d[a] == fd[k];
            assert(quotes[a] == fd[k]);
        }
        if lastq.user_id != user_id {
            assert(f == fd.push(lastq));
            assert(quotes[quotes.len() - 1] == lastq);
            assert forall|i: int, j: int| 0 <= i < j < f.len() implies (#[trigger] f[i]).id != (
            #[trigger] f[j]).id by {
                if j < fd.len() {
                    assert(f[i] == fd[i] && f[j] == fd[j]);
                } else {
                    assert(f[j] == lastq);
                    assert(f[i] == fd[i]);
                    let a = choose|a: int| 0 <= a < d.len() && d[a] == fd[i];
                    assert(quotes[a] == f[i]);
                    assert(quotes[a].id != quotes[quotes.len() - 1].id);
                }
            }
        } else {
            assert(f == fd);
        }
    }
}

/// Removing one quote by id keeps the survivors pairwise distinct in id,
/// keeps them among the originals, and removes every quote carrying the id.
proof fn lemma_quotes_without_props(quotes: Seq<QuoteView>, id: int)
    requires
        quote_ids_unique(quotes),
    ensures
        quote_ids_unique(quotes_without(quotes, id)),
        forall|k: int|
            0 <= k < quotes_without(quotes, id).len() ==> ((#[trigger] quotes_without(quotes, id)[k]).id
                != id && quotes.contains(quotes_without(quotes, id)[k])),
    decreases quotes.len(),
{
    if quotes.len() == 0 {
    } else {
        let d = quotes.drop_last();
        lemma_quotes_without_props(d, id);
        let fd = quotes_without(d, id);
        let f = quotes_without(quotes, id);
        let lastq = quotes.last();
        assert forall|k: int| 0 <= k < fd.len() implies quotes.contains(fd[k]) by {
            let a = choose|a: int| 0 <= a < d.len() && d[a] == fd[k];
            assert(quotes[a] == fd[k]);
        }
        if lastq.id != id {
            assert(f == fd.push(lastq));
            assert(quotes[quotes.len() - 1] == lastq);
            assert forall|i: int, j: int| 0 <= i < j < f.len() implies (#[trigger] f[i]).id != (
            #[trigger] f[j]).id by {
                if j < fd.len() {
                    assert(f[i] == fd[i] && f[j] == fd[j]);
                } else {
                    assert(f[j] == lastq);
                    assert(f[i] == fd[i]);
                    let a = choose|a: int| 0 <= a < d.len() && d[a] == fd[i];
                    assert(quotes[a] == f[i]);
                    assert(quotes[a].id != quotes[quotes.len() - 1].id);
                }
            }
        } else {
            assert(f == fd);
        }
    }
}

/// A user other than the removed one survives the removal.
proof fn lemma_user_survives(users: Seq<UserView>, removed: int, id: int)
    requires
        has_user_id(users, id),
        id != removed,
    ensures
        has_user_id(users_without(users, removed), id),
    decreases users.len(),
{
    let j = choose|j: int| 0 <= j < users.len() && (#[trigger] users[j]).id == id;
    let f = users_without(users, removed);
    if j == users.len() - 1 {
        let fd = users_without(users.drop_last(), removed);
        assert(f == fd.push(users.last()));
        assert(f[f.len() - 1].id == id);
    } else {
        let d = users.drop_last();
        assert(d[j] == users[j]);
        assert(has_user_id(d, id));
        lemma_user_survives(d, removed, id);
        let fd = users_without(d, removed);
        let k = choose|k: int| 0 <= k < fd.len() && (#[trigger] fd[k]).id == id;
        assert(f[k] == fd[k]);
        assert(f[k].id == id);
    }
}

/// A field-for-field copy of a quote record.
fn clone_quote(q: &Quote) -> (r: Quote)
    ensures
        r == *q,
{
    Quote {
        id: q.id,
        user_id: q.user_id,
        quote: q.quote.clone(),
        anime: q.anime.clone(),
        character: q.character.clone(),
        created_at: q.created_at,
        updated_at: q.updated_at,
    }
}

/// Index of the quote record carrying this id, if any.
fn find_quote_index(store: &Store, id: i32) -> (r: Option<usize>)
    ensures
        match r {
            Some(k) => k < store@.quotes.len() && store@.quotes[k as int].id == id as int
                && has_quote_id(store@.quotes, id as int),
            None => !has_quote_id(store@.quotes, id as int),
        },
{
    let mut i: usize = 0;
    while i < store.quotes.len()
        invariant
            0 <= i <= store.quotes.len(),
            forall|j: int| 0 <= j < i ==> (#[trigger] store@.quotes[j]).id != id as int,
        decreases store.quotes.len() - i,
    {
        if store.quotes[i].id == id {
            return Some(i);
        }
        i = i + 1;
    }
    None
}

impl User {
    /// The placeholder record: an unassigned id and empty fields.
    pub fn default() -> (u: User)
        ensures
            u@.id == -1,
            u@.username.len() == 0,
            u@.password.len() == 0,
            u@.created_at == 0,
            u@.updated_at == 0,
    {
        User {
            id: -1,
            username: String::new(),
            password: String::new(),
            created_at: 0,
            updated_at: 0,
        }
    }

    /// Create a user record. The store assigns the id; the caller supplies the
    /// username and the already encoded password hash. Creation is refused
    /// when the username is taken (usernames are kept unique) or when the id
    /// space is exhausted; a refused creation leaves the store untouched.
    pub fn new(store: &mut Store, username: String, password: String) -> (r: Result<User, AppError>)
        requires
            old(store).wf(),
        ensures
            final(store).wf(),
            (r is Ok <==> !has_username(old(store)@.users, username@) && old(
                store,
            )@.next_user_id < i32::MAX),
            match r {
                Ok(u) => {
                    &&& u@.id == old(store)@.next_user_id
                    &&& u@.username == username@
                    &&& u@.password == password@
                    &&& u@.created_at == final(store)@.clock
                    &&& u@.updated_at == final(store)@.clock
                    &&& final(store)@.users =~= old(store)@.users.push(u@)
                    &&& final(store)@.quotes == old(store)@.quotes
                    &&& final(store)@.next_user_id == old(store)@.next_user_id + 1
                    &&& final(store)@.next_quote_id == old(store)@.next_quote_id
                    &&& final(store)@.clock == tick(old(store)@.clock)
                },
                Err(e) => {
                    &&& final(store)@ == old(store)@
                    &&& (e == AppError::ValidationError <==> has_username(
                        old(store)@.users,
                        username@,
                    ))
                    &&& (e == AppError::ValidationError || e == AppError::StorageError)
                },
            },
    {
        if username_taken(store, &username) {
            return Err(AppError::ValidationError);
        }
        if store.next_user_id == i32::MAX {
            return Err(AppError::StorageError);
        }
        store.tick_clock();
        let id = store.next_user_id;
        store.next_user_id = id + 1;
        let u = User {
            id,
            username,
            password,
            created_at: store.clock,
            updated_at: store.clock,
        };
        store.users.push(clone_user(&u));
        proof {
            assert(store@.users =~= old(store)@.users.push(u@));
            assert forall|i: int| 0 <= i < store@.quotes.len() implies has_user_id(
                store@.users,
                (#[trigger] store@.quotes[i]).user_id,
            ) by {
                let j = choose|j: int|
                    0 <= j < old(store)@.users.len() && (#[trigger] old(store)@.users[j]).id == old(
                        store,
                    )@.quotes[i].user_id;
                assert(store@.users[j].id == store@.quotes[i].user_id);
            }
        }
        Ok(u)
    }

    /// Look a user up by id; `NotFoundError` exactly when no such row exists.
    pub fn find_by_id(store: &Store, id: i32) -> (r: Result<User, AppError>)
        ensures
            (r is Ok <==> has_user_id(store@.users, id as int)),
            match r {
                Ok(u) => exists|k: int|
                    0 <= k < store@.users.len() && (#[trigger] store@.users[k]).id == id as int
                        && u@ == store@.users[k],
                Err(e) => e == AppError::NotFoundError,
            },
    {
        match find_user_index(store, id) {
            Some(k) => Ok(clone_user(&store.users[k])),
            None => Err(AppError::NotFoundError),
        }
    }

    /// Look a user up by username; `NotFoundError` exactly when no stored
    /// user carries it.
    pub fn find_by_username(store: &Store, username: &String) -> (r: Result<User, AppError>)
        ensures
            (r is Ok <==> has_username(store@.users, username@)),
            match r {
                Ok(u) => exists|k: int|
                    0 <= k < store@.users.len() && (#[trigger] store@.users[k]).username
                        == username@ && u@ == store@.users[k],
                Err(e) => e == AppError::NotFoundError,
            },
    {
        let mut i: usize = 0;
        while i < store.users.len()
            invariant
                0 <= i <= store.users.len(),
                forall|j: int| 0 <= j < i ==> (#[trigger] store@.users[j]).username != username@,
            decreases store.users.len() - i,
        {
            if store.users[i].username == *username {
                proof {
                    assert(store@.users[i as int].username == username@);
                }
                return Ok(clone_user(&store.users[i]));
            }
            i = i + 1;
        }
        Err(AppError::NotFoundError)
    }

    /// Replace this user's stored password hash and refresh its update time;
    /// `NotFoundError` exactly when the id is no longer present (for example
    /// after a concurrent deletion), in which case nothing changes.
    pub fn update_password(&mut self, store: &mut Store, password: String) -> (r: Result<
        (),
        AppError,
    >)
        requires
            old(store).wf(),
        ensures
            final(store).wf(),
            (r is Ok <==> has_user_id(old(store)@.users, old(self)@.id)),
            match r {
                Ok(_) => {
                    &&& exists|k: int|
                        0 <= k < old(store)@.users.len() && (#[trigger] old(store)@.users[k]).id
                            == old(self)@.id && final(store)@.users =~= old(store)@.users.update(
                            k,
                            (UserView {
                                password: password@,
                                updated_at: final(store)@.clock,
                                ..old(store)@.users[k]
                            }),
                        )
                    &&& final(store)@.quotes == old(store)@.quotes
                    &&& final(store)@.next_user_id == old(store)@.next_user_id
                    &&& final(store)@.next_quote_id == old(store)@.next_quote_id
                    &&& final(store)@.clock == tick(old(store)@.clock)
                    &&& final(self)@ == (UserView {
                        password: password@,
                        updated_at: final(store)@.clock,
                        ..old(self)@
                    })
                },
                Err(e) => {
                    &&& e == AppError::NotFoundError
                    &&& final(store)@ == old(store)@
                    &&& *final(self) == *old(self)
                },
            },
    {
        match find_user_index(store, self.id) {
            Some(k) => {
                store.tick_clock();
                let clk = store.clock;
                self.password = password.clone();
                self.updated_at = clk;
                let row = &mut store.users[k];
                row.password = password;
                row.updated_at = clk;
                proof {
                    let s0 = old(store)@;
                    let s1 = store@;
                    assert(s1.users =~= s0.users.update(
                        k as int,
                        (UserView { password: password@, updated_at: s1.clock, ..s0.users[k as int] }),
                    ));
                    lemma_wf_preserved(s0, s1);
                }
                Ok(())
            },
            None => Err(AppError::NotFoundError),
        }
    }

    /// List every user record in storage order.
    pub fn find(store: &Store) -> (r: Result<Vec<User>, AppError>)
        ensures
            r is Ok,
            match r {
                Ok(us) => us@.map_values(|u: User| u@) =~= store@.users,
                Err(_) => false,
            },
    {
        let mut out: Vec<User> = Vec::new();
        let mut i: usize = 0;
        while i < store.users.len()
            invariant
                0 <= i <= store.users.len(),
                out@.len() == i,
                forall|j: int| 0 <= j < i ==> (#[trigger] out@[j])@ == store@.users[j],
            decreases store.users.len() - i,
        {
            out.push(clone_user(&store.users[i]));
            i = i + 1;
        }
        proof {
            assert(out@.map_values(|u: User| u@) =~= store@.users);
        }
        Ok(out)
    }

    /// Delete this user's record by id, cascading to every quote it owns:
    /// referential integrity is resolved by an explicit cascade rather than
    /// left to the backing table. `NotFoundError` exactly when the id is
    /// already gone, in which case nothing changes.
    pub fn delete(&self, store: &mut Store) -> (r: Result<(), AppError>)
        requires
            old(store).wf(),
        ensures
            final(store).wf(),
            (r is Ok <==> has_user_id(old(store)@.users, self@.id)),
            match r {
                Ok(_) => {
                    &&& final(store)@.users =~= users_without(old(store)@.users, self@.id)
                    &&& final(store)@.quotes =~= quotes_not_owned_by(old(store)@.quotes, self@.id)
                    &&& final(store)@.next_user_id == old(store)@.next_user_id
                    &&& final(store)@.next_quote_id == old(store)@.next_quote_id
                    &&& final(store)@.clock == tick(old(store)@.clock)
                },
                Err(e) => e == AppError::NotFoundError && final(store)@ == old(store)@,
            },
    {
        let uid = self.id;
        match find_user_index(store, uid) {
            None => Err(AppError::NotFoundError),
            Some(_) => {
                store.tick_clock();
                let ghost s0 = store@;
                let mut kept_users: Vec<User> = Vec::new();
                let ghost mut acc_u: Seq<UserView> = Seq::empty();
                let mut i: usize = 0;
                while i < store.users.len()
                    invariant
                        0 <= i <= store.users.len(),
                        store@ == s0,
                        acc_u == users_without(s0.users.subrange(0, i as int), uid as int),
                        kept_users@.len() == acc_u.len(),
                        forall|j: int| 0 <= j < acc_u.len() ==> (#[trigger] kept_users@[j])@ == acc_u[j],
                    decreases store.users.len() - i,
                {
                    proof {
                        lemma_users_without_step(s0.users, uid as int, i as int);
                    }
                    if store.users[i].id != uid {
                        kept_users.push(clone_user(&store.users[i]));
                        proof {
                            acc_u = acc_u.push(s0.users[i as int]);
                        }
                    }
                    i = i + 1;
                }
                let mut kept_quotes: Vec<Quote> = Vec::new();
                let ghost mut acc_q: Seq<QuoteView> = Seq::empty();
                let mut j: usize = 0;
                while j < store.quotes.len()
                    invariant
                        0 <= j <= store.quotes.len(),
                        store@ == s0,
                        acc_q == quotes_not_owned_by(s0.quotes.subrange(0, j as int), uid as int),
                        kept_quotes@.len() == acc_q.len(),
                        forall|p: int|
                            0 <= p < acc_q.len() ==> (#[trigger] kept_quotes@[p])@ == acc_q[p],
                    decreases store.quotes.len() - j,
                {
                    proof {
                        lemma_not_owned_by_step(s0.quotes, uid as int, j as int);
                    }
                    if store.quotes[j].user_id != uid {
                        kept_quotes.push(clone_quote(&store.quotes[j]));
                        proof {
                            acc_q = acc_q.push(s0.quotes[j as int]);
                        }
                    }
                    j = j + 1;
                }
                store.users = kept_users;
                store.quotes = kept_quotes;
                proof {
                    assert(s0.users.subrange(0, s0.users.len() as int) =~= s0.users);
                    assert(s0.quotes.subrange(0, s0.quotes.len() as int) =~= s0.quotes);
                    assert(store@.users =~= acc_u);
                    assert(store@.quotes =~= acc_q);
                    lemma_users_without_props(s0.users, uid as int);
                    lemma_not_owned_by_props(s0.quotes, uid as int);
                    let fu = users_without(s0.users, uid as int);
                    let fq = quotes_not_owned_by(s0.quotes, uid as int);
                    assert forall|k: int| 0 <= k < fu.len() implies 1 <= (#[trigger] fu[k]).id
                        < store@.next_user_id by {
                        let a = choose|a: int| 0 <= a < s0.users.len() && s0.users[a] == fu[k];
                        assert(1 <= s0.users[a].id < s0.next_user_id);
                    }
                    assert forall|k: int| 0 <= k < fq.len() implies 1 <= (#[trigger] fq[k]).id
                        < store@.next_quote_id by {
                        let a = choose|a: int| 0 <= a < s0.quotes.len() && s0.quotes[a] == fq[k];
                        assert(1 <= s0.quotes[a].id < s0.next_quote_id);
                    }
                    assert forall|k: int| 0 <= k < fq.len() implies has_user_id(
                        store@.users,
                        (#[trigger] fq[k]).user_id,
                    ) by {
                        let a = choose|a: int| 0 <= a < s0.quotes.len() && s0.quotes[a] == fq[k];
                        assert(has_user_id(s0.users, s0.quotes[a].user_id));
                        lemma_user_survives(s0.users, uid as int, fq[k].user_id);
                    }
                }
                Ok(())
            },
        }
    }

    /// List the quotes this user owns, in storage order.
    pub fn quotes(&self, store: &Store) -> (r: Result<Vec<Quote>, AppError>)
        ensures
            r is Ok,
            match r {
                Ok(qs) => qs@.map_values(|q: Quote| q@) =~= quotes_owned_by(
                    store@.quotes,
                    self@.id,
                ),
                Err(_) => false,
            },
    {
        Quote::find_by_user_id(store, self.id)
    }
}

impl Quote {
    /// Create a quote record owned by `user_id`. The store assigns the id;
    /// creation is refused with `NotFoundError` when the owner does not
    /// exist (referential integrity) and with `StorageError` when the id
    /// space is exhausted; a refused creation leaves the store untouched.
    pub fn new(
        store: &mut Store,
        user_id: i32,
        quote: String,
        anime: String,
        character: String,
    ) -> (r: Result<Quote, AppError>)
        requires
            old(store).wf(),
        ensures
            final(store).wf(),
            (r is Ok <==> has_user_id(old(store)@.users, user_id as int) && old(
                store,
            )@.next_quote_id < i32::MAX),
            match r {
                Ok(q) => {
                    &&& q@.id == old(store)@.next_quote_id
                    &&& q@.user_id == user_id as int
                    &&& q@.quote == quote@
                    &&& q@.anime == anime@
                    &&& q@.character == character@
                    &&& q@.created_at == final(store)@.clock
                    &&& q@.updated_at == final(store)@.clock
                    &&& final(store)@.quotes =~= old(store)@.quotes.push(q@)
                    &&& final(store)@.users == old(store)@.users
                    &&& final(store)@.next_quote_id == old(store)@.next_quote_id + 1
                    &&& final(store)@.next_user_id == old(store)@.next_user_id
                    &&& final(store)@.clock == tick(old(store)@.clock)
                },
                Err(e) => {
                    &&& final(store)@ == old(store)@
                    &&& (e == AppError::NotFoundError <==> !has_user_id(
                        old(store)@.users,
                        user_id as int,
                    ))
                    &&& (e == AppError::NotFoundError || e == AppError::StorageError)
                },
            },
    {
        match find_user_index(store, user_id) {
            None => Err(AppError::NotFoundError),
            Some(_) => {
                if store.next_quote_id == i32::MAX {
                    return Err(AppError::StorageError);
                }
                store.tick_clock();
                let id = store.next_quote_id;
                store.next_quote_id = id + 1;
                let q = Quote {
                    id,
                    user_id,
                    quote,
                    anime,
                    character,
                    created_at: store.clock,
                    updated_at: store.clock,
                };
                store.quotes.push(clone_quote(&q));
                proof {
                    assert(store@.quotes =~= old(store)@.quotes.push(q@));
                    assert forall|i: int| 0 <= i < store@.quotes.len() implies has_user_id(
                        store@.users,
                        (#[trigger] store@.quotes[i]).user_id,
                    ) by {
                        if i < old(store)@.quotes.len() {
                            assert(store@.quotes[i] == old(store)@.quotes[i]);
                            assert(has_user_id(old(store)@.users, old(store)@.quotes[i].user_id));
                        } else {
                            assert(store@.quotes[i] == q@);
                        }
                    }
                }
                Ok(q)
            },
        }
    }

    /// List the quotes owned by `user_id`, in storage order. An unknown owner
    /// simply owns no quotes.
    pub fn find_by_user_id(store: &Store, user_id: i32) -> (r: Result<Vec<Quote>, AppError>)
        ensures
            r is Ok,
            match r {
                Ok(qs) => qs@.map_values(|q: Quote| q@) =~= quotes_owned_by(
                    store@.quotes,
                    user_id as int,
                ),
                Err(_) => false,
            },
    {
        let mut out: Vec<Quote> = Vec::new();
        let ghost mut acc: Seq<QuoteView> = Seq::empty();
        let mut i: usize = 0;
        while i < store.quotes.len()
            invariant
                0 <= i <= store.quotes.len(),
                acc == quotes_owned_by(store@.quotes.subrange(0, i as int), user_id as int),
                out@.len() == acc.len(),
                forall|j: int| 0 <= j < acc.len() ==> (#[trigger] out@[j])@ == acc[j],
            decreases store.quotes.len() - i,
        {
            proof {
                lemma_owned_by_step(store@.quotes, user_id as int, i as int);
            }
            if store.quotes[i].user_id == user_id {
                out.push(clone_quote(&store.quotes[i]));
                proof {
                    acc = acc.push(store@.quotes[i as int]);
                }
            }
            i = i + 1;
        }
        proof {
            assert(store@.quotes.subrange(0, store@.quotes.len() as int) =~= store@.quotes);
            assert(out@.map_values(|q: Quote| q@) =~= acc);
        }
        Ok(out)
    }

    /// Look a quote up by id; `NotFoundError` exactly when no such row exists.
    pub fn find_by_id(store: &Store, id: i32) -> (r: Result<Quote, AppError>)
        ensures
            (r is Ok <==> has_quote_id(store@.quotes, id as int)),
            match r {
                Ok(q) => exists|k: int|
                    0 <= k < store@.quotes.len() && (#[trigger] store@.quotes[k]).id == id as int
                        && q@ == store@.quotes[k],
                Err(e) => e == AppError::NotFoundError,
            },
    {
        match find_quote_index(store, id) {
            Some(k) => Ok(clone_quote(&store.quotes[k])),
            None => Err(AppError::NotFoundError),
        }
    }

    /// Replace this quote's text fields in storage and refresh its update
    /// time; the id and the owner never change. `NotFoundError` exactly when
    /// the id is no longer present, in which case nothing changes.
    pub fn update(
        &mut self,
        store: &mut Store,
        quote: String,
        anime: String,
        character: String,
    ) -> (r: Result<(), AppError>)
        requires
            old(store).wf(),
        ensures
            final(store).wf(),
            (r is Ok <==> has_quote_id(old(store)@.quotes, old(self)@.id)),
            match r {
                Ok(_) => {
                    &&& exists|k: int|
                        0 <= k < old(store)@.quotes.len() && (#[trigger] old(store)@.quotes[k]).id
                            == old(self)@.id && final(store)@.quotes =~= old(
                            store,
                        )@.quotes.update(
                            k,
                            (QuoteView {
                                quote: quote@,
                                anime: anime@,
                                character: character@,
                                updated_at: final(store)@.clock,
                                ..old(store)@.quotes[k]
                            }),
                        )
                    &&& final(store)@.users == old(store)@.users
                    &&& final(store)@.next_user_id == old(store)@.next_user_id
                    &&& final(store)@.next_quote_id == old(store)@.next_quote_id
                    &&& final(store)@.clock == tick(old(store)@.clock)
                    &&& final(self)@ == (QuoteView {
                        quote: quote@,
                        anime: anime@,
                        character: character@,
                        updated_at: final(store)@.clock,
                        ..old(self)@
                    })
                },
                Err(e) => {
                    &&& e == AppError::NotFoundError
                    &&& final(store)@ == old(store)@
                    &&& *final(self) == *old(self)
                },
            },
    {
        match find_quote_index(store, self.id) {
            Some(k) => {
                store.tick_clock();
                let clk = store.clock;
                self.quote = quote.clone();
                self.anime = anime.clone();
                self.character = character.clone();
                self.updated_at = clk;
                let row = &mut store.quotes[k];
                row.quote = quote;
                row.anime = anime;
                row.character = character;
                row.updated_at = clk;
                proof {
                    let s0 = old(store)@;
                    let s1 = store@;
                    assert(s1.quotes =~= s0.quotes.update(
                        k as int,
                        (QuoteView {
                            quote: quote@,
                            anime: anime@,
                            character: character@,
                            updated_at: s1.clock,
                            ..s0.quotes[k as int]
                        }),
                    ));
                    lemma_wf_preserved(s0, s1);
                }
                Ok(())
            },
            None => Err(AppError::NotFoundError),
        }
    }

    /// Delete this quote's record by id; `NotFoundError` exactly when the id
    /// is already gone, in which case nothing changes.
    pub fn delete(&self, store: &mut Store) -> (r: Result<(), AppError>)
        requires
            old(store).wf(),
        ensures
            final(store).wf(),
            (r is Ok <==> has_quote_id(old(store)@.quotes, self@.id)),
            match r {
                Ok(_) => {
                    &&& final(store)@.quotes =~= quotes_without(old(store)@.quotes, self@.id)
                    &&& final(store)@.users == old(store)@.users
                    &&& final(store)@.next_user_id == old(store)@.next_user_id
                    &&& final(store)@.next_quote_id == old(store)@.next_quote_id
                    &&& final(store)@.clock == tick(old(store)@.clock)
                },
                Err(e) => e == AppError::NotFoundError && final(store)@ == old(store)@,
            },
    {
        let qid = self.id;
        match find_quote_index(store, qid) {
            None => Err(AppError::NotFoundError),
            Some(_) => {
                store.tick_clock();
                let ghost s0 = store@;
                let mut kept: Vec<Quote> = Vec::new();
                let ghost mut acc: Seq<QuoteView> = Seq::empty();
                let mut i: usize = 0;
                while i < store.quotes.len()
                    invariant
                        0 <= i <= store.quotes.len(),
                        store@ == s0,
                        acc == quotes_without(s0.quotes.subrange(0, i as int), qid as int),
                        kept@.len() == acc.len(),
                        forall|j: int| 0 <= j < acc.len() ==> (#[trigger] kept@[j])@ == acc[j],
                    decreases store.quotes.len() - i,
                {
                    proof {
                        lemma_quotes_without_step(s0.quotes, qid as int, i as int);
                    }
                    if store.quotes[i].id != qid {
                        kept.push(clone_quote(&store.quotes[i]));
                        proof {
                            acc = acc.push(s0.quotes[i as int]);
                        }
                    }
                    i = i + 1;
                }
                store.quotes = kept;
                proof {
                    assert(s0.quotes.subrange(0, s0.quotes.len() as int) =~= s0.quotes);
                    assert(store@.quotes =~= acc);
                    lemma_quotes_without_props(s0.quotes, qid as int);
                    let fq = quotes_without(s0.quotes, qid as int);
                    assert forall|k: int| 0 <= k < fq.len() implies 1 <= (#[trigger] fq[k]).id
                        < store@.next_quote_id by {
                        let a = choose|a: int| 0 <= a < s0.quotes.len() && s0.quotes[a] == fq[k];
                        assert(1 <= s0.quotes[a].id < s0.next_quote_id);
                    }
                    assert forall|k: int| 0 <= k < fq.len() implies has_user_id(
                        store@.users,
                        (#[trigger] fq[k]).user_id,
                    ) by {
                        let a = choose|a: int| 0 <= a < s0.quotes.len() && s0.quotes[a] == fq[k];
                        assert(has_user_id(s0.users, s0.quotes[a].user_id));
                    }
                }
                Ok(())
            },
        }
    }

    /// List every quote record in storage order.
    pub fn find(store: &Store) -> (r: Result<Vec<Quote>, AppError>)
        ensures
            r is Ok,
            match r {
                Ok(qs) => qs@.map_values(|q: Quote| q@) =~= store@.quotes,
                Err(_) => false,
            },
    {
        let mut out: Vec<Quote> = Vec::new();
        let mut i: usize = 0;
        while i < store.quotes.len()
            invariant
                0 <= i <= store.quotes.len(),
                out@.len() == i,
                forall|j: int| 0 <= j < i ==> (#[trigger] out@[j])@ == store@.quotes[j],
            decreases store.quotes.len() - i,
        {
            out.push(clone_quote(&store.quotes[i]));
            i = i + 1;
        }
        proof {
            assert(out@.map_values(|q: Quote| q@) =~= store@.quotes);
        }
        Ok(out)
    }
}

} // verus!
