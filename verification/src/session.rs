use vstd::prelude::*;

verus! {

/// Server-side session state for one client: an attribute map with a single
/// meaningful key, the authenticated user id. A session starts unbound, is
/// bound by a successful registration or login, and is destroyed by logout.
pub struct Session {
    user_id: Option<i32>,
}

impl View for Session {
    type V = Option<int>;

    /// The bound user id, or `None` when no login is in force.
    closed spec fn view(&self) -> Option<int> {
        match self.user_id {
            Some(id) => Some(id as int),
            None => None,
        }
    }
}

impl Session {
    /// A fresh session, not yet bound to any user.
    pub fn new() -> (s: Session)
        ensures
            s@ is None,
    {
        Session { user_id: None }
    }

    /// The user id this session is bound to, if any.
    pub fn get_user_id(&self) -> (r: Option<i32>)
        ensures
            match r {
                Some(id) => self@ == Some(id as int),
                None => self@ is None,
            },
    {
        self.user_id
    }

    /// Bind the session to a user id, replacing any earlier binding.
    pub fn insert_user_id(&mut self, id: i32)
        ensures
            final(self)@ == Some(id as int),
    {
        self.user_id = Some(id);
    }

    /// Destroy the session's server-side state. Destroying an already
    /// destroyed (or never bound) session is not an error.
    pub fn destroy(&mut self)
        ensures
            final(self)@ is None,
    {
        self.user_id = None;
    }
}

} // verus!
