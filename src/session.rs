use vstd::prelude::*;
use crate::store::{QueryError, Store};

verus! {

/// One session of the program: the configured account, the last status message shown to
/// the user, and the local state.
#[derive(Debug)]
pub struct App {
    pub user_id: String,
    pub token: String,
    pub message: String,
    pub store: Store,
}

impl App {
    pub fn new(user_id: String, token: String, store: Store) -> (r: App)
        ensures
            r.user_id == user_id,
            r.token == token,
            r.message@.len() == 0,
            r.store == store,
    {
        App { user_id, token, message: String::new(), store }
    }

    /// Whether the configured user is the one whose data was last mirrored; before the
    /// first refresh there is nothing to compare with.
    pub fn usernames_match(&self) -> (r: Result<bool, QueryError>)
        ensures
            r == match self.store.profile {
                Some(p) => Ok::<bool, QueryError>(p.username@ == self.user_id@),
                None => Err(QueryError::NotInitialized),
            },
    {
        match &self.store.profile {
            Some(p) => Ok(p.username == self.user_id),
            None => Err(QueryError::NotInitialized),
        }
    }
}

} // verus!
