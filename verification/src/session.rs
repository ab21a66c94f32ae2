use vstd::prelude::*;

use crate::Error;

verus! {

/// Contract for the single-slot record of the currently authenticated user.
/// Pushing overwrites the slot, reading does not clear it, and dropping
/// empties it; a persisted backend stores the empty string for "nobody", so
/// an empty id cannot be pushed.
pub trait SessionManager {
    /// The currently authenticated user id, if any.
    spec fn authenticated(&self) -> Option<Seq<char>>;

    fn push_authenticated_user_id(&mut self, user_id: &str) -> (r: Result<(), Error>)
        requires
            user_id@.len() > 0,
        ensures
            r is Ok ==> final(self).authenticated() == Some(user_id@),
            r matches Err(e) ==> e == Error::Storage,
    ;

    fn pop_authenticated_user_id(&self) -> (r: Result<Option<String>, Error>)
        ensures
            r matches Ok(Some(id)) ==> self.authenticated() == Some(id@) && id@.len() > 0,
            r matches Ok(None) ==> self.authenticated() is None,
            r matches Err(e) ==> e == Error::Storage,
    ;

    fn drop_authenticated_user_id(&mut self) -> (r: Result<(), Error>)
        ensures
            r is Ok ==> final(self).authenticated() is None,
            r matches Err(e) ==> e == Error::Storage,
    ;
}

} // verus!
