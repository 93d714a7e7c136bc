//! A stored credential.
use vstd::prelude::*;

verus! {

/// One stored credential: a password, the user name it belongs to, and the site.
pub struct Entry {
    pub password: String,
    pub username: String,
    pub site: String,
}

impl View for Entry {
    type V = (Seq<char>, Seq<char>, Seq<char>);

    open spec fn view(&self) -> Self::V {
        (self.password@, self.username@, self.site@)
    }
}

} // verus!
