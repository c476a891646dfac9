//! The records that the authentication handlers pass around.

use vstd::prelude::*;

verus! {

/// The identity carried inside a session token.
#[derive(Clone, Debug, PartialEq)]
pub struct AuToken {
    pub id: i32,
    pub email: String,
    pub username: String,
    pub status: Vec<String>,
}

/// The `status` list of a token as character sequences.
pub open spec fn status_texts(status: Seq<String>) -> Seq<Seq<char>> {
    status.map_values(|s: String| s@)
}

impl View for AuToken {
    type V = (i32, Seq<char>, Seq<char>, Seq<Seq<char>>);

    /// Id, email, user name and status entries.
    open spec fn view(&self) -> Self::V {
        (self.id, self.email@, self.username@, status_texts(self.status@))
    }
}

impl AuToken {
    /// The empty identity: id 0, empty email, user name and status list.
    pub open spec fn is_empty_identity(self) -> bool {
        &&& self.id == 0
        &&& self.email@ == Seq::<char>::empty()
        &&& self.username@ == Seq::<char>::empty()
        &&& self.status@ == Seq::<String>::empty()
    }
}

impl AuToken {
    /// A copy of the identity.
    pub fn clone_token(&self) -> (r: AuToken)
        ensures
            r@ == self@,
    {
        let mut status: Vec<String> = Vec::new();
        let mut i: usize = 0;
        while i < self.status.len()
            invariant
                i <= self.status@.len(),
                status@ == self.status@.take(i as int),
            decreases self.status@.len() - i,
        {
            status.push(self.status[i].clone());
            i = i + 1;
            assert(status@ =~= self.status@.take(i as int));
        }
        assert(self.status@.take(self.status@.len() as int) =~= self.status@);
        assert(status_texts(status@) =~= status_texts(self.status@));
        AuToken {
            id: self.id,
            email: self.email.clone(),
            username: self.username.clone(),
            status,
        }
    }
}

impl Default for AuToken {
    /// The empty identity: id 0, empty email, user name and status list.
    fn default() -> (r: AuToken)
        ensures
            r.is_empty_identity(),
    {
        AuToken { id: 0, email: String::new(), username: String::new(), status: Vec::new() }
    }
}

/// The profile fields a user submits to change their account.
pub struct FormUpdateUser {
    pub email: String,
    pub username: String,
}

/// An error message wrapped for a page.
#[derive(Clone, Debug)]
pub struct StrErr {
    pub err: String,
}

impl Default for StrErr {
    /// An empty message.
    fn default() -> (r: StrErr)
        ensures
            r.err@ == Seq::<char>::empty(),
    {
        StrErr { err: String::new() }
    }
}

/// A user row as the login handler reads it from the database.
pub struct VeriUser {
    pub id: i32,
    pub email: String,
    pub username: String,
    pub status: Vec<String>,
}

/// The credentials a user submits to log in.
pub struct FormLogin {
    pub email: String,
    pub password: String,
}

/// The fields a user submits to sign up.
pub struct FormNewUser {
    pub email: String,
    pub username: String,
    pub password: String,
}

/// A session key and the email it belongs to.
#[derive(Clone, Debug, PartialEq)]
pub struct KeyEmail {
    pub key: String,
    pub email: String,
}

impl Default for KeyEmail {
    /// Empty key and email.
    fn default() -> (r: KeyEmail)
        ensures
            r.key@ == Seq::<char>::empty(),
            r.email@ == Seq::<char>::empty(),
    {
        KeyEmail { key: String::new(), email: String::new() }
    }
}

/// A new password submitted by a user.
pub struct FormPasswordChange {
    pub password: String,
}

} // verus!
