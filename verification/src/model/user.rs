use vstd::prelude::*;

use uuid::Uuid;

use crate::model::fields::{opt_view, pick, pick_field};

verus! {

/// The `uuid` crate's identifier, carried through unopened.
#[verifier::external_type_specification]
#[verifier::external_body]
pub struct ExUuid(Uuid);

/// What a user record holds, as plain values (the identifier as is).
pub ghost struct UserView {
    pub id: Uuid,
    pub email: Seq<char>,
    pub username: Seq<char>,
    pub deleted: bool,
    pub password: Seq<char>,
}

/// An account of the site.
#[derive(Debug)]
pub struct User {
    pub id: Uuid,
    pub email: String,
    pub username: String,
    pub deleted: bool,
    pub password: String,
}

impl View for User {
    type V = UserView;

    open spec fn view(&self) -> UserView {
        UserView {
            id: self.id,
            email: self.email@,
            username: self.username@,
            deleted: self.deleted,
            password: self.password@,
        }
    }
}

/// What a partial user record holds, as plain values.
pub ghost struct PartialUserView {
    pub id: Option<Uuid>,
    pub email: Option<Seq<char>>,
    pub username: Option<Seq<char>>,
    pub deleted: Option<bool>,
    pub password: Option<Seq<char>>,
}

/// A user record with every field optional: the fields that are set are
/// the ones to change.
#[derive(Debug)]
pub struct PartialUser {
    pub id: Option<Uuid>,
    pub email: Option<String>,
    pub username: Option<String>,
    pub deleted: Option<bool>,
    pub password: Option<String>,
}

impl View for PartialUser {
    type V = PartialUserView;

    open spec fn view(&self) -> PartialUserView {
        PartialUserView {
            id: self.id,
            email: opt_view(self.email),
            username: opt_view(self.username),
            deleted: self.deleted,
            password: opt_view(self.password),
        }
    }
}

/// A user record after the set fields of a partial record were written
/// over it.
pub open spec fn spec_user_merged(a: UserView, p: PartialUserView) -> UserView {
    UserView {
        id: pick(a.id, p.id),
        email: pick(a.email, p.email),
        username: pick(a.username, p.username),
        deleted: pick(a.deleted, p.deleted),
        password: pick(a.password, p.password),
    }
}

impl User {
    pub fn new(id: Uuid, email: &str, username: &str, deleted: bool, password: &str) -> (r: Self)
        ensures
            r@ == (UserView { id, email: email@, username: username@, deleted, password: password@ }),
    {
        User {
            id,
            email: String::from_str(email),
            username: String::from_str(username),
            deleted,
            password: String::from_str(password),
        }
    }

    /// Writes the fields that `other` sets over this record; the others stay.
    pub fn merge(&mut self, other: PartialUser)
        ensures
            final(self)@ == spec_user_merged(old(self)@, other@),
    {
        pick_field(&mut self.id, other.id);
        pick_field(&mut self.email, other.email);
        pick_field(&mut self.username, other.username);
        pick_field(&mut self.deleted, other.deleted);
        pick_field(&mut self.password, other.password);
    }
}

impl Clone for User {
    fn clone(&self) -> (r: Self)
        ensures
            r@ == self@,
    {
        User {
            id: self.id,
            email: self.email.clone(),
            username: self.username.clone(),
            deleted: self.deleted,
            password: self.password.clone(),
        }
    }
}

impl Clone for PartialUser {
    fn clone(&self) -> (r: Self)
        ensures
            r@ == self@,
    {
        PartialUser {
            id: self.id,
            email: self.email.clone(),
            username: self.username.clone(),
            deleted: self.deleted,
            password: self.password.clone(),
        }
    }
}

impl From<User> for PartialUser {
    fn from(value: User) -> (r: Self) {
        PartialUser {
            id: Some(value.id),
            email: Some(value.email),
            username: Some(value.username),
            deleted: Some(value.deleted),
            password: Some(value.password),
        }
    }
}

impl vstd::std_specs::convert::FromSpecImpl<User> for PartialUser {
    open spec fn obeys_from_spec() -> bool {
        true
    }

    open spec fn from_spec(value: User) -> PartialUser {
        PartialUser {
            id: Some(value.id),
            email: Some(value.email),
            username: Some(value.username),
            deleted: Some(value.deleted),
            password: Some(value.password),
        }
    }
}

impl Default for PartialUser {
    fn default() -> (r: Self)
        ensures
            r@ == (PartialUserView {
                id: None,
                email: None,
                username: None,
                deleted: None,
                password: None,
            }),
    {
        PartialUser { id: None, email: None, username: None, deleted: None, password: None }
    }
}

/// Merging the partial record made from a user writes that whole user.
pub proof fn lemma_user_merge_full(a: User, b: User)
    ensures
        spec_user_merged(
            a@,
            <PartialUser as vstd::std_specs::convert::FromSpec<User>>::from_spec(b)@,
        ) == b@,
{
}

} // verus!
