//! A signed-in user acting on resources: the identity is bound once, then
//! each capability (comment, mark, edit, change of own fields) runs as that
//! user.

use crate::marks::marked;
use crate::store::{
    author_of, changes_outcome, comment_published, edit_applied, target_id, user_named, ChangeParamsError, EditError,
    MarkError, PublishError, ResourceRef, Store,
};
use crate::types::Class;
use crate::users::{ChangeQueryParam, SingDTO, SingError, UserModel};
use vstd::prelude::*;

verus! {

/// A user that signed in.
#[derive(Debug)]
pub struct UserController {
    username: String,
}

impl UserController {
    pub closed spec fn name(&self) -> Seq<char> {
        self.username@
    }

    /// Signs in with a username and a password.
    pub fn sing(store: &Store, credentials: &SingDTO) -> (r: Result<UserController, SingError>)
        ensures
            match r {
                Ok(c) => c.name() == credentials.username@ && exists|i: int|
                    0 <= i < store.users().len() && (#[trigger] store.users()[i]).username@
                        == credentials.username@ && store.users()[i].password@ == credentials.password@,
                Err(SingError::WrongUsername) => !user_named(store.users(), credentials.username@),
                Err(SingError::WrongPassword) => exists|i: int|
                    0 <= i < store.users().len() && (#[trigger] store.users()[i]).username@
                        == credentials.username@ && store.users()[i].password@ != credentials.password@,
            },
    {
        match store.sing(credentials) {
            Ok(username) => Ok(UserController { username }),
            Err(e) => Err(e),
        }
    }

    /// The controller of a known user.
    pub fn from_model(model: &UserModel) -> (r: Self)
        ensures
            r.name() == model.username@,
    {
        UserController { username: model.username() }
    }

    pub fn username(&self) -> (r: String)
        ensures
            r@ == self.name(),
    {
        self.username.clone()
    }

    /// The user's current record.
    pub fn model(&self, store: &Store) -> (r: Option<UserModel>)
        ensures
            match r {
                Some(u) => u.username@ == self.name() && store.users().contains(u),
                None => !user_named(store.users(), self.name()),
            },
    {
        store.get_by_username(self.username.as_str())
    }

    /// Whether the user wrote the resource.
    pub fn is_owner_of(&self, store: &Store, resource: ResourceRef) -> (r: bool)
        requires
            store.wf(),
        ensures
            r == author_of(store.posts(), store.comments(), resource, self.name()),
    {
        store.is_author(resource, self.username.as_str())
    }

    /// Replaces the content of a resource the user wrote.
    pub fn edit(&self, store: &mut Store, resource: ResourceRef, content: String) -> (r: Result<(), EditError>)
        requires
            old(store).wf(),
        ensures
            final(store).wf(),
            !old(store).exists_resource(resource) ==> r == Err::<(), EditError>(EditError::ResourceNotFound),
            old(store).exists_resource(resource) ==> (r is Ok <==> author_of(
                old(store).posts(),
                old(store).comments(),
                resource,
                self.name(),
            )),
            old(store).exists_resource(resource) && !author_of(
                old(store).posts(),
                old(store).comments(),
                resource,
                self.name(),
            ) ==> r == Err::<(), EditError>(EditError::EditsNotAuthor),
            r is Err ==> *final(store) == *old(store),
            r is Ok ==> exists|now: i64| #[trigger] edit_applied(*old(store), *final(store), resource, content, now),
    {
        store.edit(resource, content, self.username.as_str())
    }

    /// Comments on a resource as this user.
    pub fn comment(&self, store: &mut Store, resource: ResourceRef, content: String) -> (r: Result<
        u128,
        PublishError,
    >)
        requires
            old(store).wf(),
        ensures
            final(store).wf(),
            (r == Err::<u128, PublishError>(PublishError::WrittenByNoone)) <==> !user_named(
                old(store).users(),
                self.name(),
            ),
            (r == Err::<u128, PublishError>(PublishError::WrittenUnderUnexistedPost)) <==> user_named(
                old(store).users(),
                self.name(),
            ) && !old(store).exists_resource(resource),
            r is Err ==> *final(store) == *old(store) && (r == Err::<u128, PublishError>(
                PublishError::WrittenByNoone,
            ) || r == Err::<u128, PublishError>(PublishError::WrittenUnderUnexistedPost) || r == Err::<
                u128,
                PublishError,
            >(PublishError::IdentifierTaken)),
            r matches Ok(id) ==> user_named(old(store).users(), self.name()) && old(store).exists_resource(
                resource,
            ) && comment_published(*old(store), *final(store), content, self.name(), resource, id),
    {
        store.comment(content, self.username.as_str(), resource)
    }

    /// Likes a resource as this user, replacing an earlier mark on it.
    pub fn like(&self, store: &mut Store, resource: ResourceRef) -> (r: Result<(), MarkError>)
        requires
            old(store).wf(),
        ensures
            final(store).wf(),
            user_named(old(store).users(), self.name()) && old(store).exists_resource(resource) <==> r is Ok,
            r is Err ==> *final(store) == *old(store),
            r is Ok ==> marked(
                final(store).marks_of(resource).rows(),
                old(store).marks_of(resource).rows(),
                self.name(),
                target_id(resource),
                true,
            ) && final(store).users() == old(store).users() && final(store).posts() == old(store).posts()
                && final(store).comments() == old(store).comments() && match resource {
                ResourceRef::Post(_) => final(store).comment_marks() == old(store).comment_marks(),
                ResourceRef::Comment(_) => final(store).post_marks() == old(store).post_marks(),
            },
    {
        store.like(self.username.as_str(), resource)
    }

    /// Dislikes a resource as this user, replacing an earlier mark on it.
    pub fn dislike(&self, store: &mut Store, resource: ResourceRef) -> (r: Result<(), MarkError>)
        requires
            old(store).wf(),
        ensures
            final(store).wf(),
            user_named(old(store).users(), self.name()) && old(store).exists_resource(resource) <==> r is Ok,
            r is Err ==> *final(store) == *old(store),
            r is Ok ==> marked(
                final(store).marks_of(resource).rows(),
                old(store).marks_of(resource).rows(),
                self.name(),
                target_id(resource),
                false,
            ) && final(store).users() == old(store).users() && final(store).posts() == old(store).posts()
                && final(store).comments() == old(store).comments() && match resource {
                ResourceRef::Post(_) => final(store).comment_marks() == old(store).comment_marks(),
                ResourceRef::Comment(_) => final(store).post_marks() == old(store).post_marks(),
            },
    {
        store.dislike(self.username.as_str(), resource)
    }

    /// Changes fields of this user; see [`Store::change_parameters`].
    pub fn change_parameters(&self, store: &mut Store, params: Vec<ChangeQueryParam>) -> (r: Result<
        (),
        ChangeParamsError,
    >)
        requires
            old(store).wf(),
        ensures
            final(store).wf(),
            changes_outcome(*old(store), *final(store), self.name(), params@, r),
    {
        store.change_parameters(self.username.as_str(), params)
    }

    pub fn change_name(&self, store: &mut Store, name: String) -> (r: Result<(), ChangeParamsError>)
        requires
            old(store).wf(),
        ensures
            final(store).wf(),
            changes_outcome(*old(store), *final(store), self.name(), seq![ChangeQueryParam::FirstName(name)], r),
    {
        self.change_one(store, ChangeQueryParam::FirstName(name))
    }

    pub fn change_last_name(&self, store: &mut Store, last_name: String) -> (r: Result<(), ChangeParamsError>)
        requires
            old(store).wf(),
        ensures
            final(store).wf(),
            changes_outcome(*old(store), *final(store), self.name(), seq![ChangeQueryParam::LastName(last_name)], r),
    {
        self.change_one(store, ChangeQueryParam::LastName(last_name))
    }

    pub fn change_class(&self, store: &mut Store, class: Class) -> (r: Result<(), ChangeParamsError>)
        requires
            old(store).wf(),
        ensures
            final(store).wf(),
            changes_outcome(*old(store), *final(store), self.name(), seq![ChangeQueryParam::Class(class)], r),
    {
        self.change_one(store, ChangeQueryParam::Class(class))
    }

    pub fn change_about_me(&self, store: &mut Store, about: String) -> (r: Result<(), ChangeParamsError>)
        requires
            old(store).wf(),
        ensures
            final(store).wf(),
            changes_outcome(*old(store), *final(store), self.name(), seq![ChangeQueryParam::About(about)], r),
    {
        self.change_one(store, ChangeQueryParam::About(about))
    }

    fn change_one(&self, store: &mut Store, p: ChangeQueryParam) -> (r: Result<(), ChangeParamsError>)
        requires
            old(store).wf(),
        ensures
            final(store).wf(),
            changes_outcome(*old(store), *final(store), self.name(), seq![p], r),
    {
        let ghost gp = p;
        let mut params: Vec<ChangeQueryParam> = Vec::new();
        params.push(p);
        proof {
            assert(params@ =~= seq![gp]);
        }
        self.change_parameters(store, params)
    }
}

} // verus!
