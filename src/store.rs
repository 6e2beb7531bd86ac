//! The repositories of users, posts and comments, kept in memory, with the
//! operations of the resource capabilities: publish, comment, mark and edit.

use crate::filters::{role_name, role_name_of, GetByQueryParam};
use crate::marks::{
    flag_count, lemma_at_most_one_mark, lemma_flag_count_absent, marked, pair_count, pair_state, resource_named, Mark,
    MarkState, MarkTable,
};
use crate::query::clone_strings;
use crate::text::str_eq;
use crate::types::EditedState;
use crate::users::{
    check_credentials, ChangeQueryParam, RegistrationError, SingDTO, SingError, UserModel, UserRegistrationDTO,
    UserType,
};
use crate::validation::{all_change_errors, validate_changes, ValidationError};
use vstd::prelude::*;
use vstd::string::*;

verus! {

/// Relies on `uuid::Uuid::new_v4`: a random identifier, taken as its 128-bit
/// value. Nothing is promised of the value.
#[verifier::external_body]
fn new_uuid() -> (r: u128) {
    uuid::Uuid::new_v4().as_u128()
}

/// Relies on `chrono::Utc::now`: the current time, in seconds since the Unix
/// epoch. Nothing is promised of the value.
#[verifier::external_body]
fn now_seconds() -> (r: i64) {
    chrono::Utc::now().timestamp()
}

/// A post as stored.
#[derive(Debug)]
pub struct PostRecord {
    pub uuid: u128,
    pub title: String,
    pub content: String,
    pub published_at: i64,
    pub edited: EditedState,
    pub author: String,
    pub tags: Vec<String>,
}

impl Clone for PostRecord {
    fn clone(&self) -> (r: Self)
        ensures
            r.uuid == self.uuid && r.title == self.title && r.content == self.content
                && r.published_at == self.published_at && r.edited == self.edited
                && r.author == self.author && r.tags@ == self.tags@,
    {
        PostRecord {
            uuid: self.uuid,
            title: self.title.clone(),
            content: self.content.clone(),
            published_at: self.published_at,
            edited: self.edited,
            author: self.author.clone(),
            tags: clone_strings(&self.tags),
        }
    }
}

/// A comment as stored. `replys_for` is the comment it answers, if any;
/// `under_post` the post it stands under.
#[derive(Debug)]
pub struct CommentRecord {
    pub uuid: u128,
    pub content: String,
    pub published_at: i64,
    pub edited: EditedState,
    pub author: String,
    pub replys_for: Option<u128>,
    pub under_post: u128,
}

impl Clone for CommentRecord {
    fn clone(&self) -> (r: Self)
        ensures
            r == *self,
    {
        CommentRecord {
            uuid: self.uuid,
            content: self.content.clone(),
            published_at: self.published_at,
            edited: self.edited,
            author: self.author.clone(),
            replys_for: self.replys_for,
            under_post: self.under_post,
        }
    }
}

/// A resource that can be commented, marked and edited.
#[derive(Clone, Copy, Debug, PartialEq, Eq)]
pub enum ResourceRef {
    Post(u128),
    Comment(u128),
}

/// The identifier of a resource.
pub open spec fn target_id(r: ResourceRef) -> u128 {
    match r {
        ResourceRef::Post(id) => id,
        ResourceRef::Comment(id) => id,
    }
}

/// Why publishing failed.
#[derive(Clone, Copy, Debug, PartialEq, Eq)]
pub enum PublishError {
    /// The author is not a registered user.
    WrittenByNoone,
    /// The post or comment to write under does not exist.
    WrittenUnderUnexistedPost,
    WrongLanguageCode,
    /// The new identifier is already in use.
    IdentifierTaken,
}

/// Why an edit was refused.
#[derive(Clone, Copy, Debug, PartialEq, Eq)]
pub enum EditError {
    /// The requester is not the author of the resource.
    EditsNotAuthor,
    /// No such resource.
    ResourceNotFound,
}

/// Why a mark was refused.
#[derive(Clone, Copy, Debug, PartialEq, Eq)]
pub enum MarkError {
    UserNotFound,
    ResourceNotFound,
}

/// The edited state after an edit at time `now`: the time of the last edit
/// never goes back.
pub open spec fn edited_after(e: EditedState, now: i64) -> EditedState {
    EditedState::Edited {
        edited_at: match e {
            EditedState::Edited { edited_at } => if edited_at > now { edited_at } else { now },
            EditedState::NotEdited => now,
        },
    }
}

fn edit_state(e: EditedState, now: i64) -> (r: EditedState)
    ensures
        r == edited_after(e, now),
{
    match e {
        EditedState::Edited { edited_at } => EditedState::Edited {
            edited_at: if edited_at > now { edited_at } else { now },
        },
        EditedState::NotEdited => EditedState::Edited { edited_at: now },
    }
}

/// The author of a resource, when it exists.
pub open spec fn author_of(posts: Seq<PostRecord>, comments: Seq<CommentRecord>, r: ResourceRef, author: Seq<char>) -> bool {
    match r {
        ResourceRef::Post(id) => exists|i: int|
            0 <= i < posts.len() && (#[trigger] posts[i]).uuid == id && posts[i].author@ == author,
        ResourceRef::Comment(id) => exists|i: int|
            0 <= i < comments.len() && (#[trigger] comments[i]).uuid == id && comments[i].author@ == author,
    }
}

/// Why a change of user fields was refused.
#[derive(Debug)]
pub enum ChangeParamsError {
    UserDoesntExist,
    ClassParametrChangingForNotStudent,
    ChangingJobTitleForNotAdministrator,
    ValidationError(Vec<ValidationError>),
    DBProblems,
}

/// The user after one change.
pub open spec fn apply_change(u: UserModel, p: ChangeQueryParam) -> UserModel {
    match p {
        ChangeQueryParam::Password(s) => UserModel { password: s, ..u },
        ChangeQueryParam::About(s) => UserModel { about: s, ..u },
        ChangeQueryParam::Email(s) => UserModel { email: s, ..u },
        ChangeQueryParam::PhoneNumber(o) => UserModel { phone_number: o, ..u },
        ChangeQueryParam::FirstName(s) => UserModel { first_name: s, ..u },
        ChangeQueryParam::LastName(s) => UserModel { last_name: s, ..u },
        ChangeQueryParam::JobTitle(t) => UserModel { user_specs: UserType::Administrator { job_title: t }, ..u },
        ChangeQueryParam::Class(c) => UserModel { user_specs: UserType::Student { class: c }, ..u },
    }
}

/// The user after a list of changes, applied in order.
pub open spec fn apply_changes(u: UserModel, ps: Seq<ChangeQueryParam>) -> UserModel
    decreases ps.len(),
{
    if ps.len() == 0 {
        u
    } else {
        apply_change(apply_changes(u, ps.drop_last()), ps.last())
    }
}

fn change_user(u: UserModel, p: ChangeQueryParam) -> (r: UserModel)
    ensures
        r == apply_change(u, p),
{
    match p {
        ChangeQueryParam::Password(s) => UserModel { password: s, ..u },
        ChangeQueryParam::About(s) => UserModel { about: s, ..u },
        ChangeQueryParam::Email(s) => UserModel { email: s, ..u },
        ChangeQueryParam::PhoneNumber(o) => UserModel { phone_number: o, ..u },
        ChangeQueryParam::FirstName(s) => UserModel { first_name: s, ..u },
        ChangeQueryParam::LastName(s) => UserModel { last_name: s, ..u },
        ChangeQueryParam::JobTitle(t) => UserModel { user_specs: UserType::Administrator { job_title: t }, ..u },
        ChangeQueryParam::Class(c) => UserModel { user_specs: UserType::Student { class: c }, ..u },
    }
}

/// The user meets the filter.
pub open spec fn user_matches(u: UserModel, q: GetByQueryParam) -> bool {
    match q {
        GetByQueryParam::Uuid(id) => u.uuid == id,
        GetByQueryParam::Username(s) => u.username@ == s@,
        GetByQueryParam::LastName(s) => u.last_name@ == s@,
        GetByQueryParam::FirstName(s) => u.first_name@ == s@,
        GetByQueryParam::Email(s) => u.email@ == s@,
        GetByQueryParam::PhoneNumber(s) => u.phone_number matches Some(p) && p@ == s@,
        GetByQueryParam::UserSpecs(t) => role_name(u.user_specs) == role_name(t),
    }
}

/// The user meets every filter.
pub open spec fn user_matches_all(u: UserModel, qs: Seq<GetByQueryParam>) -> bool {
    forall|i: int| 0 <= i < qs.len() ==> user_matches(u, #[trigger] qs[i])
}

/// The users before `n` that meet every filter, in order of registration.
pub open spec fn users_matching(users: Seq<UserModel>, qs: Seq<GetByQueryParam>, n: int) -> Seq<UserModel>
    decreases n,
{
    if n <= 0 {
        seq![]
    } else {
        users_matching(users, qs, n - 1) + if user_matches_all(users[n - 1], qs) {
            seq![users[n - 1]]
        } else {
            seq![]
        }
    }
}

fn user_matches_one(u: &UserModel, q: &GetByQueryParam) -> (r: bool)
    ensures
        r == user_matches(*u, *q),
{
    match q {
        GetByQueryParam::Uuid(id) => u.uuid == *id,
        GetByQueryParam::Username(s) => str_eq(u.username.as_str(), s.as_str()),
        GetByQueryParam::LastName(s) => str_eq(u.last_name.as_str(), s.as_str()),
        GetByQueryParam::FirstName(s) => str_eq(u.first_name.as_str(), s.as_str()),
        GetByQueryParam::Email(s) => str_eq(u.email.as_str(), s.as_str()),
        GetByQueryParam::PhoneNumber(s) => match &u.phone_number {
            Some(p) => str_eq(p.as_str(), s.as_str()),
            None => false,
        },
        GetByQueryParam::UserSpecs(t) => {
            let a = role_name_of(&u.user_specs);
            let b = role_name_of(t);
            str_eq(a.as_str(), b.as_str())
        },
    }
}

fn user_matches_every(u: &UserModel, qs: &Vec<GetByQueryParam>) -> (r: bool)
    ensures
        r == user_matches_all(*u, qs@),
{
    let mut i: usize = 0;
    while i < qs.len()
        invariant
            i <= qs@.len(),
            forall|k: int| 0 <= k < i ==> user_matches(*u, #[trigger] qs@[k]),
        decreases qs@.len() - i,
    {
        if !user_matches_one(u, &qs[i]) {
            return false;
        }
        i = i + 1;
    }
    true
}

/// What a user gives to publish a post.
#[derive(Debug)]
pub struct PublishPostDTO {
    pub content: String,
    pub author: String,
    pub title: String,
    pub tags: Vec<String>,
}

pub open spec fn user_named(users: Seq<UserModel>, name: Seq<char>) -> bool {
    exists|i: int| 0 <= i < users.len() && (#[trigger] users[i]).username@ == name
}

pub open spec fn post_with(posts: Seq<PostRecord>, id: u128) -> bool {
    exists|i: int| 0 <= i < posts.len() && (#[trigger] posts[i]).uuid == id
}

pub open spec fn comment_with(comments: Seq<CommentRecord>, id: u128) -> bool {
    exists|i: int| 0 <= i < comments.len() && (#[trigger] comments[i]).uuid == id
}

/// Whether an identifier names a post or a comment.
pub open spec fn id_used(posts: Seq<PostRecord>, comments: Seq<CommentRecord>, id: u128) -> bool {
    post_with(posts, id) || comment_with(comments, id)
}

/// The comments form a forest rooted in posts: every comment stands under an
/// existing post, and a reply answers an earlier comment under the same post.
pub open spec fn comments_wf(posts: Seq<PostRecord>, comments: Seq<CommentRecord>) -> bool {
    &&& forall|i: int| 0 <= i < comments.len() ==> post_with(posts, #[trigger] comments[i].under_post)
    &&& forall|i: int|
        0 <= i < comments.len() && (#[trigger] comments[i]).replys_for is Some ==> exists|j: int|
            0 <= j < i && comments[j].uuid == comments[i].replys_for->0 && comments[j].under_post
                == comments[i].under_post
}

/// Identifiers are unique over posts and comments together, and usernames
/// over users.
pub open spec fn ids_unique(users: Seq<UserModel>, posts: Seq<PostRecord>, comments: Seq<CommentRecord>) -> bool {
    &&& forall|i: int, j: int|
        0 <= i < j < users.len() ==> (#[trigger] users[i]).username@ != (#[trigger] users[j]).username@
    &&& forall|i: int, j: int| 0 <= i < j < posts.len() ==> (#[trigger] posts[i]).uuid != (#[trigger] posts[j]).uuid
    &&& forall|i: int, j: int|
        0 <= i < j < comments.len() ==> (#[trigger] comments[i]).uuid != (#[trigger] comments[j]).uuid
    &&& forall|i: int, j: int|
        0 <= i < posts.len() && 0 <= j < comments.len() ==> (#[trigger] posts[i]).uuid != (
        #[trigger] comments[j]).uuid
}

/// In a well-formed store, whatever likes and dislikes came before, a user
/// has at most one mark on a resource, so adds at most one to its like and
/// dislike counts together.
pub proof fn lemma_store_single_mark(s: Store, user: Seq<char>, target: ResourceRef)
    requires
        s.wf(),
    ensures
        pair_count(s.marks_of(target).rows(), user, target_id(target)) <= 1,
{
    lemma_at_most_one_mark(s.marks_of(target).rows(), user, target_id(target));
}

/// Every mark names an existing post.
pub open spec fn marks_on_posts(rows: Seq<Mark>, posts: Seq<PostRecord>) -> bool {
    forall|i: int| 0 <= i < rows.len() ==> post_with(posts, #[trigger] rows[i].resource)
}

/// Every mark names an existing comment.
pub open spec fn marks_on_comments(rows: Seq<Mark>, comments: Seq<CommentRecord>) -> bool {
    forall|i: int| 0 <= i < rows.len() ==> comment_with(comments, #[trigger] rows[i].resource)
}

/// Posts that keep their identifiers, and may gain new ones, keep every
/// mark on an existing post.
proof fn lemma_marks_keep_posts(rows: Seq<Mark>, old_posts: Seq<PostRecord>, new_posts: Seq<PostRecord>)
    requires
        marks_on_posts(rows, old_posts),
        old_posts.len() <= new_posts.len(),
        forall|k: int| 0 <= k < old_posts.len() ==> (#[trigger] new_posts[k]).uuid == old_posts[k].uuid,
    ensures
        marks_on_posts(rows, new_posts),
{
    assert forall|i: int| 0 <= i < rows.len() implies post_with(new_posts, #[trigger] rows[i].resource) by {
        let k = choose|k: int| 0 <= k < old_posts.len() && (#[trigger] old_posts[k]).uuid == rows[i].resource;
        assert(new_posts[k].uuid == old_posts[k].uuid);
    }
}

/// Comments that keep their identifiers, and may gain new ones, keep every
/// mark on an existing comment.
proof fn lemma_marks_keep_comments(
    rows: Seq<Mark>,
    old_comments: Seq<CommentRecord>,
    new_comments: Seq<CommentRecord>,
)
    requires
        marks_on_comments(rows, old_comments),
        old_comments.len() <= new_comments.len(),
        forall|k: int| 0 <= k < old_comments.len() ==> (#[trigger] new_comments[k]).uuid == old_comments[k].uuid,
    ensures
        marks_on_comments(rows, new_comments),
{
    assert forall|i: int| 0 <= i < rows.len() implies comment_with(new_comments, #[trigger] rows[i].resource) by {
        let k = choose|k: int|
            0 <= k < old_comments.len() && (#[trigger] old_comments[k]).uuid == rows[i].resource;
        assert(new_comments[k].uuid == old_comments[k].uuid);
    }
}

/// A resource whose identifier is not in use yet has no marks.
pub proof fn lemma_unused_id_unmarked(s: Store, id: u128, liked: bool)
    requires
        s.wf(),
        !id_used(s.posts(), s.comments(), id),
    ensures
        flag_count(s.post_marks().rows(), id, liked) == 0,
        flag_count(s.comment_marks().rows(), id, liked) == 0,
{
    let pm = s.post_marks().rows();
    let cm = s.comment_marks().rows();
    assert(!resource_named(pm, id)) by {
        if resource_named(pm, id) {
            let k = choose|k: int| 0 <= k < pm.len() && (#[trigger] pm[k]).resource == id;
            assert(post_with(s.posts(), pm[k].resource));
        }
    }
    assert(!resource_named(cm, id)) by {
        if resource_named(cm, id) {
            let k = choose|k: int| 0 <= k < cm.len() && (#[trigger] cm[k]).resource == id;
            assert(comment_with(s.comments(), cm[k].resource));
        }
    }
    lemma_flag_count_absent(pm, id, liked);
    lemma_flag_count_absent(cm, id, liked);
}

/// The user that a registration request describes, under identifier `id`.
pub open spec fn registered_user(dto: UserRegistrationDTO, id: u128) -> UserModel {
    UserModel {
        uuid: id,
        username: dto.username,
        about: dto.about,
        first_name: dto.first_name,
        last_name: dto.last_name,
        password: dto.password,
        email: dto.email,
        phone_number: Some(dto.phone_number),
        birth_date: dto.birth_date,
        user_specs: dto.user_specs,
    }
}

/// The post that a publish request describes, under identifier `id` at time
/// `now`.
pub open spec fn published_post(dto: PublishPostDTO, id: u128, now: i64) -> PostRecord {
    PostRecord {
        uuid: id,
        title: dto.title,
        content: dto.content,
        published_at: now,
        edited: EditedState::NotEdited,
        author: dto.author,
        tags: dto.tags,
    }
}

/// `new` is `old` with one comment appended: identifier `id` (unused in
/// `old`), the given content and author, not edited, without marks, under
/// the target post, or replying to the target comment under that comment's
/// post. The other tables are unchanged.
pub open spec fn comment_published(
    old: Store,
    new: Store,
    content: String,
    author: Seq<char>,
    target: ResourceRef,
    id: u128,
) -> bool {
    &&& !id_used(old.posts(), old.comments(), id)
    &&& new.comments().len() == old.comments().len() + 1
    &&& new.comments().drop_last() == old.comments()
    &&& ({
        let c = new.comments().last();
        &&& c.uuid == id
        &&& c.content == content
        &&& c.author@ == author
        &&& c.edited == EditedState::NotEdited
        &&& match target {
            ResourceRef::Post(p) => c.under_post == p && c.replys_for is None,
            ResourceRef::Comment(q) => c.replys_for == Some(q) && exists|j: int|
                0 <= j < old.comments().len() && (#[trigger] old.comments()[j]).uuid == q
                    && old.comments()[j].under_post == c.under_post,
        }
    })
    &&& new.users() == old.users()
    &&& new.posts() == old.posts()
    &&& new.post_marks() == old.post_marks()
    &&& new.comment_marks() == old.comment_marks()
    &&& flag_count(new.comment_marks().rows(), id, true) == 0
    &&& flag_count(new.comment_marks().rows(), id, false) == 0
}

/// `new` is `old` after an edit at time `now` of the target's content: the
/// content is replaced, the resource becomes edited (never earlier than its
/// last edit), and everything else is kept.
pub open spec fn edit_applied(old: Store, new: Store, target: ResourceRef, content: String, now: i64) -> bool {
    &&& new.users() == old.users()
    &&& new.post_marks() == old.post_marks()
    &&& new.comment_marks() == old.comment_marks()
    &&& match target {
        ResourceRef::Post(id) => new.comments() == old.comments() && exists|i: int|
            0 <= i < old.posts().len() && (#[trigger] old.posts()[i]).uuid == id && new.posts()
                == old.posts().update(
                i,
                PostRecord {
                    content: content,
                    edited: edited_after(old.posts()[i].edited, now),
                    ..old.posts()[i]
                },
            ),
        ResourceRef::Comment(id) => new.posts() == old.posts() && exists|i: int|
            0 <= i < old.comments().len() && (#[trigger] old.comments()[i]).uuid == id && new.comments()
                == old.comments().update(
                i,
                CommentRecord {
                    content: content,
                    edited: edited_after(old.comments()[i].edited, now),
                    ..old.comments()[i]
                },
            ),
    }
}

/// `new` is `old` after an edit at time `now` of a post's title: the title
/// is replaced, the post becomes edited (never earlier than its last edit),
/// and everything else is kept.
pub open spec fn title_edit_applied(old: Store, new: Store, post: u128, title: String, now: i64) -> bool {
    &&& new.users() == old.users()
    &&& new.comments() == old.comments()
    &&& new.post_marks() == old.post_marks()
    &&& new.comment_marks() == old.comment_marks()
    &&& exists|i: int|
        0 <= i < old.posts().len() && (#[trigger] old.posts()[i]).uuid == post && new.posts()
            == old.posts().update(
            i,
            PostRecord { title: title, edited: edited_after(old.posts()[i].edited, now), ..old.posts()[i] },
        )
}

/// How a request by user `name` to make the changes `ps` ends: an unknown
/// user is refused; otherwise every violation of the user's role is
/// reported and nothing changes, or all changes are applied to that user
/// alone.
pub open spec fn changes_outcome(
    old: Store,
    new: Store,
    name: Seq<char>,
    ps: Seq<ChangeQueryParam>,
    r: Result<(), ChangeParamsError>,
) -> bool {
    &&& !user_named(old.users(), name) ==> r is Err && r->Err_0 is UserDoesntExist
    &&& r is Err ==> new == old
    &&& user_named(old.users(), name) ==> exists|i: int|
        0 <= i < old.users().len() && (#[trigger] old.users()[i]).username@ == name && ({
            let errs = all_change_errors(ps, old.users()[i].user_specs);
            &&& errs.len() > 0 ==> (r matches Err(ChangeParamsError::ValidationError(e)) && e@ == errs)
            &&& errs.len() == 0 ==> r is Ok && new.users() == old.users().update(
                i,
                apply_changes(old.users()[i], ps),
            ) && new.posts() == old.posts() && new.comments() == old.comments() && new.post_marks()
                == old.post_marks() && new.comment_marks() == old.comment_marks()
        })
}

/// All users, posts, comments and marks.
pub struct Store {
    users: Vec<UserModel>,
    posts: Vec<PostRecord>,
    comments: Vec<CommentRecord>,
    post_marks: MarkTable,
    comment_marks: MarkTable,
}

impl Store {
    pub closed spec fn users(&self) -> Seq<UserModel> {
        self.users@
    }

    pub closed spec fn posts(&self) -> Seq<PostRecord> {
        self.posts@
    }

    pub closed spec fn comments(&self) -> Seq<CommentRecord> {
        self.comments@
    }

    pub closed spec fn post_marks(&self) -> MarkTable {
        self.post_marks
    }

    pub closed spec fn comment_marks(&self) -> MarkTable {
        self.comment_marks
    }

    /// The marks of one kind of resource.
    pub open spec fn marks_of(&self, r: ResourceRef) -> MarkTable {
        match r {
            ResourceRef::Post(_) => self.post_marks(),
            ResourceRef::Comment(_) => self.comment_marks(),
        }
    }

    pub open spec fn exists_resource(&self, r: ResourceRef) -> bool {
        match r {
            ResourceRef::Post(id) => post_with(self.posts(), id),
            ResourceRef::Comment(id) => comment_with(self.comments(), id),
        }
    }

    pub open spec fn wf(&self) -> bool {
        &&& ids_unique(self.users(), self.posts(), self.comments())
        &&& comments_wf(self.posts(), self.comments())
        &&& self.post_marks().wf()
        &&& self.comment_marks().wf()
        &&& marks_on_posts(self.post_marks().rows(), self.posts())
        &&& marks_on_comments(self.comment_marks().rows(), self.comments())
    }

    pub fn new() -> (r: Store)
        ensures
            r.wf(),
            r.users().len() == 0,
            r.posts().len() == 0,
            r.comments().len() == 0,
            r.post_marks().rows().len() == 0,
            r.comment_marks().rows().len() == 0,
    {
        Store {
            users: Vec::new(),
            posts: Vec::new(),
            comments: Vec::new(),
            post_marks: MarkTable::new(),
            comment_marks: MarkTable::new(),
        }
    }

    fn find_user(&self, username: &str) -> (r: Option<usize>)
        ensures
            match r {
                Some(i) => i < self.users().len() && self.users()[i as int].username@ == username@,
                None => !user_named(self.users(), username@),
            },
    {
        let mut i: usize = 0;
        while i < self.users.len()
            invariant
                i <= self.users@.len(),
                forall|k: int| 0 <= k < i ==> (#[trigger] self.users@[k]).username@ != username@,
            decreases self.users@.len() - i,
        {
            if str_eq(self.users[i].username.as_str(), username) {
                return Some(i);
            }
            i = i + 1;
        }
        None
    }

    fn find_post(&self, id: u128) -> (r: Option<usize>)
        ensures
            match r {
                Some(i) => i < self.posts().len() && self.posts()[i as int].uuid == id,
                None => !post_with(self.posts(), id),
            },
    {
        let mut i: usize = 0;
        while i < self.posts.len()
            invariant
                i <= self.posts@.len(),
                forall|k: int| 0 <= k < i ==> (#[trigger] self.posts@[k]).uuid != id,
            decreases self.posts@.len() - i,
        {
            if self.posts[i].uuid == id {
                return Some(i);
            }
            i = i + 1;
        }
        None
    }

    fn find_comment(&self, id: u128) -> (r: Option<usize>)
        ensures
            match r {
                Some(i) => i < self.comments().len() && self.comments()[i as int].uuid == id,
                None => !comment_with(self.comments(), id),
            },
    {
        let mut i: usize = 0;
        while i < self.comments.len()
            invariant
                i <= self.comments@.len(),
                forall|k: int| 0 <= k < i ==> (#[trigger] self.comments@[k]).uuid != id,
            decreases self.comments@.len() - i,
        {
            if self.comments[i].uuid == id {
                return Some(i);
            }
            i = i + 1;
        }
        None
    }

    /// The user registered under a username.
    pub fn get_by_username(&self, username: &str) -> (r: Option<UserModel>)
        ensures
            match r {
                Some(u) => u.username@ == username@ && self.users().contains(u),
                None => !user_named(self.users(), username@),
            },
    {
        match self.find_user(username) {
            Some(i) => Some(self.users[i].clone()),
            None => None,
        }
    }

    /// Whether no user is registered under a username.
    pub fn is_username_free(&self, username: &str) -> (r: bool)
        ensures
            r == !user_named(self.users(), username@),
    {
        self.find_user(username).is_none()
    }

    /// Signs in: the username must be registered and the password must match.
    pub fn sing(&self, credentials: &SingDTO) -> (r: Result<String, SingError>)
        ensures
            match r {
                Ok(name) => name@ == credentials.username@ && exists|i: int|
                    0 <= i < self.users().len() && (#[trigger] self.users()[i]).username@
                        == credentials.username@ && self.users()[i].password@ == credentials.password@,
                Err(SingError::WrongUsername) => !user_named(self.users(), credentials.username@),
                Err(SingError::WrongPassword) => exists|i: int|
                    0 <= i < self.users().len() && (#[trigger] self.users()[i]).username@
                        == credentials.username@ && self.users()[i].password@ != credentials.password@,
            },
    {
        match self.find_user(credentials.username.as_str()) {
            Some(i) => check_credentials(Some(&self.users[i]), credentials),
            None => check_credentials(None, credentials),
        }
    }

    /// Registers a user under the identifier `id`. The username must be free.
    pub fn register_with(&mut self, dto: UserRegistrationDTO, id: u128) -> (r: Result<
        UserModel,
        RegistrationError,
    >)
        requires
            old(self).wf(),
        ensures
            final(self).wf(),
            match r {
                Ok(u) => !user_named(old(self).users(), dto.username@) && u == registered_user(dto, id)
                    && final(self).users() == old(self).users().push(u)
                    && final(self).posts() == old(self).posts() && final(self).comments()
                    == old(self).comments() && final(self).post_marks() == old(self).post_marks()
                    && final(self).comment_marks() == old(self).comment_marks(),
                Err(e) => e == RegistrationError::UsernameAlreadyExists && user_named(
                    old(self).users(),
                    dto.username@,
                ) && *final(self) == *old(self),
            },
    {
        if !self.is_username_free(dto.username.as_str()) {
            return Err(RegistrationError::UsernameAlreadyExists);
        }
        let user = UserModel {
            uuid: id,
            username: dto.username,
            about: dto.about,
            first_name: dto.first_name,
            last_name: dto.last_name,
            password: dto.password,
            email: dto.email,
            phone_number: Some(dto.phone_number),
            birth_date: dto.birth_date,
            user_specs: dto.user_specs,
        };
        let copy = user.clone();
        self.users.push(user);
        proof {
            let us = self.users@;
            assert forall|i: int, j: int| 0 <= i < j < us.len() implies (#[trigger] us[i]).username@
                != (#[trigger] us[j]).username@ by {
                if j == us.len() - 1 {
                    assert(us[i] == old(self).users@[i]);
                }
            }
        }
        Ok(copy)
    }

    /// Registers a user under a fresh random identifier.
    pub fn register(&mut self, dto: UserRegistrationDTO) -> (r: Result<UserModel, RegistrationError>)
        requires
            old(self).wf(),
        ensures
            final(self).wf(),
            match r {
                Ok(u) => !user_named(old(self).users(), dto.username@) && u == registered_user(dto, u.uuid)
                    && final(self).users() == old(self).users().push(u) && final(self).posts()
                    == old(self).posts() && final(self).comments() == old(self).comments()
                    && final(self).post_marks() == old(self).post_marks() && final(self).comment_marks()
                    == old(self).comment_marks(),
                Err(e) => e == RegistrationError::UsernameAlreadyExists && user_named(
                    old(self).users(),
                    dto.username@,
                ) && *final(self) == *old(self),
            },
    {
        let id = new_uuid();
        self.register_with(dto, id)
    }

    /// Whether an identifier is already used by a post or a comment.
    pub fn is_id_used(&self, id: u128) -> (r: bool)
        ensures
            r == id_used(self.posts(), self.comments(), id),
    {
        self.find_post(id).is_some() || self.find_comment(id).is_some()
    }

    /// Publishes a post with identifier `id` at time `now`. The author must be
    /// registered and the identifier unused.
    pub fn publish_post_with(&mut self, dto: PublishPostDTO, id: u128, now: i64) -> (r: Result<
        u128,
        PublishError,
    >)
        requires
            old(self).wf(),
        ensures
            final(self).wf(),
            (r == Err::<u128, PublishError>(PublishError::WrittenByNoone)) <==> !user_named(
                old(self).users(),
                dto.author@,
            ),
            (r == Err::<u128, PublishError>(PublishError::IdentifierTaken)) <==> user_named(
                old(self).users(),
                dto.author@,
            ) && id_used(old(self).posts(), old(self).comments(), id),
            (r == Ok::<u128, PublishError>(id)) <==> user_named(old(self).users(), dto.author@) && !id_used(
                old(self).posts(),
                old(self).comments(),
                id,
            ),
            r is Err ==> *final(self) == *old(self),
            r is Ok ==> final(self).posts() == old(self).posts().push(published_post(dto, id, now))
                && final(self).users() == old(self).users() && final(self).comments() == old(self).comments()
                && final(self).post_marks() == old(self).post_marks() && final(self).comment_marks()
                == old(self).comment_marks() && flag_count(final(self).post_marks().rows(), id, true) == 0
                && flag_count(final(self).post_marks().rows(), id, false) == 0,
    {
        if self.find_user(dto.author.as_str()).is_none() {
            return Err(PublishError::WrittenByNoone);
        }
        if self.is_id_used(id) {
            return Err(PublishError::IdentifierTaken);
        }
        let rec = PostRecord {
            uuid: id,
            title: dto.title,
            content: dto.content,
            published_at: now,
            edited: EditedState::NotEdited,
            author: dto.author,
            tags: dto.tags,
        };
        self.posts.push(rec);
        proof {
            let ps = self.posts@;
            let cs = self.comments@;
            let n = ps.len() - 1;
            assert forall|i: int, j: int| 0 <= i < j < ps.len() implies (#[trigger] ps[i]).uuid != (
            #[trigger] ps[j]).uuid by {
                if j == n {
                    assert(ps[i] == old(self).posts@[i]);
                }
            }
            assert forall|i: int, j: int| 0 <= i < ps.len() && 0 <= j < cs.len() implies (
            #[trigger] ps[i]).uuid != (#[trigger] cs[j]).uuid by {
                if i == n {
                    assert(!comment_with(cs, id));
                } else {
                    assert(ps[i] == old(self).posts@[i]);
                }
            }
            assert forall|i: int| 0 <= i < cs.len() implies post_with(ps, #[trigger] cs[i].under_post) by {
                assert(post_with(old(self).posts@, cs[i].under_post));
                let k = choose|k: int| 0 <= k < old(self).posts@.len() && (
                #[trigger] old(self).posts@[k]).uuid == cs[i].under_post;
                assert(ps[k] == old(self).posts@[k]);
            }
            lemma_marks_keep_posts(self.post_marks.rows(), old(self).posts@, ps);
            lemma_unused_id_unmarked(*old(self), id, true);
            lemma_unused_id_unmarked(*old(self), id, false);
        }
        Ok(id)
    }

    /// Publishes a post under a fresh identifier, at the current time.
    pub fn publish_post(&mut self, dto: PublishPostDTO) -> (r: Result<u128, PublishError>)
        requires
            old(self).wf(),
        ensures
            final(self).wf(),
            (r == Err::<u128, PublishError>(PublishError::WrittenByNoone)) <==> !user_named(
                old(self).users(),
                dto.author@,
            ),
            r is Err ==> *final(self) == *old(self) && (r == Err::<u128, PublishError>(
                PublishError::WrittenByNoone,
            ) || r == Err::<u128, PublishError>(PublishError::IdentifierTaken)),
            r == Err::<u128, PublishError>(PublishError::IdentifierTaken) ==> old(self).posts().len()
                + old(self).comments().len() > 0,
            user_named(old(self).users(), dto.author@) && old(self).posts().len() == 0
                && old(self).comments().len() == 0 ==> r is Ok,
            r matches Ok(id) ==> user_named(old(self).users(), dto.author@) && !id_used(
                old(self).posts(),
                old(self).comments(),
                id,
            ) && final(self).posts().drop_last() == old(self).posts() && final(self).posts().len()
                == old(self).posts().len() + 1 && final(self).posts().last() == published_post(
                dto,
                id,
                final(self).posts().last().published_at,
            ) && final(self).users() == old(self).users() && final(self).comments() == old(self).comments()
                && final(self).post_marks() == old(self).post_marks() && final(self).comment_marks()
                == old(self).comment_marks() && flag_count(final(self).post_marks().rows(), id, true) == 0
                && flag_count(final(self).post_marks().rows(), id, false) == 0,
    {
        let id = new_uuid();
        let now = now_seconds();
        let r = self.publish_post_with(dto, id, now);
        proof {
            if r is Ok {
                assert(self.posts@ == old(self).posts@.push(published_post(dto, id, now)));
                assert(self.posts@.drop_last() =~= old(self).posts@);
            }
        }
        r
    }

    /// Publishes a comment on a post or a comment, with identifier `id` at
    /// time `now`. A comment on a comment stands under the same post and
    /// replies to it.
    pub fn publish_comment_with(
        &mut self,
        content: String,
        author: &str,
        target: ResourceRef,
        id: u128,
        now: i64,
    ) -> (r: Result<u128, PublishError>)
        requires
            old(self).wf(),
        ensures
            final(self).wf(),
            (r == Err::<u128, PublishError>(PublishError::WrittenByNoone)) <==> !user_named(
                old(self).users(),
                author@,
            ),
            (r == Err::<u128, PublishError>(PublishError::WrittenUnderUnexistedPost)) <==> user_named(
                old(self).users(),
                author@,
            ) && !old(self).exists_resource(target),
            (r == Err::<u128, PublishError>(PublishError::IdentifierTaken)) <==> user_named(
                old(self).users(),
                author@,
            ) && old(self).exists_resource(target) && id_used(old(self).posts(), old(self).comments(), id),
            (r == Ok::<u128, PublishError>(id)) <==> user_named(old(self).users(), author@)
                && old(self).exists_resource(target) && !id_used(old(self).posts(), old(self).comments(), id),
            r is Err ==> *final(self) == *old(self),
            r is Ok ==> comment_published(*old(self), *final(self), content, author@, target, id)
                && final(self).comments().last().published_at == now,
    {
        if self.find_user(author).is_none() {
            return Err(PublishError::WrittenByNoone);
        }
        let (under_post, replys_for) = match target {
            ResourceRef::Post(p) => {
                if self.find_post(p).is_none() {
                    return Err(PublishError::WrittenUnderUnexistedPost);
                }
                (p, None)
            },
            ResourceRef::Comment(q) => {
                match self.find_comment(q) {
                    None => {
                        return Err(PublishError::WrittenUnderUnexistedPost);
                    },
                    Some(j) => (self.comments[j].under_post, Some(q)),
                }
            },
        };
        if self.is_id_used(id) {
            return Err(PublishError::IdentifierTaken);
        }
        let rec = CommentRecord {
            uuid: id,
            content,
            published_at: now,
            edited: EditedState::NotEdited,
            author: String::from_str(author),
            replys_for,
            under_post,
        };
        self.comments.push(rec);
        proof {
            let ps = self.posts@;
            let cs = self.comments@;
            let ocs = old(self).comments@;
            let n = cs.len() - 1;
            assert(cs.drop_last() =~= ocs);
            assert forall|i: int, j: int| 0 <= i < j < cs.len() implies (#[trigger] cs[i]).uuid != (
            #[trigger] cs[j]).uuid by {
                if j == n {
                    assert(cs[i] == ocs[i]);
                    assert(!comment_with(ocs, id));
                }
            }
            assert forall|i: int, j: int| 0 <= i < ps.len() && 0 <= j < cs.len() implies (
            #[trigger] ps[i]).uuid != (#[trigger] cs[j]).uuid by {
                if j == n {
                    assert(!post_with(ps, id));
                } else {
                    assert(cs[j] == ocs[j]);
                }
            }
            assert forall|i: int| 0 <= i < cs.len() implies post_with(ps, #[trigger] cs[i].under_post) by {
                if i < n {
                    assert(cs[i] == ocs[i]);
                } else {
                    match target {
                        ResourceRef::Post(p) => {},
                        ResourceRef::Comment(q) => {
                            let j = choose|j: int| 0 <= j < ocs.len() && (#[trigger] ocs[j]).uuid == q;
                            assert(post_with(ps, ocs[j].under_post));
                        },
                    }
                }
            }
            assert forall|i: int|
                0 <= i < cs.len() && (#[trigger] cs[i]).replys_for is Some implies exists|j: int|
                0 <= j < i && cs[j].uuid == cs[i].replys_for->0 && cs[j].under_post == cs[i].under_post by {
                if i < n {
                    assert(cs[i] == ocs[i]);
                    let j = choose|j: int|
                        0 <= j < i && ocs[j].uuid == ocs[i].replys_for->0 && ocs[j].under_post
                            == ocs[i].under_post;
                    assert(cs[j] == ocs[j]);
                } else {
                    match target {
                        ResourceRef::Post(p) => {},
                        ResourceRef::Comment(q) => {
                            let j = choose|j: int|
                                0 <= j < ocs.len() && (#[trigger] ocs[j]).uuid == q && ocs[j].under_post
                                    == under_post;
                            assert(cs[j] == ocs[j]);
                        },
                    }
                }
            }
            lemma_unused_id_unmarked(*old(self), id, true);
            lemma_unused_id_unmarked(*old(self), id, false);
        }
        Ok(id)
    }

    /// Publishes a comment under a fresh identifier, at the current time.
    pub fn comment(&mut self, content: String, author: &str, target: ResourceRef) -> (r: Result<
        u128,
        PublishError,
    >)
        requires
            old(self).wf(),
        ensures
            final(self).wf(),
            (r == Err::<u128, PublishError>(PublishError::WrittenByNoone)) <==> !user_named(
                old(self).users(),
                author@,
            ),
            (r == Err::<u128, PublishError>(PublishError::WrittenUnderUnexistedPost)) <==> user_named(
                old(self).users(),
                author@,
            ) && !old(self).exists_resource(target),
            r is Err ==> *final(self) == *old(self) && (r == Err::<u128, PublishError>(
                PublishError::WrittenByNoone,
            ) || r == Err::<u128, PublishError>(PublishError::WrittenUnderUnexistedPost) || r == Err::<
                u128,
                PublishError,
            >(PublishError::IdentifierTaken)),
            r matches Ok(id) ==> user_named(old(self).users(), author@) && old(self).exists_resource(target)
                && comment_published(*old(self), *final(self), content, author@, target, id),
    {
        let id = new_uuid();
        let now = now_seconds();
        self.publish_comment_with(content, author, target, id, now)
    }

    /// Replaces the content of a resource, for its author only, and marks it
    /// edited at `now` (or at its last edit time, if that is later).
    pub fn edit_with(&mut self, target: ResourceRef, content: String, requester: &str, now: i64) -> (r: Result<
        (),
        EditError,
    >)
        requires
            old(self).wf(),
        ensures
            final(self).wf(),
            !old(self).exists_resource(target) ==> r == Err::<(), EditError>(EditError::ResourceNotFound),
            old(self).exists_resource(target) ==> (r is Ok <==> author_of(
                old(self).posts(),
                old(self).comments(),
                target,
                requester@,
            )),
            old(self).exists_resource(target) && !author_of(old(self).posts(), old(self).comments(), target, requester@)
                ==> r == Err::<(), EditError>(EditError::EditsNotAuthor),
            r is Err ==> *final(self) == *old(self),
            r is Ok ==> edit_applied(*old(self), *final(self), target, content, now),
    {
        match target {
            ResourceRef::Post(id) => {
                match self.find_post(id) {
                    None => Err(EditError::ResourceNotFound),
                    Some(i) => {
                        proof {
                            assert forall|k: int|
                                0 <= k < self.posts@.len() && (#[trigger] self.posts@[k]).uuid == id implies k
                                == i by {}
                        }
                        if !str_eq(self.posts[i].author.as_str(), requester) {
                            return Err(EditError::EditsNotAuthor);
                        }
                        let mut old_rec = PostRecord {
                            uuid: 0,
                            title: String::new(),
                            content: String::new(),
                            published_at: 0,
                            edited: EditedState::NotEdited,
                            author: String::new(),
                            tags: Vec::new(),
                        };
                        self.posts.set_and_swap(i, &mut old_rec);
                        let rec = PostRecord {
                            uuid: old_rec.uuid,
                            title: old_rec.title,
                            content,
                            published_at: old_rec.published_at,
                            edited: edit_state(old_rec.edited, now),
                            author: old_rec.author,
                            tags: old_rec.tags,
                        };
                        self.posts.set(i, rec);
                        proof {
                            let ps = self.posts@;
                            let cs = self.comments@;
                            assert(ps[i as int] == PostRecord {
                                content: content,
                                edited: edited_after(old(self).posts()[i as int].edited, now),
                                ..old(self).posts()[i as int]
                            });
                            assert(ps =~= old(self).posts@.update(i as int, ps[i as int]));
                            assert forall|a: int, b: int| 0 <= a < b < ps.len() implies (
                            #[trigger] ps[a]).uuid != (#[trigger] ps[b]).uuid by {
                                assert(old(self).posts@[a].uuid == ps[a].uuid);
                                assert(old(self).posts@[b].uuid == ps[b].uuid);
                            }
                            assert forall|a: int, b: int| 0 <= a < ps.len() && 0 <= b < cs.len() implies (
                            #[trigger] ps[a]).uuid != (#[trigger] cs[b]).uuid by {
                                assert(old(self).posts@[a].uuid == ps[a].uuid);
                            }
                            assert forall|a: int| 0 <= a < cs.len() implies post_with(
                                ps,
                                #[trigger] cs[a].under_post,
                            ) by {
                                let k = choose|k: int| 0 <= k < old(self).posts@.len() && (
                                #[trigger] old(self).posts@[k]).uuid == cs[a].under_post;
                                assert(ps[k].uuid == old(self).posts@[k].uuid);
                            }
                            assert forall|k: int| 0 <= k < old(self).posts@.len() implies (
                            #[trigger] ps[k]).uuid == old(self).posts@[k].uuid by {}
                            lemma_marks_keep_posts(self.post_marks.rows(), old(self).posts@, ps);
                        }
                        Ok(())
                    },
                }
            },
            ResourceRef::Comment(id) => {
                match self.find_comment(id) {
                    None => Err(EditError::ResourceNotFound),
                    Some(i) => {
                        proof {
                            assert forall|k: int|
                                0 <= k < self.comments@.len() && (#[trigger] self.comments@[k]).uuid == id
                                    implies k == i by {}
                        }
                        if !str_eq(self.comments[i].author.as_str(), requester) {
                            return Err(EditError::EditsNotAuthor);
                        }
                        let old_rec = self.comments[i].clone();
                        let rec = CommentRecord {
                            uuid: old_rec.uuid,
                            content,
                            published_at: old_rec.published_at,
                            edited: edit_state(old_rec.edited, now),
                            author: old_rec.author,
                            replys_for: old_rec.replys_for,
                            under_post: old_rec.under_post,
                        };
                        self.comments.set(i, rec);
                        proof {
                            let ps = self.posts@;
                            let cs = self.comments@;
                            let ocs = old(self).comments@;
                            assert(cs[i as int] == CommentRecord {
                                content: content,
                                edited: edited_after(ocs[i as int].edited, now),
                                ..ocs[i as int]
                            });
                            assert forall|a: int, b: int| 0 <= a < b < cs.len() implies (
                            #[trigger] cs[a]).uuid != (#[trigger] cs[b]).uuid by {
                                assert(ocs[a].uuid == cs[a].uuid);
                                assert(ocs[b].uuid == cs[b].uuid);
                            }
                            assert forall|a: int, b: int| 0 <= a < ps.len() && 0 <= b < cs.len() implies (
                            #[trigger] ps[a]).uuid != (#[trigger] cs[b]).uuid by {
                                assert(ocs[b].uuid == cs[b].uuid);
                            }
                            assert forall|a: int| 0 <= a < cs.len() implies post_with(
                                ps,
                                #[trigger] cs[a].under_post,
                            ) by {
                                assert(ocs[a].under_post == cs[a].under_post);
                            }
                            assert forall|a: int|
                                0 <= a < cs.len() && (#[trigger] cs[a]).replys_for is Some implies exists|j: int|
                                0 <= j < a && cs[j].uuid == cs[a].replys_for->0 && cs[j].under_post
                                    == cs[a].under_post by {
                                assert(ocs[a].replys_for == cs[a].replys_for);
                                assert(ocs[a].under_post == cs[a].under_post);
                                let j = choose|j: int|
                                    0 <= j < a && ocs[j].uuid == ocs[a].replys_for->0 && ocs[j].under_post
                                        == ocs[a].under_post;
                                assert(cs[j].uuid == ocs[j].uuid && cs[j].under_post == ocs[j].under_post);
                            }
                            assert forall|k: int| 0 <= k < ocs.len() implies (#[trigger] cs[k]).uuid
                                == ocs[k].uuid by {}
                            lemma_marks_keep_comments(self.comment_marks.rows(), ocs, cs);
                        }
                        Ok(())
                    },
                }
            },
        }
    }

    /// Edits a resource at the current time.
    pub fn edit(&mut self, target: ResourceRef, content: String, requester: &str) -> (r: Result<(), EditError>)
        requires
            old(self).wf(),
        ensures
            final(self).wf(),
            !old(self).exists_resource(target) ==> r == Err::<(), EditError>(EditError::ResourceNotFound),
            old(self).exists_resource(target) ==> (r is Ok <==> author_of(
                old(self).posts(),
                old(self).comments(),
                target,
                requester@,
            )),
            old(self).exists_resource(target) && !author_of(old(self).posts(), old(self).comments(), target, requester@)
                ==> r == Err::<(), EditError>(EditError::EditsNotAuthor),
            r is Err ==> *final(self) == *old(self),
            r is Ok ==> exists|now: i64| #[trigger] edit_applied(*old(self), *final(self), target, content, now),
    {
        let now = now_seconds();
        let ghost c = content;
        let r = self.edit_with(target, content, requester, now);
        proof {
            if r is Ok {
                assert(edit_applied(*old(self), *self, target, c, now));
            }
        }
        r
    }

    /// Marks a resource for a user, replacing the user's earlier mark on it;
    /// the new mark has identifier `id`.
    pub fn mark_with(&mut self, user: &str, target: ResourceRef, liked: bool, id: u128) -> (r: Result<
        (),
        MarkError,
    >)
        requires
            old(self).wf(),
        ensures
            final(self).wf(),
            !user_named(old(self).users(), user@) ==> r == Err::<(), MarkError>(MarkError::UserNotFound),
            user_named(old(self).users(), user@) && !old(self).exists_resource(target) ==> r == Err::<
                (),
                MarkError,
            >(MarkError::ResourceNotFound),
            user_named(old(self).users(), user@) && old(self).exists_resource(target) ==> r is Ok,
            r is Err ==> *final(self) == *old(self),
            r is Ok ==> final(self).users() == old(self).users() && final(self).posts() == old(self).posts()
                && final(self).comments() == old(self).comments() && match target {
                ResourceRef::Post(p) => marked(
                    final(self).post_marks().rows(),
                    old(self).post_marks().rows(),
                    user@,
                    p,
                    liked,
                ) && final(self).comment_marks() == old(self).comment_marks(),
                ResourceRef::Comment(c) => marked(
                    final(self).comment_marks().rows(),
                    old(self).comment_marks().rows(),
                    user@,
                    c,
                    liked,
                ) && final(self).post_marks() == old(self).post_marks(),
            },
    {
        if self.find_user(user).is_none() {
            return Err(MarkError::UserNotFound);
        }
        match target {
            ResourceRef::Post(p) => {
                if self.find_post(p).is_none() {
                    return Err(MarkError::ResourceNotFound);
                }
                self.post_marks.mark(id, user, p, liked);
            },
            ResourceRef::Comment(c) => {
                if self.find_comment(c).is_none() {
                    return Err(MarkError::ResourceNotFound);
                }
                self.comment_marks.mark(id, user, c, liked);
            },
        }
        Ok(())
    }

    /// A like of `user` on a resource.
    pub fn like(&mut self, user: &str, target: ResourceRef) -> (r: Result<(), MarkError>)
        requires
            old(self).wf(),
        ensures
            final(self).wf(),
            !user_named(old(self).users(), user@) ==> r == Err::<(), MarkError>(MarkError::UserNotFound),
            user_named(old(self).users(), user@) && !old(self).exists_resource(target) ==> r == Err::<
                (),
                MarkError,
            >(MarkError::ResourceNotFound),
            user_named(old(self).users(), user@) && old(self).exists_resource(target) ==> r is Ok,
            r is Err ==> *final(self) == *old(self),
            r is Ok ==> final(self).users() == old(self).users() && final(self).posts() == old(self).posts()
                && final(self).comments() == old(self).comments() && match target {
                ResourceRef::Post(p) => marked(
                    final(self).post_marks().rows(),
                    old(self).post_marks().rows(),
                    user@,
                    p,
                    true,
                ) && final(self).comment_marks() == old(self).comment_marks(),
                ResourceRef::Comment(c) => marked(
                    final(self).comment_marks().rows(),
                    old(self).comment_marks().rows(),
                    user@,
                    c,
                    true,
                ) && final(self).post_marks() == old(self).post_marks(),
            },
    {
        let id = new_uuid();
        self.mark_with(user, target, true, id)
    }

    /// A dislike of `user` on a resource.
    pub fn dislike(&mut self, user: &str, target: ResourceRef) -> (r: Result<(), MarkError>)
        requires
            old(self).wf(),
        ensures
            final(self).wf(),
            !user_named(old(self).users(), user@) ==> r == Err::<(), MarkError>(MarkError::UserNotFound),
            user_named(old(self).users(), user@) && !old(self).exists_resource(target) ==> r == Err::<
                (),
                MarkError,
            >(MarkError::ResourceNotFound),
            user_named(old(self).users(), user@) && old(self).exists_resource(target) ==> r is Ok,
            r is Err ==> *final(self) == *old(self),
            r is Ok ==> final(self).users() == old(self).users() && final(self).posts() == old(self).posts()
                && final(self).comments() == old(self).comments() && match target {
                ResourceRef::Post(p) => marked(
                    final(self).post_marks().rows(),
                    old(self).post_marks().rows(),
                    user@,
                    p,
                    false,
                ) && final(self).comment_marks() == old(self).comment_marks(),
                ResourceRef::Comment(c) => marked(
                    final(self).comment_marks().rows(),
                    old(self).comment_marks().rows(),
                    user@,
                    c,
                    false,
                ) && final(self).post_marks() == old(self).post_marks(),
            },
    {
        let id = new_uuid();
        self.mark_with(user, target, false, id)
    }

    /// How many likes (`liked`) or dislikes a resource has.
    pub fn mark_count(&self, target: ResourceRef, liked: bool) -> (r: usize)
        ensures
            r == match target {
                ResourceRef::Post(p) => flag_count(self.post_marks().rows(), p, liked),
                ResourceRef::Comment(c) => flag_count(self.comment_marks().rows(), c, liked),
            },
    {
        match target {
            ResourceRef::Post(p) => self.post_marks.count(p, liked),
            ResourceRef::Comment(c) => self.comment_marks.count(c, liked),
        }
    }

    /// The reaction of a user to a resource.
    pub fn mark_state(&self, user: &str, target: ResourceRef) -> (r: MarkState)
        ensures
            r == match target {
                ResourceRef::Post(p) => pair_state(self.post_marks().rows(), user@, p),
                ResourceRef::Comment(c) => pair_state(self.comment_marks().rows(), user@, c),
            },
    {
        match target {
            ResourceRef::Post(p) => self.post_marks.state_of(user, p),
            ResourceRef::Comment(c) => self.comment_marks.state_of(user, c),
        }
    }

    /// The posts, in order of publication.
    pub fn posts_vec(&self) -> (r: &Vec<PostRecord>)
        ensures
            r@ == self.posts(),
    {
        &self.posts
    }

    /// The comments, in order of publication.
    pub fn comments_vec(&self) -> (r: &Vec<CommentRecord>)
        ensures
            r@ == self.comments(),
    {
        &self.comments
    }

    /// The likes and dislikes of a resource.
    pub fn mark_counts(&self, target: ResourceRef) -> (r: (usize, usize))
        ensures
            r.0 == flag_count(self.marks_of(target).rows(), target_id(target), true),
            r.1 == flag_count(self.marks_of(target).rows(), target_id(target), false),
            r.0 + r.1 <= usize::MAX,
    {
        match target {
            ResourceRef::Post(p) => self.post_marks.counts(p),
            ResourceRef::Comment(c) => self.comment_marks.counts(c),
        }
    }

    /// Changes fields of a user. Every change is validated first; if any is
    /// refused, all violations are returned and nothing changes.
    pub fn change_parameters(&mut self, username: &str, params: Vec<ChangeQueryParam>) -> (r: Result<
        (),
        ChangeParamsError,
    >)
        requires
            old(self).wf(),
        ensures
            final(self).wf(),
            changes_outcome(*old(self), *final(self), username@, params@, r),
    {
        let i = match self.find_user(username) {
            None => {
                return Err(ChangeParamsError::UserDoesntExist);
            },
            Some(i) => i,
        };
        proof {
            assert forall|k: int|
                0 <= k < self.users@.len() && (#[trigger] self.users@[k]).username@ == username@ implies k
                == i by {}
        }
        let ghost ps = params@;
        let validated = match validate_changes(params, &self.users[i]) {
            Err(e) => {
                return Err(ChangeParamsError::ValidationError(e));
            },
            Ok(v) => v,
        };
        let mut user = UserModel {
            uuid: 0,
            username: String::new(),
            about: String::new(),
            first_name: String::new(),
            last_name: String::new(),
            password: String::new(),
            email: String::new(),
            phone_number: None,
            birth_date: 0,
            user_specs: UserType::Other,
        };
        self.users.set_and_swap(i, &mut user);
        let ghost unchanged = user;
        let mut k: usize = 0;
        while k < validated.len()
            invariant
                k <= validated@.len(),
                validated@.len() == ps.len(),
                forall|m: int| 0 <= m < validated@.len() ==> (#[trigger] validated@[m]).spec_param() == ps[m],
                user == apply_changes(unchanged, ps.subrange(0, k as int)),
                user.username == unchanged.username,
                user.uuid == unchanged.uuid,
            decreases validated@.len() - k,
        {
            let p = validated[k].param();
            user = change_user(user, p);
            k = k + 1;
            assert(ps.subrange(0, k as int).drop_last() =~= ps.subrange(0, k - 1));
        }
        assert(ps.subrange(0, k as int) =~= ps);
        self.users.set(i, user);
        proof {
            let us = self.users@;
            let ous = old(self).users@;
            assert(us =~= ous.update(i as int, apply_changes(ous[i as int], ps)));
            assert forall|a: int, b: int| 0 <= a < b < us.len() implies (#[trigger] us[a]).username@ != (
            #[trigger] us[b]).username@ by {
                assert(us[a].username == ous[a].username);
                assert(us[b].username == ous[b].username);
            }
        }
        Ok(())
    }

    /// The resource with an identifier: a comment if one has it, else a post.
    pub fn find_resource(&self, id: u128) -> (r: Option<ResourceRef>)
        ensures
            match r {
                Some(ResourceRef::Comment(c)) => c == id && comment_with(self.comments(), id),
                Some(ResourceRef::Post(p)) => p == id && post_with(self.posts(), id) && !comment_with(
                    self.comments(),
                    id,
                ),
                None => !comment_with(self.comments(), id) && !post_with(self.posts(), id),
            },
    {
        if self.find_comment(id).is_some() {
            return Some(ResourceRef::Comment(id));
        }
        if self.find_post(id).is_some() {
            return Some(ResourceRef::Post(id));
        }
        None
    }

    /// Whether `user` wrote the resource.
    pub fn is_author(&self, target: ResourceRef, user: &str) -> (r: bool)
        requires
            self.wf(),
        ensures
            r == author_of(self.posts(), self.comments(), target, user@),
    {
        match target {
            ResourceRef::Post(id) => match self.find_post(id) {
                None => false,
                Some(i) => {
                    proof {
                        assert forall|k: int|
                            0 <= k < self.posts@.len() && (#[trigger] self.posts@[k]).uuid == id implies k
                            == i by {}
                    }
                    str_eq(self.posts[i].author.as_str(), user)
                },
            },
            ResourceRef::Comment(id) => match self.find_comment(id) {
                None => false,
                Some(i) => {
                    proof {
                        assert forall|k: int|
                            0 <= k < self.comments@.len() && (#[trigger] self.comments@[k]).uuid == id
                                implies k == i by {}
                    }
                    str_eq(self.comments[i].author.as_str(), user)
                },
            },
        }
    }

    /// The users that meet every filter, in order of registration.
    pub fn get_many_users(&self, params: &Vec<GetByQueryParam>) -> (r: Vec<UserModel>)
        ensures
            r@ == users_matching(self.users(), params@, self.users().len() as int),
    {
        let mut out: Vec<UserModel> = Vec::new();
        let mut i: usize = 0;
        while i < self.users.len()
            invariant
                i <= self.users@.len(),
                out@ == users_matching(self.users@, params@, i as int),
            decreases self.users@.len() - i,
        {
            if user_matches_every(&self.users[i], params) {
                out.push(self.users[i].clone());
            }
            i = i + 1;
        }
        out
    }

    /// The first user, in order of registration, that meets every filter.
    pub fn get_one_user(&self, params: &Vec<GetByQueryParam>) -> (r: Option<UserModel>)
        ensures
            ({
                let all = users_matching(self.users(), params@, self.users().len() as int);
                match r {
                    Some(u) => all.len() > 0 && u == all[0],
                    None => all.len() == 0,
                }
            }),
    {
        let all = self.get_many_users(params);
        if all.len() == 0 {
            None
        } else {
            Some(all[0].clone())
        }
    }

    /// Replaces the title of a post, for its author only, and marks it
    /// edited at `now` (or at its last edit time, if that is later).
    pub fn edit_title_with(&mut self, post: u128, title: String, requester: &str, now: i64) -> (r: Result<
        (),
        EditError,
    >)
        requires
            old(self).wf(),
        ensures
            final(self).wf(),
            !post_with(old(self).posts(), post) ==> r == Err::<(), EditError>(EditError::ResourceNotFound),
            post_with(old(self).posts(), post) ==> (r is Ok <==> author_of(
                old(self).posts(),
                old(self).comments(),
                ResourceRef::Post(post),
                requester@,
            )),
            post_with(old(self).posts(), post) && !author_of(
                old(self).posts(),
                old(self).comments(),
                ResourceRef::Post(post),
                requester@,
            ) ==> r == Err::<(), EditError>(EditError::EditsNotAuthor),
            r is Err ==> *final(self) == *old(self),
            r is Ok ==> title_edit_applied(*old(self), *final(self), post, title, now),
    {
        match self.find_post(post) {
            None => Err(EditError::ResourceNotFound),
            Some(i) => {
                proof {
                    assert forall|k: int|
                        0 <= k < self.posts@.len() && (#[trigger] self.posts@[k]).uuid == post implies k == i by {}
                }
                if !str_eq(self.posts[i].author.as_str(), requester) {
                    return Err(EditError::EditsNotAuthor);
                }
                let mut old_rec = PostRecord {
                    uuid: 0,
                    title: String::new(),
                    content: String::new(),
                    published_at: 0,
                    edited: EditedState::NotEdited,
                    author: String::new(),
                    tags: Vec::new(),
                };
                self.posts.set_and_swap(i, &mut old_rec);
                let rec = PostRecord {
                    uuid: old_rec.uuid,
                    title,
                    content: old_rec.content,
                    published_at: old_rec.published_at,
                    edited: edit_state(old_rec.edited, now),
                    author: old_rec.author,
                    tags: old_rec.tags,
                };
                self.posts.set(i, rec);
                proof {
                    let ps = self.posts@;
                    let cs = self.comments@;
                    assert(ps =~= old(self).posts@.update(i as int, ps[i as int]));
                    assert forall|a: int, b: int| 0 <= a < b < ps.len() implies (#[trigger] ps[a]).uuid != (
                    #[trigger] ps[b]).uuid by {
                        assert(old(self).posts@[a].uuid == ps[a].uuid);
                        assert(old(self).posts@[b].uuid == ps[b].uuid);
                    }
                    assert forall|a: int, b: int| 0 <= a < ps.len() && 0 <= b < cs.len() implies (
                    #[trigger] ps[a]).uuid != (#[trigger] cs[b]).uuid by {
                        assert(old(self).posts@[a].uuid == ps[a].uuid);
                    }
                    assert forall|a: int| 0 <= a < cs.len() implies post_with(ps, #[trigger] cs[a].under_post) by {
                        let k = choose|k: int|
                            0 <= k < old(self).posts@.len() && (#[trigger] old(self).posts@[k]).uuid
                                == cs[a].under_post;
                        assert(ps[k].uuid == old(self).posts@[k].uuid);
                    }
                    assert forall|k: int| 0 <= k < old(self).posts@.len() implies (#[trigger] ps[k]).uuid
                        == old(self).posts@[k].uuid by {}
                    lemma_marks_keep_posts(self.post_marks.rows(), old(self).posts@, ps);
                }
                Ok(())
            },
        }
    }

    /// Edits the title of a post at the current time.
    pub fn edit_title(&mut self, post: u128, title: String, requester: &str) -> (r: Result<(), EditError>)
        requires
            old(self).wf(),
        ensures
            final(self).wf(),
            !post_with(old(self).posts(), post) ==> r == Err::<(), EditError>(EditError::ResourceNotFound),
            post_with(old(self).posts(), post) ==> (r is Ok <==> author_of(
                old(self).posts(),
                old(self).comments(),
                ResourceRef::Post(post),
                requester@,
            )),
            post_with(old(self).posts(), post) && !author_of(
                old(self).posts(),
                old(self).comments(),
                ResourceRef::Post(post),
                requester@,
            ) ==> r == Err::<(), EditError>(EditError::EditsNotAuthor),
            r is Err ==> *final(self) == *old(self),
            r is Ok ==> exists|now: i64| #[trigger] title_edit_applied(*old(self), *final(self), post, title, now),
    {
        let now = now_seconds();
        let ghost t = title;
        let r = self.edit_title_with(post, title, requester, now);
        proof {
            if r is Ok {
                assert(title_edit_applied(*old(self), *self, post, t, now));
            }
        }
        r
    }
}

} // verus!
