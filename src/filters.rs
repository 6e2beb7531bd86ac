//! The typed filters and sort keys of each repository, and the select
//! statements built from them.

use crate::query::{
    binds_of, conditions_of, group_sql, limit_sql, order_sql, where_sql, clone_strings, text_list_view, BuiltQuery, Fragment, Predicate, SelectRequestBuilder,
    SortingDirection, SqlArg, SqlValue, ToSQL,
};
use crate::types::Limit;
use crate::users::UserType;
use vstd::prelude::*;
use vstd::string::*;

verus! {

/// Keys by which posts can be sorted.
#[derive(Clone, Copy, Debug, PartialEq, Eq)]
pub enum SortingParam {
    Raiting,
    ReleaseTime,
}

impl ToSQL for SortingParam {
    open spec fn sql(&self) -> Seq<char> {
        match self {
            SortingParam::Raiting => "raiting"@,
            SortingParam::ReleaseTime => "published_at"@,
        }
    }

    fn to_sql(&self) -> (r: String) {
        proof {
            reveal_strlit("raiting");
            reveal_strlit("published_at");
        }
        match self {
            SortingParam::Raiting => String::from_str("raiting"),
            SortingParam::ReleaseTime => String::from_str("published_at"),
        }
    }
}

/// No sort key: for queries that are never ordered.
impl ToSQL for () {
    open spec fn sql(&self) -> Seq<char> {
        seq![]
    }

    fn to_sql(&self) -> (r: String) {
        String::new()
    }
}

fn fragment(condition: &str, value: SqlValue) -> (r: Fragment)
    ensures
        r.condition@ == condition@,
        r.value == value,
{
    Fragment { condition: String::from_str(condition), value }
}

/// Filters on posts. `Tags` keeps the posts whose tags contain all the given
/// ones.
#[derive(Debug)]
pub enum GetQueryParam {
    Uuid(u128),
    Author(String),
    Tags(Vec<String>),
}

impl Predicate for GetQueryParam {
    open spec fn condition(&self) -> Seq<char> {
        match self {
            GetQueryParam::Uuid(_) => "posts.uuid = "@,
            GetQueryParam::Author(_) => "posts.author = "@,
            GetQueryParam::Tags(_) => "posts.tags @> "@,
        }
    }

    open spec fn bound(&self) -> SqlArg {
        match self {
            GetQueryParam::Uuid(u) => SqlArg::Uuid(*u),
            GetQueryParam::Author(a) => SqlArg::Text(a@),
            GetQueryParam::Tags(t) => SqlArg::TextList(text_list_view(t@)),
        }
    }

    fn to_fragment(&self) -> (r: Fragment) {
        match self {
            GetQueryParam::Uuid(u) => fragment("posts.uuid = ", SqlValue::Uuid(*u)),
            GetQueryParam::Author(a) => fragment("posts.author = ", SqlValue::Text(a.clone())),
            GetQueryParam::Tags(t) => fragment("posts.tags @> ", SqlValue::TextList(clone_strings(t))),
        }
    }
}

/// Filters on comments: by identifier, by the post they stand under, by the
/// comment they reply to, by author.
#[derive(Clone, Debug)]
pub enum GetCommentQueryParam {
    Uuid(u128),
    Post(u128),
    Replies(u128),
    User(String),
}

impl Predicate for GetCommentQueryParam {
    open spec fn condition(&self) -> Seq<char> {
        match self {
            GetCommentQueryParam::Uuid(_) => "comments.uuid = "@,
            GetCommentQueryParam::Post(_) => "comments.under_post = "@,
            GetCommentQueryParam::Replies(_) => "comments.replys_for = "@,
            GetCommentQueryParam::User(_) => "comments.author = "@,
        }
    }

    open spec fn bound(&self) -> SqlArg {
        match self {
            GetCommentQueryParam::Uuid(u) => SqlArg::Uuid(*u),
            GetCommentQueryParam::Post(u) => SqlArg::Uuid(*u),
            GetCommentQueryParam::Replies(u) => SqlArg::Uuid(*u),
            GetCommentQueryParam::User(a) => SqlArg::Text(a@),
        }
    }

    fn to_fragment(&self) -> (r: Fragment) {
        match self {
            GetCommentQueryParam::Uuid(u) => fragment("comments.uuid = ", SqlValue::Uuid(*u)),
            GetCommentQueryParam::Post(u) => fragment("comments.under_post = ", SqlValue::Uuid(*u)),
            GetCommentQueryParam::Replies(u) => fragment("comments.replys_for = ", SqlValue::Uuid(*u)),
            GetCommentQueryParam::User(a) => fragment("comments.author = ", SqlValue::Text(a.clone())),
        }
    }
}

/// The name under which a role is stored.
pub open spec fn role_name(t: UserType) -> Seq<char> {
    match t {
        UserType::Teacher { .. } => "Teacher"@,
        UserType::Student { .. } => "Student"@,
        UserType::Administrator { .. } => "Administrator"@,
        UserType::Other => "Other"@,
    }
}

pub fn role_name_of(t: &UserType) -> (r: String)
    ensures
        r@ == role_name(*t),
{
    match t {
        UserType::Teacher { .. } => String::from_str("Teacher"),
        UserType::Student { .. } => String::from_str("Student"),
        UserType::Administrator { .. } => String::from_str("Administrator"),
        UserType::Other => String::from_str("Other"),
    }
}

/// Filters on users.
#[derive(Debug)]
pub enum GetByQueryParam {
    Uuid(u128),
    Username(String),
    LastName(String),
    FirstName(String),
    Email(String),
    PhoneNumber(String),
    UserSpecs(UserType),
}

impl Predicate for GetByQueryParam {
    open spec fn condition(&self) -> Seq<char> {
        match self {
            GetByQueryParam::Uuid(_) => "users.uuid = "@,
            GetByQueryParam::Username(_) => "users.username = "@,
            GetByQueryParam::LastName(_) => "users.last_name = "@,
            GetByQueryParam::FirstName(_) => "users.first_name = "@,
            GetByQueryParam::Email(_) => "users.email = "@,
            GetByQueryParam::PhoneNumber(_) => "users.phone_number = "@,
            GetByQueryParam::UserSpecs(_) => "users.user_specs = "@,
        }
    }

    open spec fn bound(&self) -> SqlArg {
        match self {
            GetByQueryParam::Uuid(u) => SqlArg::Uuid(*u),
            GetByQueryParam::Username(s) => SqlArg::Text(s@),
            GetByQueryParam::LastName(s) => SqlArg::Text(s@),
            GetByQueryParam::FirstName(s) => SqlArg::Text(s@),
            GetByQueryParam::Email(s) => SqlArg::Text(s@),
            GetByQueryParam::PhoneNumber(s) => SqlArg::Text(s@),
            GetByQueryParam::UserSpecs(t) => SqlArg::Text(role_name(*t)),
        }
    }

    fn to_fragment(&self) -> (r: Fragment) {
        match self {
            GetByQueryParam::Uuid(u) => fragment("users.uuid = ", SqlValue::Uuid(*u)),
            GetByQueryParam::Username(s) => fragment("users.username = ", SqlValue::Text(s.clone())),
            GetByQueryParam::LastName(s) => fragment("users.last_name = ", SqlValue::Text(s.clone())),
            GetByQueryParam::FirstName(s) => fragment("users.first_name = ", SqlValue::Text(s.clone())),
            GetByQueryParam::Email(s) => fragment("users.email = ", SqlValue::Text(s.clone())),
            GetByQueryParam::PhoneNumber(s) => fragment(
                "users.phone_number = ",
                SqlValue::Text(s.clone()),
            ),
            GetByQueryParam::UserSpecs(t) => fragment("users.user_specs = ", SqlValue::Text(role_name_of(t))),
        }
    }
}

/// A filter on the username alone.
#[derive(Debug)]
pub struct UsernameParametr(String);

impl UsernameParametr {
    pub fn new(username: &str) -> (r: UsernameParametr)
        ensures
            r.bound() == SqlArg::Text(username@),
    {
        UsernameParametr(String::from_str(username))
    }
}

impl Predicate for UsernameParametr {
    open spec fn condition(&self) -> Seq<char> {
        "username = "@
    }

    closed spec fn bound(&self) -> SqlArg {
        SqlArg::Text(self.0@)
    }

    fn to_fragment(&self) -> (r: Fragment) {
        fragment("username = ", SqlValue::Text(self.0.clone()))
    }
}

/// A filter on the last name alone.
#[derive(Debug)]
pub struct LastNameParametr(String);

impl LastNameParametr {
    pub fn new(last_name: &str) -> (r: LastNameParametr)
        ensures
            r.bound() == SqlArg::Text(last_name@),
    {
        LastNameParametr(String::from_str(last_name))
    }
}

impl Predicate for LastNameParametr {
    open spec fn condition(&self) -> Seq<char> {
        "last_name = "@
    }

    closed spec fn bound(&self) -> SqlArg {
        SqlArg::Text(self.0@)
    }

    fn to_fragment(&self) -> (r: Fragment) {
        fragment("last_name = ", SqlValue::Text(self.0.clone()))
    }
}

/// Base statement of the post search: each post with its mark counts.
pub const POSTS_SELECT: &'static str = "select posts.uuid, posts.title, posts.content, posts.published_at, posts.author, posts.edited, posts.edited_at, posts.tags, count(post_mark.liked = true) as likes, count(post_mark.liked = false) as dislikes, count(post_mark.liked = true)::float / (count(post_mark.liked = true) + count(post_mark.liked = false) + 1) as raiting from posts left join post_mark on posts.uuid = post_mark.post";

/// Grouping of the post search: one row per post.
pub const POSTS_GROUP: &'static str = "posts.uuid, posts.title, posts.content, posts.published_at, posts.author, posts.edited, posts.edited_at, posts.tags";

/// Base statement of the comment search: each comment with its mark counts.
pub const COMMENTS_SELECT: &'static str = "select comments.uuid, comments.under_post, comments.content, comments.published_at, comments.edited, comments.edited_at, comments.author, comments.replys_for, count(comment_mark.liked = true) as likes, count(comment_mark.liked = false) as dislikes from comments left join comment_mark on comments.uuid = comment_mark.comment";

/// Grouping of the comment search: one row per comment.
pub const COMMENTS_GROUP: &'static str = "comments.uuid, comments.under_post, comments.content, comments.published_at, comments.edited, comments.edited_at, comments.author, comments.replys_for";

/// The comment search: filtered and grouped per comment.
pub fn comments_select_sql(query: Vec<GetCommentQueryParam>) -> (r: BuiltQuery)
    ensures
        r.sql@ == COMMENTS_SELECT@ + where_sql(conditions_of(query@)) + group_sql(
            Some(COMMENTS_GROUP@),
        ) + ";"@,
        r.binds@.map_values(|v: SqlValue| v@) == binds_of(query@),
{
    SelectRequestBuilder::<(), GetCommentQueryParam>::new(String::from_str(COMMENTS_SELECT), query)
        .group_by(String::from_str(COMMENTS_GROUP))
        .build()
}

/// Base statement of the user search, with the fields of each role.
pub const USERS_SELECT: &'static str = "select users.uuid, users.username, users.password, users.email, users.first_name, users.last_name, users.phone_number, users.user_specs, users.birth_date, users.about, students.class_num, students.class_char, teachers.subject, administrators.job_title from users left outer join students on users.username = students.username left outer join teachers on users.username = teachers.username left outer join administrators on users.username = administrators.username";

/// The user search: filtered.
pub fn users_select_sql(query: Vec<GetByQueryParam>) -> (r: BuiltQuery)
    ensures
        r.sql@ == USERS_SELECT@ + where_sql(conditions_of(query@)) + ";"@,
        r.binds@.map_values(|v: SqlValue| v@) == binds_of(query@),
{
    SelectRequestBuilder::<(), GetByQueryParam>::new(String::from_str(USERS_SELECT), query).build()
}

/// The post search: filtered, grouped per post, ordered and paged.
pub fn posts_select_sql(
    query: Vec<GetQueryParam>,
    limit: Limit,
    order_by: SortingDirection<SortingParam>,
) -> (r: BuiltQuery)
    ensures
        r.sql@ == POSTS_SELECT@ + where_sql(conditions_of(query@)) + group_sql(Some(POSTS_GROUP@))
            + order_sql(Some(order_by)) + limit_sql(Some(limit)) + ";"@,
        r.binds@.map_values(|v: SqlValue| v@) == binds_of(query@),
{
    SelectRequestBuilder::new(String::from_str(POSTS_SELECT), query)
        .limit(limit)
        .order_by(order_by)
        .group_by(String::from_str(POSTS_GROUP))
        .build()
}

/// The direction a search asks for: `Increment` sorts with `Up`,
/// `Decrement` with `Down`.
#[derive(Clone, Copy, Debug, PartialEq, Eq)]
pub enum SortDirectionDTO {
    Increment,
    Decrement,
}

/// Rows per page when a search gives no page size.
pub const DEFAULT_PAGE_SIZE: u64 = 25;

/// The page and the order of a post search: pages of `limit` rows (25 when
/// not given), page `page` starting at `page * limit`; sorted by rating
/// unless a key is given, in direction `Up` unless `Decrement` is asked.
pub fn search_plan(
    limit: Option<u8>,
    page: u32,
    sort_by: Option<SortingParam>,
    direction: Option<SortDirectionDTO>,
) -> (r: (Limit, SortingDirection<SortingParam>))
    ensures
        ({
            let size: u64 = match limit {
                Some(l) => l as u64,
                None => DEFAULT_PAGE_SIZE,
            };
            let key = match sort_by {
                Some(k) => k,
                None => SortingParam::Raiting,
            };
            &&& r.0 == Limit { limit: size, offset: Some((page * size) as u64) }
            &&& r.1 == match direction {
                Some(SortDirectionDTO::Decrement) => SortingDirection::Down(key),
                _ => SortingDirection::Up(key),
            }
        }),
{
    let size: u64 = match limit {
        Some(l) => l as u64,
        None => DEFAULT_PAGE_SIZE,
    };
    assert(page as u64 * size <= u64::MAX) by (nonlinear_arith)
        requires
            page <= u32::MAX,
            size <= 255,
    ;
    let key = match sort_by {
        Some(k) => k,
        None => SortingParam::Raiting,
    };
    let order = match direction {
        Some(SortDirectionDTO::Decrement) => SortingDirection::Down(key),
        _ => SortingDirection::Up(key),
    };
    (Limit { limit: size, offset: Some(page as u64 * size) }, order)
}

} // verus!
