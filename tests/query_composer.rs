use school_forum::changes::ChangeQuery;
use school_forum::filters::{
    comments_select_sql, posts_select_sql, search_plan, users_select_sql, GetByQueryParam,
    GetCommentQueryParam, GetQueryParam, SortDirectionDTO, SortingParam, UsernameParametr, COMMENTS_GROUP,
    COMMENTS_SELECT, POSTS_GROUP, POSTS_SELECT, USERS_SELECT,
};
use school_forum::query::{Predicate, SelectRequestBuilder, SortingDirection, SqlValue, ToSQL};
use school_forum::store::Store;
use school_forum::types::{Class, Limit};
use school_forum::users::{ChangeQueryParam, UserRegistrationDTO, UserType};
use school_forum::validation::ValidatedChangeQueryParam;

#[test]
fn ordering_directions_are_inverted_names() {
    assert_eq!(SortingDirection::Up(SortingParam::Raiting).to_sql(), "raiting desc");
    assert_eq!(SortingDirection::Down(SortingParam::Raiting).to_sql(), "raiting asc");
    assert_eq!(SortingDirection::Up(SortingParam::ReleaseTime).to_sql(), "published_at desc");
}

#[test]
fn empty_predicates_give_no_where() {
    let q = SelectRequestBuilder::<SortingParam, GetQueryParam>::new("select * from posts".to_string(), vec![])
        .build();
    assert_eq!(q.sql, "select * from posts;");
    assert!(q.binds.is_empty());
}

#[test]
fn predicates_are_conjoined_and_bound() {
    let q = SelectRequestBuilder::<SortingParam, GetQueryParam>::new(
        "select * from posts".to_string(),
        vec![GetQueryParam::Author("alice".to_string()), GetQueryParam::Uuid(5)],
    )
    .group_by("posts.uuid".to_string())
    .order_by(SortingDirection::Down(SortingParam::ReleaseTime))
    .limit(Limit { limit: 10, offset: None })
    .build();
    assert_eq!(
        q.sql,
        "select * from posts where posts.author = $1 and posts.uuid = $2 group by posts.uuid order by published_at asc limit 10;"
    );
    assert_eq!(q.binds.len(), 2);
    assert!(matches!(&q.binds[0], SqlValue::Text(s) if s == "alice"));
    assert!(matches!(&q.binds[1], SqlValue::Uuid(5)));
}

#[test]
fn post_search_statement() {
    let q = posts_select_sql(
        vec![GetQueryParam::Tags(vec!["math".to_string()])],
        Limit { limit: 25, offset: Some(0) },
        SortingDirection::Up(SortingParam::Raiting),
    );
    assert_eq!(
        q.sql,
        format!("{} where posts.tags @> $1 group by {} order by raiting desc limit 25 offset 0;", POSTS_SELECT, POSTS_GROUP)
    );
    assert!(matches!(&q.binds[0], SqlValue::TextList(v) if v == &vec!["math".to_string()]));
}

#[test]
fn comment_and_user_statements() {
    let q = comments_select_sql(vec![GetCommentQueryParam::Replies(9), GetCommentQueryParam::User("bob".to_string())]);
    assert_eq!(
        q.sql,
        format!("{} where comments.replys_for = $1 and comments.author = $2 group by {};", COMMENTS_SELECT, COMMENTS_GROUP)
    );
    let u = users_select_sql(vec![GetByQueryParam::UserSpecs(UserType::Other)]);
    assert_eq!(u.sql, format!("{} where users.user_specs = $1;", USERS_SELECT));
    assert!(matches!(&u.binds[0], SqlValue::Text(s) if s == "Other"));
    let f = UsernameParametr::new("carol").to_fragment();
    assert_eq!(f.condition, "username = ");
    assert!(matches!(&f.value, SqlValue::Text(s) if s == "carol"));
}

#[test]
fn search_defaults() {
    let (limit, order) = search_plan(None, 2, None, None);
    assert_eq!(limit, Limit { limit: 25, offset: Some(50) });
    assert_eq!(order, SortingDirection::Up(SortingParam::Raiting));
    let (limit, order) = search_plan(Some(10), 0, Some(SortingParam::ReleaseTime), Some(SortDirectionDTO::Decrement));
    assert_eq!(limit, Limit { limit: 10, offset: Some(0) });
    assert_eq!(order, SortingDirection::Down(SortingParam::ReleaseTime));
}

#[test]
fn change_statements() {
    let mut store = Store::new();
    let user = store
        .register_with(
            UserRegistrationDTO {
                username: "alice".to_string(),
                last_name: "K".to_string(),
                first_name: "A".to_string(),
                birth_date: 1,
                user_specs: UserType::Student { class: Class::from(b'A', 9).unwrap() },
                about: String::new(),
                password: "secret123".to_string(),
                email: "a@b.uz".to_string(),
                phone_number: "998901234567".to_string(),
            },
            1,
        )
        .unwrap();
    let p = ValidatedChangeQueryParam::validate(ChangeQueryParam::Class(Class::from(b'B', 10).unwrap()), &user).unwrap();
    let q = ChangeQuery::new(&user, p).to_query();
    assert_eq!(q.sql, "update students set class_num = $1, class_char = $2 where username = $3;");
    assert!(matches!(&q.binds[0], SqlValue::Int(10)));
    assert!(matches!(&q.binds[1], SqlValue::Text(s) if s == "B"));
    assert!(matches!(&q.binds[2], SqlValue::Text(s) if s == "alice"));
    let p = ValidatedChangeQueryParam::validate(ChangeQueryParam::PhoneNumber(None), &user).unwrap();
    let q = ChangeQuery::new(&user, p).to_query();
    assert_eq!(q.sql, "update users set phone_number = $1 where username = $2;");
    assert!(matches!(&q.binds[0], SqlValue::Null));
}
