use school_forum::controller::UserController;
use school_forum::filters::{GetQueryParam, SortingParam};
use school_forum::marks::MarkState;
use school_forum::query::SortingDirection;
use school_forum::store::{EditError, MarkError, PublishError, PublishPostDTO, ResourceRef, Store};
use school_forum::types::{Class, EditedState, Limit};
use school_forum::users::{SingDTO, SingError, UserRegistrationDTO, UserType};

fn dto(username: &str, specs: UserType) -> UserRegistrationDTO {
    UserRegistrationDTO {
        username: username.to_string(),
        last_name: "L".to_string(),
        first_name: "F".to_string(),
        birth_date: 738000,
        user_specs: specs,
        about: String::new(),
        password: format!("{}-pass", username),
        email: format!("{}@school.uz", username),
        phone_number: "998901234567".to_string(),
    }
}

fn post(author: &str, title: &str, tags: &[&str]) -> PublishPostDTO {
    PublishPostDTO {
        content: format!("{} body", title),
        author: author.to_string(),
        title: title.to_string(),
        tags: tags.iter().map(|t| t.to_string()).collect(),
    }
}

fn store_with(users: &[&str]) -> Store {
    let mut s = Store::new();
    for (i, u) in users.iter().enumerate() {
        s.register_with(dto(u, UserType::Other), 500 + i as u128).unwrap();
    }
    s
}

#[test]
fn sign_in_checks_username_and_password() {
    let s = store_with(&["alice"]);
    let ok = s.sing(&SingDTO { username: "alice".to_string(), password: "alice-pass".to_string() });
    assert_eq!(ok.unwrap(), "alice");
    let wrong = s.sing(&SingDTO { username: "alice".to_string(), password: "nope".to_string() });
    assert_eq!(wrong.unwrap_err(), SingError::WrongPassword);
    let none = s.sing(&SingDTO { username: "zed".to_string(), password: "x".to_string() });
    assert_eq!(none.unwrap_err(), SingError::WrongUsername);
}

#[test]
fn username_must_be_free() {
    let mut s = store_with(&["alice"]);
    assert!(!s.is_username_free("alice"));
    assert!(s.register_with(dto("alice", UserType::Other), 9).is_err());
    assert!(s.register(dto("bob", UserType::Other)).is_ok());
    assert!(!s.is_username_free("bob"));
}

#[test]
fn publish_requires_author_and_fresh_id() {
    let mut s = store_with(&["alice"]);
    assert_eq!(s.publish_post_with(post("zed", "t", &[]), 1, 10), Err(PublishError::WrittenByNoone));
    assert_eq!(s.publish_post_with(post("alice", "t", &[]), 1, 10), Ok(1));
    assert_eq!(s.publish_post_with(post("alice", "t2", &[]), 1, 11), Err(PublishError::IdentifierTaken));
    assert_eq!(
        s.publish_comment_with("c".to_string(), "alice", ResourceRef::Post(77), 2, 12),
        Err(PublishError::WrittenUnderUnexistedPost)
    );
    assert_eq!(
        s.publish_comment_with("c".to_string(), "alice", ResourceRef::Post(1), 1, 12),
        Err(PublishError::IdentifierTaken)
    );
    let id = s.publish_post(post("alice", "random id", &[])).unwrap();
    let id2 = s.comment("hi".to_string(), "alice", ResourceRef::Post(id)).unwrap();
    assert_ne!(id, id2);
    assert_eq!(s.find_resource(id2), Some(ResourceRef::Comment(id2)));
    assert_eq!(s.find_resource(id), Some(ResourceRef::Post(id)));
    assert_eq!(s.find_resource(12345), None);
}

#[test]
fn single_mark_per_user() {
    let mut s = store_with(&["alice", "bob"]);
    s.publish_post_with(post("alice", "t", &[]), 1, 10).unwrap();
    let p = ResourceRef::Post(1);
    for _ in 0..3 {
        s.like("bob", p).unwrap();
        s.dislike("bob", p).unwrap();
    }
    let total = s.mark_count(p, true) + s.mark_count(p, false);
    assert_eq!(total, 1);
    assert_eq!(s.mark_state("bob", p), MarkState::Disliked);
    assert_eq!(s.mark_state("alice", p), MarkState::Unmarked);
}

#[test]
fn liking_twice_equals_liking_once() {
    let mut s = store_with(&["alice", "bob"]);
    s.publish_post_with(post("alice", "t", &[]), 1, 10).unwrap();
    let p = ResourceRef::Post(1);
    s.like("bob", p).unwrap();
    let once = (s.mark_count(p, true), s.mark_count(p, false), s.mark_state("bob", p));
    s.like("bob", p).unwrap();
    let twice = (s.mark_count(p, true), s.mark_count(p, false), s.mark_state("bob", p));
    assert_eq!(once, twice);
    assert_eq!(once, (1, 0, MarkState::Liked));
}

#[test]
fn like_then_dislike_switches_counts() {
    let mut s = store_with(&["alice", "bob", "carol"]);
    s.publish_post_with(post("alice", "t", &[]), 1, 10).unwrap();
    let p = ResourceRef::Post(1);
    s.like("carol", p).unwrap();
    s.like("bob", p).unwrap();
    s.dislike("bob", p).unwrap();
    assert_eq!(s.mark_state("bob", p), MarkState::Disliked);
    assert_eq!(s.mark_count(p, true), 1);
    assert_eq!(s.mark_count(p, false), 1);
}

#[test]
fn marks_need_user_and_resource() {
    let mut s = store_with(&["alice"]);
    s.publish_post_with(post("alice", "t", &[]), 1, 10).unwrap();
    assert_eq!(s.like("zed", ResourceRef::Post(1)), Err(MarkError::UserNotFound));
    assert_eq!(s.like("alice", ResourceRef::Post(2)), Err(MarkError::ResourceNotFound));
    assert_eq!(s.dislike("alice", ResourceRef::Comment(1)), Err(MarkError::ResourceNotFound));
}

#[test]
fn only_the_author_edits() {
    let mut s = store_with(&["alice", "bob"]);
    s.publish_post_with(post("alice", "t", &[]), 1, 10).unwrap();
    assert_eq!(s.edit_with(ResourceRef::Post(1), "hacked".to_string(), "bob", 20), Err(EditError::EditsNotAuthor));
    assert_eq!(s.get_post(1).unwrap().content, "t body");
    assert_eq!(s.get_post(1).unwrap().edited, EditedState::NotEdited);
    assert_eq!(s.edit_with(ResourceRef::Post(1), "new".to_string(), "alice", 20), Ok(()));
    let v = s.get_post(1).unwrap();
    assert_eq!(v.content, "new");
    assert_eq!(v.edited, EditedState::Edited { edited_at: 20 });
    assert_eq!(s.edit_with(ResourceRef::Post(1), "newer".to_string(), "alice", 15), Ok(()));
    assert_eq!(s.get_post(1).unwrap().edited, EditedState::Edited { edited_at: 20 });
    assert_eq!(s.edit_with(ResourceRef::Post(9), "x".to_string(), "alice", 20), Err(EditError::ResourceNotFound));
    s.publish_comment_with("c".to_string(), "bob", ResourceRef::Post(1), 2, 30).unwrap();
    assert_eq!(s.edit_with(ResourceRef::Comment(2), "x".to_string(), "alice", 31), Err(EditError::EditsNotAuthor));
    assert_eq!(s.edit_with(ResourceRef::Comment(2), "c2".to_string(), "bob", 31), Ok(()));
    assert_eq!(s.comment_tree(2).unwrap().content, "c2");
}

#[test]
fn controller_binds_identity() {
    let mut s = store_with(&["alice", "bob"]);
    s.publish_post_with(post("alice", "t", &[]), 1, 10).unwrap();
    let bob = UserController::sing(&s, &SingDTO { username: "bob".to_string(), password: "bob-pass".to_string() }).unwrap();
    assert!(!bob.is_owner_of(&s, ResourceRef::Post(1)));
    assert_eq!(bob.edit(&mut s, ResourceRef::Post(1), "x".to_string()), Err(EditError::EditsNotAuthor));
    bob.like(&mut s, ResourceRef::Post(1)).unwrap();
    assert_eq!(s.get_post(1).unwrap().likes, 1);
    let c = bob.comment(&mut s, ResourceRef::Post(1), "nice".to_string()).unwrap();
    assert!(bob.is_owner_of(&s, ResourceRef::Comment(c)));
    bob.change_name(&mut s, "Robert".to_string()).unwrap();
    assert_eq!(bob.model(&s).unwrap().first_name, "Robert");
    assert!(bob.change_class(&mut s, Class::from(b'A', 9).unwrap()).is_err());
}

#[test]
fn comment_tree_follows_replies() {
    let mut s = store_with(&["alice", "bob"]);
    s.publish_post_with(post("alice", "t", &[]), 1, 10).unwrap();
    s.publish_post_with(post("alice", "other", &[]), 50, 10).unwrap();
    s.publish_comment_with("top".to_string(), "bob", ResourceRef::Post(1), 2, 11).unwrap();
    s.publish_comment_with("reply".to_string(), "alice", ResourceRef::Comment(2), 3, 12).unwrap();
    s.publish_comment_with("deeper".to_string(), "bob", ResourceRef::Comment(3), 4, 13).unwrap();
    s.publish_comment_with("second".to_string(), "alice", ResourceRef::Comment(2), 5, 14).unwrap();
    s.publish_comment_with("elsewhere".to_string(), "alice", ResourceRef::Post(50), 6, 15).unwrap();
    s.like("alice", ResourceRef::Comment(3)).unwrap();

    let tree = s.comment_tree(2).unwrap();
    assert_eq!(tree.replies.len(), 2);
    assert_eq!(tree.replies[0].uuid, 3);
    assert_eq!(tree.replies[0].likes, 1);
    assert_eq!(tree.replies[0].under_post, 1);
    assert_eq!(tree.replies[0].replies[0].uuid, 4);
    assert_eq!(tree.replies[0].replies[0].under_post, 1);
    assert_eq!(tree.replies[1].uuid, 5);
    assert_eq!(tree.author_user.as_ref().unwrap().username, "bob");
    assert_eq!(tree.replies[0].author_user.as_ref().unwrap().username, "alice");
    assert_eq!(tree.replies[0].replies[0].post.as_ref().unwrap().uuid, 1);
    assert_eq!(tree.post.as_ref().unwrap().title, "t");
    assert!(tree.replies[1].replies.is_empty());

    let top = s.post_comments(1);
    assert_eq!(top.len(), 1);
    assert_eq!(top[0].uuid, 2);

    assert_eq!(s.collect_replies(1), vec![2, 3, 4, 5]);
    assert_eq!(s.collect_replies(2), vec![3, 4, 5]);
    assert_eq!(s.collect_replies(4), Vec::<u128>::new());
    assert!(s.comment_tree(99).is_none());
}

#[test]
fn tag_containment() {
    let mut s = store_with(&["alice"]);
    s.publish_post_with(post("alice", "t", &["math", "physics"]), 1, 10).unwrap();
    let run = |s: &Store, tags: &[&str]| {
        s.get_many(
            &vec![GetQueryParam::Tags(tags.iter().map(|t| t.to_string()).collect())],
            Limit { limit: 25, offset: None },
            SortingDirection::Up(SortingParam::Raiting),
        )
        .len()
    };
    assert_eq!(run(&s, &["math"]), 1);
    assert_eq!(run(&s, &[]), 1);
    assert_eq!(run(&s, &["physics", "math", "math"]), 1);
    assert_eq!(run(&s, &["chemistry"]), 0);
}

#[test]
fn top_rated_math_posts() {
    let names: Vec<String> = (0..30).map(|i| format!("user{}", i)).collect();
    let refs: Vec<&str> = names.iter().map(|n| n.as_str()).collect();
    let mut s = store_with(&refs);
    for i in 0..30u128 {
        let tags: &[&str] = if i >= 28 { &["art"] } else { &["math", "algebra"] };
        s.publish_post_with(post("user0", &format!("post{}", i), tags), 1000 + i, i as i64).unwrap();
        for u in 0..i as usize {
            s.like(&names[u], ResourceRef::Post(1000 + i)).unwrap();
        }
        if i % 3 == 0 {
            s.dislike(&names[29], ResourceRef::Post(1000 + i)).unwrap();
        }
    }
    let r = s.get_many(
        &vec![GetQueryParam::Tags(vec!["math".to_string()])],
        Limit { limit: 25, offset: Some(0) },
        SortingDirection::Up(SortingParam::Raiting),
    );
    assert_eq!(r.len(), 25);
    let rating = |l: usize, d: usize| l as f64 / (l + d + 1) as f64;
    for w in r.windows(2) {
        assert!(rating(w[0].likes, w[0].dislikes) >= rating(w[1].likes, w[1].dislikes));
    }
    let mut all: Vec<(f64, u128)> = (0..28u128)
        .map(|i| {
            let d = if i % 3 == 0 { 1 } else { 0 };
            (rating(i as usize, d), 1000 + i)
        })
        .collect();
    all.sort_by(|a, b| b.0.partial_cmp(&a.0).unwrap());
    let expected: Vec<u128> = all.iter().take(25).map(|x| x.1).collect();
    let got: Vec<u128> = r.iter().map(|v| v.uuid).collect();
    assert_eq!(got, expected);
    assert!(r.iter().all(|v| v.tags.contains(&"math".to_string())));

    let page = s.get_many(
        &vec![GetQueryParam::Tags(vec!["math".to_string()])],
        Limit { limit: 25, offset: Some(25) },
        SortingDirection::Up(SortingParam::Raiting),
    );
    assert_eq!(page.len(), 3);
    let latest = s.get_many(&vec![], Limit { limit: 2, offset: None }, SortingDirection::Up(SortingParam::ReleaseTime));
    assert_eq!(latest.iter().map(|v| v.uuid).collect::<Vec<_>>(), vec![1029, 1028]);
    let oldest = s.get_many(&vec![], Limit { limit: 1, offset: None }, SortingDirection::Down(SortingParam::ReleaseTime));
    assert_eq!(oldest[0].uuid, 1000);
}

#[test]
fn student_post_liked_then_disliked() {
    let mut s = Store::new();
    s.register(dto("alice", UserType::Student { class: Class::from(b'A', 9).unwrap() })).unwrap();
    s.register(dto("bob", UserType::Other)).unwrap();
    let id = s.publish_post(post("alice", "hello", &[])).unwrap();
    s.like("bob", ResourceRef::Post(id)).unwrap();
    s.dislike("bob", ResourceRef::Post(id)).unwrap();
    let v = s.get_post(id).unwrap();
    assert_eq!(v.likes, 0);
    assert_eq!(v.dislikes, 1);
    assert_eq!(v.author, "alice");
}
