use school_forum::changes::{
    role_insert_query, user_insert_query, ADMINISTRATOR_INSERT, STUDENT_INSERT, TEACHER_INSERT, USER_INSERT,
};
use school_forum::controller::UserController;
use school_forum::filters::{GetByQueryParam, LastNameParametr};
use school_forum::marks::{MarkState, MarkTable};
use school_forum::query::{Predicate, SqlValue};
use school_forum::store::{EditError, PublishPostDTO, Store};
use school_forum::types::{Class, EditedState, Subject};
use school_forum::users::{check_credentials, SingDTO, SingError, UserRegistrationDTO, UserType};

fn dto(username: &str, last: &str, specs: UserType) -> UserRegistrationDTO {
    UserRegistrationDTO {
        username: username.to_string(),
        last_name: last.to_string(),
        first_name: "F".to_string(),
        birth_date: 738000,
        user_specs: specs,
        about: "about".to_string(),
        password: "password1".to_string(),
        email: format!("{}@school.uz", username),
        phone_number: "998901234567".to_string(),
    }
}

#[test]
fn registration_statements() {
    let d = dto("tom", "T", UserType::Teacher { subject: Subject::ComputerScience });
    let q = user_insert_query(&d, 77);
    assert_eq!(q.sql, USER_INSERT);
    assert_eq!(q.binds.len(), 10);
    assert!(matches!(&q.binds[0], SqlValue::Uuid(77)));
    assert!(matches!(&q.binds[7], SqlValue::Text(s) if s == "Teacher"));
    assert!(matches!(&q.binds[8], SqlValue::Int(738000)));
    let r = role_insert_query(&d).unwrap();
    assert_eq!(r.sql, TEACHER_INSERT);
    assert!(matches!(&r.binds[1], SqlValue::Text(s) if s == "ComputerScience"));
    let s = role_insert_query(&dto("amy", "A", UserType::Student { class: Class::from(b'C', 3).unwrap() })).unwrap();
    assert_eq!(s.sql, STUDENT_INSERT);
    assert!(matches!(&s.binds[1], SqlValue::Int(3)));
    assert!(matches!(&s.binds[2], SqlValue::Text(c) if c == "C"));
    let a = role_insert_query(&dto("dan", "D", UserType::Administrator { job_title: "Head".to_string() })).unwrap();
    assert_eq!(a.sql, ADMINISTRATOR_INSERT);
    assert!(role_insert_query(&dto("ole", "O", UserType::Other)).is_none());
    assert_eq!(Subject::PhysicalEducation.key(), "PhysicalEducation");
}

#[test]
fn user_filters() {
    let mut s = Store::new();
    s.register_with(dto("amy", "Stone", UserType::Student { class: Class::from(b'C', 3).unwrap() }), 1).unwrap();
    s.register_with(dto("bob", "Stone", UserType::Other), 2).unwrap();
    s.register_with(dto("cat", "Reed", UserType::Student { class: Class::from(b'D', 4).unwrap() }), 3).unwrap();
    let stones = s.get_many_users(&vec![GetByQueryParam::LastName("Stone".to_string())]);
    assert_eq!(stones.iter().map(|u| u.username.clone()).collect::<Vec<_>>(), vec!["amy", "bob"]);
    let students = s.get_many_users(&vec![GetByQueryParam::UserSpecs(UserType::Student {
        class: Class::from(b'A', 1).unwrap(),
    })]);
    assert_eq!(students.len(), 2);
    let both = s.get_many_users(&vec![
        GetByQueryParam::LastName("Stone".to_string()),
        GetByQueryParam::UserSpecs(UserType::Other),
    ]);
    assert_eq!(both.len(), 1);
    assert_eq!(both[0].username, "bob");
    assert_eq!(s.get_one_user(&vec![GetByQueryParam::Uuid(3)]).unwrap().username, "cat");
    assert!(s.get_one_user(&vec![GetByQueryParam::Email("nobody@x.uz".to_string())]).is_none());
    assert_eq!(s.get_one_user(&vec![GetByQueryParam::PhoneNumber("998901234567".to_string())]).unwrap().username, "amy");
    assert_eq!(s.get_many_users(&vec![]).len(), 3);
    let f = LastNameParametr::new("Reed").to_fragment();
    assert_eq!(f.condition, "last_name = ");
}

#[test]
fn title_edits_are_for_authors() {
    let mut s = Store::new();
    s.register_with(dto("amy", "A", UserType::Other), 1).unwrap();
    s.register_with(dto("bob", "B", UserType::Other), 2).unwrap();
    let p = PublishPostDTO { content: "c".to_string(), author: "amy".to_string(), title: "old".to_string(), tags: vec![] };
    s.publish_post_with(p, 10, 100).unwrap();
    assert_eq!(s.edit_title_with(10, "x".to_string(), "bob", 200), Err(EditError::EditsNotAuthor));
    assert_eq!(s.edit_title_with(11, "x".to_string(), "amy", 200), Err(EditError::ResourceNotFound));
    assert_eq!(s.edit_title_with(10, "new".to_string(), "amy", 200), Ok(()));
    let v = s.get_post(10).unwrap();
    assert_eq!(v.title, "new");
    assert_eq!(v.content, "c");
    assert_eq!(v.edited, EditedState::Edited { edited_at: 200 });
}

#[test]
fn mark_table_operations() {
    let mut t = MarkTable::new();
    t.like(1, "bob", 7);
    t.like(2, "amy", 7);
    t.dislike(3, "bob", 8);
    assert!(t.is_liked_by("bob", 7));
    assert!(!t.is_disliked_by("bob", 7));
    assert!(t.is_marked_by("bob", 8, None));
    assert!(t.is_marked_by("bob", 8, Some(false)));
    assert_eq!(t.counts(7), (2, 0));
    t.cancel_mark("bob", 7);
    assert_eq!(t.state_of("bob", 7), MarkState::Unmarked);
    assert_eq!(t.counts(7), (1, 0));
    assert_eq!(t.counts(8), (0, 1));
}

#[test]
fn credentials_and_controller_changes() {
    let mut s = Store::new();
    let amy = s.register_with(dto("amy", "A", UserType::Student { class: Class::from(b'C', 3).unwrap() }), 1).unwrap();
    assert_eq!(check_credentials(None, &SingDTO { username: "x".to_string(), password: "y".to_string() }), Err(SingError::WrongUsername));
    assert_eq!(
        check_credentials(Some(&amy), &SingDTO { username: "amy".to_string(), password: "password1".to_string() }),
        Ok("amy".to_string())
    );
    let c = UserController::from_model(&amy);
    assert_eq!(c.username(), "amy");
    c.change_last_name(&mut s, "Brook".to_string()).unwrap();
    c.change_about_me(&mut s, "likes math".to_string()).unwrap();
    c.change_class(&mut s, Class::from(b'D', 4).unwrap()).unwrap();
    let u = c.model(&s).unwrap();
    assert_eq!(u.last_name, "Brook");
    assert_eq!(u.about, "likes math");
    match u.user_specs {
        UserType::Student { class } => assert_eq!(class.class_num(), 4),
        _ => panic!("role changed"),
    }
    assert!(c.change_about_me(&mut s, "a".repeat(501)).is_err());
    assert_eq!(c.model(&s).unwrap().about, "likes math");
}

#[test]
fn new_resources_start_unmarked_and_titles_edit_now() {
    let mut s = Store::new();
    s.register_with(dto("amy", "A", UserType::Other), 1).unwrap();
    let p = PublishPostDTO { content: "c".to_string(), author: "amy".to_string(), title: "old".to_string(), tags: vec![] };
    let id = s.publish_post(p).unwrap();
    let v = s.get_post(id).unwrap();
    assert_eq!((v.likes, v.dislikes), (0, 0));
    assert_eq!(v.edited, EditedState::NotEdited);
    let c = s.comment("first".to_string(), "amy", school_forum::store::ResourceRef::Post(id)).unwrap();
    let node = s.comment_tree(c).unwrap();
    assert_eq!((node.likes, node.dislikes), (0, 0));
    assert_eq!(node.under_post, id);
    assert_eq!(s.edit_title(id, "new".to_string(), "bob"), Err(EditError::EditsNotAuthor));
    assert_eq!(s.edit_title(id, "new".to_string(), "amy"), Ok(()));
    let v = s.get_post(id).unwrap();
    assert_eq!(v.title, "new");
    assert!(v.edited.is_edited());
}
