use card_table::user::User;

#[test]
fn new_user() {
    let user = User::new("John Doe");
    assert_eq!(user.name(), "John Doe");
}

#[test]
fn user_name() {
    let user = User::new("Jane Doe");
    assert_eq!(user.name(), "Jane Doe");
}

#[test]
fn users_with_the_same_name_are_distinct() {
    let a = User::new("Alex");
    let b = User::new("Alex");
    assert_ne!(a, b);
    assert_eq!(a.clone(), a);
}
