use mu::model::Owner;

#[test]
fn owner_empty_note_is_unowned() {
    assert!(matches!(Owner::from_note(""), Owner::Unowned));
    assert!(matches!(Owner::from_note("   "), Owner::Unowned));
}

#[test]
fn owner_reservation_literal() {
    assert!(matches!(Owner::from_note("Reservation Required"), Owner::Reserve));
    assert!(matches!(Owner::from_note("  Reservation Required  "), Owner::Reserve));
}

#[test]
fn owner_student_suffix() {
    let o = Owner::from_note("Ann (Student)");
    assert_eq!(o, Owner::Student(String::from("Ann")));
}

#[test]
fn owner_visitor_suffix() {
    let o = Owner::from_note("Bob Lee (Visitor)");
    assert_eq!(o, Owner::Visitor(String::from("Bob Lee")));
}

#[test]
fn owner_member_fallback() {
    let o = Owner::from_note("Carol");
    assert_eq!(o, Owner::Member(String::from("Carol")));
}

#[test]
fn owner_trims_whitespace_around_name() {
    let o = Owner::from_note("  Dora   (Student) ");
    assert_eq!(o, Owner::Student(String::from("Dora")));
}

#[test]
fn owner_default_is_unowned() {
    assert!(matches!(Owner::default(), Owner::Unowned));
}

#[test]
fn owner_parses_through_from_str() {
    let o: Owner = "Eve (Visitor)".parse().unwrap();
    assert_eq!(o, Owner::Visitor(String::from("Eve")));
}

#[test]
fn owner_trims_unicode_whitespace() {
    let o = Owner::from_note("\u{A0}Ann\u{2002}(Student)\u{A0}");
    assert_eq!(o, Owner::Student(String::from("Ann")));
}
