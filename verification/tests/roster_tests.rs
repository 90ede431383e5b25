use mu::model::Owner;
use mu::roster::{MachineDefinition, MachineDefinitions, ParseRosterError};

#[test]
fn roster_groups_machines_by_room() {
    let text = "# fleet\n\
                [lab]\n\
                m1: Ann (Student)\n\
                m2:\n\
                [office]  # the quiet one\n\
                m3: Reservation Required\n";
    let roster = MachineDefinitions::from_config_str(text).unwrap();
    assert_eq!(roster.0.len(), 3);
    assert_eq!(
        roster.0[0],
        MachineDefinition {
            room: String::from("lab"),
            hostname: String::from("m1"),
            note: Some(String::from("Ann (Student)")),
        }
    );
    assert_eq!(
        roster.0[1],
        MachineDefinition {
            room: String::from("lab"),
            hostname: String::from("m2"),
            note: None,
        }
    );
    assert_eq!(roster.0[2].room, "office");
    assert_eq!(roster.0[2].note, Some(String::from("Reservation Required")));
}

#[test]
fn roster_entries_before_any_header_are_orphans() {
    let roster = MachineDefinitions::from_config_str("stray: Bob\n[lab]\nm1:\n").unwrap();
    assert_eq!(roster.0[0].room, "orphan");
    assert_eq!(roster.0[1].room, "lab");
}

#[test]
fn roster_malformed_line_is_a_fatal_error() {
    let err = MachineDefinitions::from_config_str("[lab]\nno colon here\nm1: Ann\n").unwrap_err();
    assert_eq!(
        err,
        ParseRosterError::ExpectedColon(2, String::from("no colon here"))
    );
    assert_eq!(
        err.message(),
        "expected a 'hostname: note' line on line 2, but found \"no colon here\""
    );
}

#[test]
fn roster_strips_comments_anywhere() {
    let roster = MachineDefinitions::from_config_str("[lab] # room\nm1: Ann # the owner\n").unwrap();
    assert_eq!(roster.0[0].room, "lab");
    assert_eq!(roster.0[0].note, Some(String::from("Ann")));
}

#[test]
fn roster_entry_into_model_parses_the_note() {
    let entry = MachineDefinition {
        room: String::from("lab"),
        hostname: String::from("m1"),
        note: Some(String::from("Ann (Student)")),
    };
    let def = entry.into_model();
    assert_eq!(def.hostname, "m1");
    assert_eq!(def.room, "lab");
    assert_eq!(def.owner, Owner::Student(String::from("Ann")));

    let bare = MachineDefinition {
        room: String::from("lab"),
        hostname: String::from("m2"),
        note: None,
    };
    assert_eq!(bare.into_model().owner, Owner::Unowned);
}
