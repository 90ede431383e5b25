use mu::viewconf::{c, f, strip_comments, Config, ViewConfigError};

#[test]
fn viewconf_defaults() {
    let cfg = Config::default();
    assert!(!cfg.show_room);
    assert_eq!(cfg.data_path, "/martini/sshuser/mu/mu.dat");
    assert_eq!(cfg.colors.gauge, "red");
    assert_eq!(cfg.colors.notes, "#70abaf");
    assert_eq!(cfg.colors.hotness_gradient.len(), 10);
    assert_eq!(cfg.colors.hotness_gradient[0], "#b0cd75");
    assert_eq!(cfg.colors.hotness_gradient[9], "#c41829");
}

#[test]
fn viewconf_parses_general_section() {
    let cfg = Config::from_config_str("[general]\nshow_room true\ndata_path /tmp/mu.dat\n")
        .unwrap();
    assert!(cfg.show_room);
    assert_eq!(cfg.data_path, "/tmp/mu.dat");
}

#[test]
fn viewconf_parses_colors_and_gradient() {
    let text = "[colors]\n\
                gauge #ff0000   ; a comment\n\
                stats cyan\n\
                hotness_gradient [\n\
                #111111\n\
                #222222\n\
                ]\n\
                owner black\n";
    let cfg = Config::from_config_str(text).unwrap();
    assert_eq!(cfg.colors.gauge, "#ff0000");
    assert_eq!(cfg.colors.stats, "cyan");
    assert_eq!(cfg.colors.hotness_gradient, vec![String::from("#111111"), String::from("#222222")]);
    assert_eq!(cfg.colors.owner, "black");
    // untouched fields keep their defaults
    assert_eq!(cfg.colors.divider, "gray");
}

#[test]
fn viewconf_blank_and_comment_lines_are_skipped() {
    let cfg = Config::from_config_str("; top comment\n\n[general]\n; inside\nshow_room true\n")
        .unwrap();
    assert!(cfg.show_room);
}

#[test]
fn viewconf_unknown_header_is_an_error() {
    let err = Config::from_config_str("[nope]\n").unwrap_err();
    assert!(matches!(err, ViewConfigError::UnknownHeader(0, ref h) if h == "nope"));
}

#[test]
fn viewconf_orphan_declaration_is_an_error() {
    let err = Config::from_config_str("show_room true\n").unwrap_err();
    assert!(matches!(err, ViewConfigError::OrphanLine(0, _)));
}

#[test]
fn viewconf_bad_declaration_is_an_error() {
    let err = Config::from_config_str("[general]\nshow_room\n").unwrap_err();
    assert!(matches!(err, ViewConfigError::BadDeclaration(1, _)));
}

#[test]
fn viewconf_bad_bool_is_an_error() {
    let err = Config::from_config_str("[general]\nshow_room maybe\n").unwrap_err();
    assert!(matches!(err, ViewConfigError::BadBool(1, ref v) if v == "maybe"));
}

#[test]
fn viewconf_unknown_keywords_are_errors() {
    let err = Config::from_config_str("[general]\nbogus x\n").unwrap_err();
    assert!(matches!(err, ViewConfigError::UnknownKeyword(1, _)));
    let err = Config::from_config_str("[colors]\nbogus x\n").unwrap_err();
    assert!(matches!(err, ViewConfigError::UnknownColorKeyword(1, _)));
}

#[test]
fn viewconf_gradient_needs_a_list() {
    let err = Config::from_config_str("[colors]\nhotness_gradient red\n").unwrap_err();
    assert!(matches!(err, ViewConfigError::ExpectedList(1, ref v) if v == "red"));
}

#[test]
fn strip_comments_examples() {
    assert_eq!(strip_comments("  keep this ; drop that"), Some("keep this"));
    assert_eq!(strip_comments("; only a comment"), None);
    assert_eq!(strip_comments("   "), None);
    assert_eq!(strip_comments("plain"), Some("plain"));
}

#[test]
fn message_helpers_format_as_expected() {
    assert_eq!(
        f(3, "maybe", "bool"),
        "could not parse \"maybe\" as bool on line 3"
    );
    assert_eq!(c(7, "puce-ish"), "could not parse \"puce-ish\" as color on line 7");
}

#[test]
fn pick_gradient_color_scales_with_load() {
    let colors = Config::default().colors;
    // idle machine: the coolest colour
    assert_eq!(colors.pick_gradient_color(0, 4).unwrap(), "#b0cd75");
    // fully loaded: the hottest colour
    assert_eq!(colors.pick_gradient_color(400, 4).unwrap(), "#c41829");
    // no cores counts as idle
    assert_eq!(colors.pick_gradient_color(999, 0).unwrap(), "#b0cd75");
}

#[test]
fn viewconf_rejects_an_unparsable_colour() {
    let err = Config::from_config_str("[colors]\ndivider zzz\n").unwrap_err();
    assert!(matches!(err, ViewConfigError::BadColor(1, ref v) if v == "zzz"));
    assert_eq!(err.message(), "could not parse \"zzz\" as color on line 1");
}

#[test]
fn viewconf_rejects_an_unparsable_gradient_entry() {
    let text = "[colors]\nhotness_gradient [\n#111111\nnot-a-colour\n]\n";
    let err = Config::from_config_str(text).unwrap_err();
    assert!(matches!(err, ViewConfigError::BadColor(3, ref v) if v == "not-a-colour"));
}

#[test]
fn pick_gradient_color_rounds_the_ratio() {
    let colors = Config::default().colors;
    // load 0.06 on 1 core: round(0.06 * 9) = 1, the second colour
    assert_eq!(colors.pick_gradient_color(6, 1).unwrap(), "#c0cc6c");
    // load 0.05 on 1 core: round(0.45) = 0
    assert_eq!(colors.pick_gradient_color(5, 1).unwrap(), "#b0cd75");
}
