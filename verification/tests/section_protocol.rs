use confguard::guard::ConfGuard;
use confguard::render::render_section;
use confguard::section::parse_section;
use confguard::section_write::{delete_section, write_section};

const TS: &str = "2024-01-02T03:04:05.678Z";

fn sample_section() -> String {
    render_section(
        true,
        3,
        "proj-abcd1234",
        TS,
        "$HOME/p/proj",
        "xxx/rs-cg/guarded/proj-abcd1234",
    )
    .expect("a well-formed section renders")
}

#[test]
fn render_parse_round_trip() {
    let sec = sample_section();
    let fields = parse_section(&sec)
        .expect("no error")
        .expect("the rendered block parses");
    assert!(fields.is_relative);
    assert_eq!(fields.version, 3);
    assert_eq!(fields.sentinel, "proj-abcd1234");
    assert_eq!(fields.timestamp, Some(TS.to_string()));
    assert_eq!(fields.source_dir, "$HOME/p/proj");
}

#[test]
fn write_then_parse_recovers_fields() {
    let sec = sample_section();
    let text = "export FOO=bar\n";
    let written = write_section(text, &sec);
    assert!(written.starts_with("export FOO=bar\n"));
    assert!(written.contains("# config.relative = true"));
    let fields = parse_section(&written)
        .expect("no error")
        .expect("the embedded section parses");
    assert!(fields.is_relative);
    assert_eq!(fields.version, 3);
    assert_eq!(fields.sentinel, "proj-abcd1234");
    assert_eq!(fields.timestamp, Some(TS.to_string()));
    assert_eq!(fields.source_dir, "$HOME/p/proj");
}

#[test]
fn write_then_parse_overrides_earlier_field_lines() {
    let sec = sample_section();
    // the text already holds stray field lines, but no section markers
    let text = "# state.sentinel = 'other-00000000'\n# config.version = 9\n";
    let written = write_section(text, &sec);
    let fields = parse_section(&written)
        .expect("no error")
        .expect("the embedded section parses");
    assert_eq!(fields.sentinel, "proj-abcd1234");
    assert_eq!(fields.version, 3);
}

#[test]
fn write_appends_newline_when_missing() {
    let sec = sample_section();
    let written = write_section("export FOO=bar", &sec);
    assert!(written.starts_with("export FOO=bar\n#"));
}

#[test]
fn write_replaces_existing_section_in_place() {
    let first = sample_section();
    let written = write_section("a\nexport FOO=bar\n", &first);
    let second = render_section(
        false,
        4,
        "proj-ffff0000",
        TS,
        "$HOME/p/proj",
        "xxx/rs-cg/guarded/proj-ffff0000",
    )
    .expect("a well-formed section renders");
    let replaced = write_section(&written, &second);
    let fields = parse_section(&replaced)
        .expect("no error")
        .expect("the replaced section parses");
    assert!(!fields.is_relative);
    assert_eq!(fields.version, 4);
    assert_eq!(fields.sentinel, "proj-ffff0000");
    assert!(replaced.starts_with("a\nexport FOO=bar\n"));
    // only one section remains
    assert_eq!(replaced.matches("confguard start").count(), 1);
}

#[test]
fn delete_after_write_restores_text() {
    let sec = sample_section();
    let text = "export FOO=bar\nexport BAZ=1\n";
    let written = write_section(text, &sec);
    let deleted = delete_section(&written);
    assert_eq!(deleted, text);
}

#[test]
fn delete_without_section_returns_text_unchanged() {
    let text = "export FOO=bar\nno markers here\n";
    assert_eq!(delete_section(text), text);
}

#[test]
fn delete_with_start_but_no_end_returns_text_unchanged() {
    let sec = sample_section();
    let start_line = sec.lines().next().unwrap();
    let text = format!("a\n{}\nb\n", start_line);
    assert_eq!(delete_section(&text), text);
}

#[test]
fn parse_without_both_markers_is_absent() {
    assert!(parse_section("export FOO=bar\n").expect("no error").is_none());
    let sec = sample_section();
    let start_line = sec.lines().next().unwrap();
    let text = format!("{}\n# config.relative = true\n", start_line);
    assert!(parse_section(&text).expect("no error").is_none());
}

#[test]
fn parse_without_timestamp_line_still_succeeds() {
    // only the four required fields decide presence; the timestamp
    // line may be missing
    let sec = sample_section();
    let gutted: String = sec
        .lines()
        .filter(|l| !l.starts_with("# state.timestamp"))
        .map(|l| format!("{}\n", l))
        .collect();
    let fields = parse_section(&gutted)
        .expect("no error")
        .expect("a section without its timestamp still parses");
    assert_eq!(fields.sentinel, "proj-abcd1234");
    assert_eq!(fields.timestamp, None);
}

#[test]
fn parse_with_missing_field_is_absent() {
    let sec = sample_section();
    // drop the sentinel line
    let gutted: String = sec
        .lines()
        .filter(|l| !l.starts_with("# state.sentinel"))
        .map(|l| format!("{}\n", l))
        .collect();
    assert!(parse_section(&gutted).expect("no error").is_none());
}

#[test]
fn parse_oversized_version_is_an_error() {
    let sec = sample_section();
    let bumped: String = sec
        .lines()
        .map(|l| {
            if l.starts_with("# config.version") {
                "# config.version = 99999999999999999999".to_string() + "\n"
            } else {
                format!("{}\n", l)
            }
        })
        .collect();
    assert!(parse_section(&bumped).is_err());
}

#[test]
fn render_refuses_a_field_with_a_newline() {
    let r = render_section(true, 3, "proj-abcd1234", "bad\nstamp", "$HOME/p", "x");
    assert!(r.is_err());
    let r = render_section(true, 3, "", TS, "$HOME/p", "x");
    assert!(r.is_err());
}

#[test]
fn parse_last_field_line_wins() {
    let sec = sample_section();
    let doubled = format!("{}# state.sentinel = 'proj-99999999'\n", sec);
    let fields = parse_section(&doubled)
        .expect("no error")
        .expect("the section parses");
    assert_eq!(fields.sentinel, "proj-99999999");
}

#[test]
fn delete_section_method_matches_free_function() {
    let sec = sample_section();
    let written = write_section("x\n", &sec);
    assert_eq!(ConfGuard::delete_section(&written), delete_section(&written));
}
