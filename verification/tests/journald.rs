use vector::journald::{
    contains_match, filter_matches, find_duplicate_match, fixup_unit, remap_priority,
    JournaldConfig, Matches, Record, StartJournalctl,
};

const SYSTEMD_UNIT: &str = "_SYSTEMD_UNIT";

fn create_unit_matches(units: Vec<&str>) -> Matches {
    let mut matches = Matches::empty();
    for unit in units {
        matches.add(SYSTEMD_UNIT, unit);
    }
    matches
}

fn create_matches(pairs: Vec<(&str, &str)>) -> Matches {
    let mut matches = Matches::empty();
    for (field, value) in pairs {
        matches.add(field, value);
    }
    matches
}

fn record(pairs: Vec<(&str, &str)>) -> Record {
    Record { fields: pairs.into_iter().map(|(f, v)| (f.to_string(), v.to_string())).collect() }
}

#[test]
fn filter_matches_works_correctly() {
    let empty = Matches::empty();
    let includes = create_unit_matches(vec!["one", "two"]);
    let excludes = create_unit_matches(vec!["foo", "bar"]);

    let zero = record(vec![]);
    assert!(!filter_matches(&zero, &empty, &empty));
    assert!(filter_matches(&zero, &includes, &empty));
    assert!(!filter_matches(&zero, &empty, &excludes));
    assert!(filter_matches(&zero, &includes, &excludes));
    let one = record(vec![(SYSTEMD_UNIT, "one")]);
    assert!(!filter_matches(&one, &empty, &empty));
    assert!(!filter_matches(&one, &includes, &empty));
    assert!(!filter_matches(&one, &empty, &excludes));
    assert!(!filter_matches(&one, &includes, &excludes));
    let two = record(vec![(SYSTEMD_UNIT, "bar")]);
    assert!(!filter_matches(&two, &empty, &empty));
    assert!(filter_matches(&two, &includes, &empty));
    assert!(filter_matches(&two, &empty, &excludes));
    assert!(filter_matches(&two, &includes, &excludes));
}

fn sorted(mut v: Vec<String>) -> Vec<String> {
    v.sort();
    v
}

fn to_strings(v: &[&str]) -> Vec<String> {
    v.iter().map(|s| s.to_string()).collect()
}

#[test]
fn merges_units_and_matches_option() {
    let include_units = vec!["one", "two"].into_iter().map(String::from).collect();
    let include_matches = create_matches(vec![
        ("_SYSTEMD_UNIT", "three.service"),
        ("_TRANSPORT", "kernel"),
    ]);

    let exclude_units = vec!["foo", "bar"].into_iter().map(String::from).collect();
    let exclude_matches = create_matches(vec![
        ("_SYSTEMD_UNIT", "baz.service"),
        ("PRIORITY", "DEBUG"),
    ]);

    let journald_config = JournaldConfig {
        include_units,
        include_matches,
        exclude_units,
        exclude_matches,
        ..Default::default()
    };

    let matches = journald_config.merged_include_matches().unwrap();
    let units = matches.values_for("_SYSTEMD_UNIT");
    assert_eq!(
        sorted(units),
        sorted(to_strings(&["one.service", "two.service", "three.service"])),
    );
    let units = matches.values_for("_TRANSPORT");
    assert_eq!(sorted(units), sorted(to_strings(&["kernel"])));

    let matches = journald_config.merged_exclude_matches();
    let units = matches.values_for("_SYSTEMD_UNIT");
    assert_eq!(
        sorted(units),
        sorted(to_strings(&["foo.service", "bar.service", "baz.service"])),
    );
    let units = matches.values_for("PRIORITY");
    assert_eq!(sorted(units), sorted(to_strings(&["DEBUG"])));
}

#[test]
fn find_duplicate_match_works_correctly() {
    let include_matches = create_matches(vec![("_TRANSPORT", "kernel")]);
    let exclude_matches = create_matches(vec![("_TRANSPORT", "kernel")]);
    let (field, value) = find_duplicate_match(&include_matches, &exclude_matches).unwrap();
    assert_eq!(field, "_TRANSPORT");
    assert_eq!(value, "kernel");

    let empty = Matches::empty();
    let actual = find_duplicate_match(&empty, &empty);
    assert!(actual.is_none());

    let actual = find_duplicate_match(&include_matches, &empty);
    assert!(actual.is_none());

    let actual = find_duplicate_match(&empty, &exclude_matches);
    assert!(actual.is_none());
}

#[test]
fn command_options() {
    let path = "jornalctl".to_string();

    let journal_dir = None;
    let current_boot_only = false;
    let cursor = None;
    let since_now = false;

    let command = create_command(&path, journal_dir, current_boot_only, since_now, cursor);
    let cmd_line = command.join(" ");
    assert!(!cmd_line.contains("--directory="));
    assert!(!cmd_line.contains("--boot"));
    assert!(cmd_line.contains("--since=2000-01-01"));

    let since_now = true;
    let journal_dir = None;

    let command = create_command(&path, journal_dir, current_boot_only, since_now, cursor);
    let cmd_line = command.join(" ");
    assert!(cmd_line.contains("--since=now"));

    let journal_dir = Some("/tmp/journal-dir".to_string());
    let current_boot_only = true;
    let cursor = Some("2021-01-01");

    let command = create_command(&path, journal_dir, current_boot_only, since_now, cursor);
    let cmd_line = command.join(" ");
    assert!(cmd_line.contains("--directory=/tmp/journal-dir"));
    assert!(cmd_line.contains("--boot"));
    assert!(cmd_line.contains("--after-cursor="));
}

fn create_command(
    path: &str,
    journal_dir: Option<String>,
    current_boot_only: bool,
    since_now: bool,
    cursor: Option<&str>,
) -> Vec<String> {
    StartJournalctl::new(path.to_string(), journal_dir, current_boot_only, since_now)
        .make_command_args(cursor)
}

#[test]
fn journald_generate_config() {
    let config = JournaldConfig::default();
    assert!(config.units.is_empty());
    assert!(config.include_units.is_empty());
    assert!(config.exclude_units.is_empty());
    assert!(config.batch_size.is_none());
    assert!(!config.remap_priority);
}

#[test]
fn both_unit_settings_is_an_error() {
    let config = JournaldConfig {
        units: vec!["legacy".to_string()],
        include_units: vec!["modern".to_string()],
        ..Default::default()
    };
    assert!(config.merged_include_matches().is_err());
}

#[test]
fn fixup_unit_appends_service() {
    assert_eq!(fixup_unit("sshd"), "sshd.service");
    assert_eq!(fixup_unit("sshd.service"), "sshd.service");
    assert_eq!(fixup_unit("proc-sys.mount"), "proc-sys.mount");
}

#[test]
fn contains_match_finds_any_pair() {
    let matches = create_matches(vec![("_TRANSPORT", "kernel")]);
    assert!(contains_match(&record(vec![("_TRANSPORT", "kernel"), ("X", "y")]), &matches));
    assert!(!contains_match(&record(vec![("_TRANSPORT", "journal")]), &matches));
    assert!(!contains_match(&record(vec![]), &matches));
}

#[test]
fn remap_priority_maps_known_levels() {
    assert_eq!(remap_priority("0").as_deref(), Some("EMERG"));
    assert_eq!(remap_priority("3").as_deref(), Some("ERR"));
    assert_eq!(remap_priority("7").as_deref(), Some("DEBUG"));
    assert_eq!(remap_priority("12").as_deref(), Some("UNKNOWN"));
    assert_eq!(remap_priority("INFO"), None);
    assert_eq!(remap_priority(""), None);
}
