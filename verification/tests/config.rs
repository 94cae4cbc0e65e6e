use herdr_clip::config::Config;

#[test]
fn defaults_match_spec() {
    let c = Config::default();
    assert_eq!(c.max_entries, 50);
    assert_eq!(c.max_entry_bytes, 256 * 1024);
    assert_eq!(c.poll_ms, 500);
}

#[test]
fn default_image_limit_is_five_mebibytes() {
    assert_eq!(Config::default().max_image_bytes, 5242880);
}

#[test]
fn loads_partial_config_over_defaults() {
    let c = Config::load(Some("max_entries = 9\n"));
    assert_eq!(c.max_entries, 9);
    assert_eq!(c.poll_ms, 500);
}

#[test]
fn missing_dir_or_bad_toml_falls_back_to_defaults() {
    assert_eq!(Config::load(None), Config::default());
    assert_eq!(Config::load(Some("max_entries = \"lots\"")), Config::default()); // bad type
    assert_eq!(Config::load(Some("max_entries = = 3")), Config::default()); // no TOML
}

#[test]
fn zero_values_fall_back_to_defaults() {
    let text = "max_entries = 0\nmax_entry_bytes = 0\npoll_ms = 0\n";
    assert_eq!(Config::load(Some(text)), Config::default());
}

#[test]
fn every_key_is_read() {
    let text = "max_entries = 7\nmax_entry_bytes = 11\nmax_image_bytes = 13\npoll_ms = 17\n";
    let expected = Config { max_entries: 7, max_entry_bytes: 11, max_image_bytes: 13, poll_ms: 17 };
    assert_eq!(Config::load(Some(text)), expected);
}

#[test]
fn one_zero_value_leaves_the_others() {
    let c = Config::load(Some("max_entries = 0\npoll_ms = 80\n"));
    assert_eq!(c.max_entries, 50);
    assert_eq!(c.poll_ms, 80);
}

#[test]
fn a_negative_or_fractional_value_breaks_the_document() {
    assert_eq!(Config::load(Some("max_entries = 9\npoll_ms = -1\n")), Config::default());
    assert_eq!(Config::load(Some("max_entries = 9\npoll_ms = 1.5\n")), Config::default());
}

#[test]
fn unknown_keys_and_an_empty_document_change_nothing() {
    assert_eq!(Config::load(Some("")), Config::default());
    assert_eq!(Config::load(Some("colour = \"red\"\n[section]\nmax_entries = 3\n")), Config::default());
}

#[test]
fn fields_set_the_configuration() {
    let fields = vec![("poll_ms".to_string(), Some(90)), ("max_entries".to_string(), Some(4))];
    let c = Config::from_fields(&fields);
    assert_eq!((c.max_entries, c.poll_ms), (4, 90));
    let broken = vec![("poll_ms".to_string(), None)];
    assert_eq!(Config::from_fields(&broken), Config::default());
}

#[test]
fn polling_is_never_faster_than_fifty_milliseconds() {
    let poll = |poll_ms| Config { poll_ms, ..Config::default() }.poll_interval_ms();
    assert_eq!(poll(1), 50);
    assert_eq!(poll(50), 50);
    assert_eq!(poll(51), 51);
    assert_eq!(poll(500), 500);
}
