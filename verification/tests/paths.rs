use herdr_clip::paths::{config_dir, dir_from, join, state_dir, STATE_FALLBACK_REL};

#[test]
fn uses_env_var_when_set() {
    let d = dir_from(Some(b"/var/lib/x".to_vec()), b"/home/u", STATE_FALLBACK_REL.as_bytes());
    assert_eq!(d, b"/var/lib/x");
}

#[test]
fn falls_back_to_herdr_plugin_state_dir_when_unset_or_empty() {
    let expected = b"/home/u/.local/state/herdr/plugins/jlangston.multi-clipboard";
    let unset = dir_from(None, b"/home/u", STATE_FALLBACK_REL.as_bytes());
    assert_eq!(unset, expected);
    let empty = dir_from(Some(b"".to_vec()), b"/home/u", STATE_FALLBACK_REL.as_bytes());
    assert_eq!(empty, expected);
}

#[test]
fn state_dir_without_a_home_is_below_the_current_directory() {
    assert_eq!(
        state_dir(None, None),
        b"./.local/state/herdr/plugins/jlangston.multi-clipboard"
    );
    assert_eq!(state_dir(Some(b"/s".to_vec()), None), b"/s");
    assert_eq!(
        state_dir(Some(vec![]), Some(b"/h/".to_vec())),
        b"/h/.local/state/herdr/plugins/jlangston.multi-clipboard"
    );
}

#[test]
fn config_dir_is_what_is_named() {
    assert_eq!(config_dir(None), None);
    assert_eq!(config_dir(Some(vec![])), None);
    assert_eq!(config_dir(Some(b"/c".to_vec())), Some(b"/c".to_vec()));
}

#[test]
fn joining_agrees_with_the_standard_library() {
    for base in ["", "/", "a", "a/", "/a/b"] {
        for rel in ["x", "/x", "x/y", ""] {
            let expected = std::path::Path::new(base).join(rel);
            assert_eq!(join(base.as_bytes(), rel.as_bytes()), expected.to_str().unwrap().as_bytes());
        }
    }
}
