use sky_color_wallpaper::userpath::{expand_user, expand_user_with};

#[test]
fn test_expand_user_with() {
    assert_eq!(
        expand_user_with("foo/bar", "/home/user"),
        Ok("foo/bar".to_owned()),
    );
    assert_eq!(
        expand_user_with("/foo/bar", "/home/user"),
        Ok("/foo/bar".to_owned()),
    );
    assert_eq!(
        expand_user_with("~/foo/bar", "/home/user"),
        Ok("/home/user/foo/bar".to_owned()),
    );
    assert_eq!(
        expand_user_with("~user/foo", "/home/user"),
        Err("Unsupported use of '~': \"~user/foo\"".to_owned()),
    );
}

#[test]
fn expand_user_with_bare_tilde_is_home() {
    assert_eq!(expand_user_with("~", "/home/user"), Ok("/home/user".to_owned()));
}

#[test]
fn expand_user_with_rejoins_path_components() {
    assert_eq!(
        expand_user_with("foo//bar", "/home/user"),
        Ok("foo/bar".to_owned()),
    );
    assert_eq!(
        expand_user_with("x/./y/", "/home/user"),
        Ok("x/y".to_owned()),
    );
    assert_eq!(expand_user_with("./x", "/home/user"), Ok("./x".to_owned()));
    assert_eq!(expand_user_with("/./x", "/home/user"), Ok("/x".to_owned()));
    assert_eq!(
        expand_user_with("~//x/.", "/home/user"),
        Ok("/home/user/x".to_owned()),
    );
    assert_eq!(expand_user_with("~/.", "/home/user"), Ok("/home/user".to_owned()));
    assert_eq!(
        expand_user_with("a/../b", "/home/user"),
        Ok("a/../b".to_owned()),
    );
}

#[test]
fn expand_user_with_keeps_interior_tilde() {
    assert_eq!(
        expand_user_with("foo/~/bar", "/home/user"),
        Ok("foo/~/bar".to_owned()),
    );
}

#[test]
fn expand_user_with_empty_path() {
    assert_eq!(expand_user_with("", "/home/user"), Ok("".to_owned()));
}

#[test]
fn expand_user_keeps_plain_path_when_home_is_known() {
    // the platform may or may not know a home directory; a plain path must
    // come back unchanged whenever it does
    match expand_user("foo/bar") {
        Ok(expanded) => assert_eq!(expanded, "foo/bar"),
        Err(message) => assert_eq!(message, "Home directory not found"),
    }
}
