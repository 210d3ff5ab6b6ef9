use rweb::util::insert_slash;

#[test]
fn insert_slash_adds_missing_slashes() {
    let v = vec!["".to_string(), "/a".to_string(), "b".to_string(), "é/c".to_string()];
    let r = insert_slash(v);
    assert_eq!(r, vec!["".to_string(), "/a".to_string(), "/b".to_string(), "/é/c".to_string()]);
}

#[test]
fn insert_slash_twice_is_once() {
    let v = vec!["x".to_string(), "/y".to_string(), "".to_string()];
    let once = insert_slash(v);
    let twice = insert_slash(once.clone());
    assert_eq!(once, twice);
}
