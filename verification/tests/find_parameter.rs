use conf::find_parameter::find_parameter;

fn args(list: &[&str]) -> Vec<Vec<u8>> {
    list.iter().map(|s| s.as_bytes().to_vec()).collect()
}

fn found(name: &str, list: &[&str]) -> Option<String> {
    find_parameter(name, &args(list)).map(|v| String::from_utf8_lossy(&v).into_owned())
}

#[test]
fn test_find_parameter() {
    assert_eq!(None, found("foo", &["."]));

    assert_eq!("x", found("foo", &[".", "--foo=x"]).unwrap());
    assert_eq!(None, found("fo", &[".", "--foo=x"]));
    assert_eq!(None, found("fooo", &[".", "--foo=x"]));
    assert_eq!("x", found("foo", &[".", "-zed", "z", "--foo=x"]).unwrap());
    assert_eq!(None, found("fo", &[".", "-zed", "z", "--foo=x"]));
    assert_eq!(None, found("fooo", &[".", "-zed", "z", "--foo=x"]));

    assert_eq!("x", found("foo", &[".", "--foo", "x"]).unwrap());
    assert_eq!(None, found("fo", &[".", "--foo", "x"]));
    assert_eq!(None, found("fooo", &[".", "--foo", "x"]));
    assert_eq!("x", found("foo", &[".", "-zed", "z", "--foo", "x"]).unwrap());
    assert_eq!(None, found("fo", &[".", "-zed", "z", "--foo", "x"]));
    assert_eq!(None, found("fooo", &[".", "-zed", "z", "--foo", "x"]));

    assert_eq!(None, found("foo", &[".", "--foo"]));
    assert_eq!(None, found("foo", &[".", "--bar=9", "--foo"]));

    assert_eq!("x", found("foo", &[".", "--foo=x", "--foo", "y"]).unwrap());
    assert_eq!("x", found("foo", &[".", "--foo", "x", "--foo", "y"]).unwrap());
    assert_eq!(
        "x",
        found("foo", &[".", "--bar=9", "--foo=x", "--foo", "y"]).unwrap()
    );
    assert_eq!(
        "x",
        found("foo", &[".", "--bar=9", "--foo", "x", "--foo", "y"]).unwrap()
    );

    assert_eq!(None, found("fo", &[".", "--bar=9", "--foo=x", "--foo", "y"]));
    assert_eq!(None, found("fo", &[".", "--bar=9", "--foo", "x", "--foo", "y"]));
}

#[test]
fn find_parameter_stops_at_escape() {
    assert_eq!(None, found("foo", &[".", "--", "--foo=x"]));
}

#[test]
fn find_parameter_skips_the_binary_name() {
    assert_eq!(None, found("foo", &["--foo=x"]));
}

#[test]
fn find_parameter_keeps_non_utf8_values() {
    let list = vec![b".".to_vec(), b"--cfg".to_vec(), vec![0xff, 0x61]];
    assert_eq!(find_parameter("cfg", &list), Some(vec![0xff, 0x61]));
}

#[test]
fn find_parameter_value_with_equals_sign() {
    assert_eq!("a=b", found("foo", &[".", "--foo=a=b"]).unwrap());
}
