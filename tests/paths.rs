use pathbuf::{
    pathbuf, pathbuf_safe, pathbuf_safe_allow, PathBuilder,
    PushPathComponent, SinglePathComponent,
};
use std::path::{Component, PathBuf};

#[test]
fn it_works() {
    let p = pathbuf(&["hello", "filename.txt"]);

    let expected = {
        let mut temp = PathBuf::new();
        temp.push("hello");
        temp.push("filename.txt");
        temp
    };

    assert_eq!(PathBuf::from(p.as_str()), expected);
}

#[test]
fn single_components_are_accepted() {
    for text in ["foo", "bar.txt", ".hidden", "...", "a..b", "x"] {
        let c = SinglePathComponent::new(text).unwrap();
        assert_eq!(c.as_str(), text);
        assert!(SinglePathComponent::is_valid(text));
    }
}

#[test]
fn non_components_are_rejected() {
    for text in ["", ".", "..", "/", "/etc/shadow", "a/b", "a/", "/a", "../etc", "./a"] {
        assert!(SinglePathComponent::new(text).is_none(), "{text}");
        assert!(!SinglePathComponent::is_valid(text), "{text}");
    }
}

#[test]
fn revalidating_a_component_gives_it_back() {
    let c = SinglePathComponent::new("report.pdf").unwrap();
    let again = SinglePathComponent::new(c.as_str()).unwrap();
    assert_eq!(again, c);
    assert_eq!(c.clone(), c);
}

#[test]
fn safe_join_of_valid_parts() {
    let p = pathbuf_safe(&["tmp", "foo.txt"]).unwrap();
    assert_eq!(p.as_str(), "tmp/foo.txt");
    assert_eq!(PathBuf::from(p.as_str()), PathBuf::from("tmp/foo.txt"));
}

#[test]
fn safe_join_splits_back_into_its_parts() {
    let parts = ["a", "b.c", "...", "d e"];
    let p = pathbuf_safe(&parts).unwrap();
    let path = PathBuf::from(p.into_string());
    let names: Vec<String> = path
        .components()
        .map(|c| match c {
            Component::Normal(n) => n.to_string_lossy().into_owned(),
            other => panic!("unexpected component {other:?}"),
        })
        .collect();
    assert_eq!(names, parts);
}

#[test]
fn safe_join_rejects_an_absolute_part() {
    assert!(pathbuf_safe(&["tmp", "/etc/shadow"]).is_none());
}

#[test]
fn safe_join_rejects_any_invalid_part() {
    assert!(pathbuf_safe(&["..", "a", "b"]).is_none());
    assert!(pathbuf_safe(&["a", "", "b"]).is_none());
    assert!(pathbuf_safe(&["a", "b", "."]).is_none());
    assert!(pathbuf_safe(&["a/b"]).is_none());
}

#[test]
fn safe_join_of_nothing_is_the_empty_path() {
    let p = pathbuf_safe(&[]).unwrap();
    assert_eq!(p.as_str(), "");
    assert_eq!(p, PathBuilder::new());
}

#[test]
fn trusted_first_part_may_be_absolute() {
    let p = pathbuf_safe_allow("/var/tmp", &["foo.txt"]).unwrap();
    assert_eq!(p.as_str(), "/var/tmp/foo.txt");
    assert_eq!(PathBuf::from(p.as_str()), PathBuf::from("/var/tmp/foo.txt"));
}

#[test]
fn trusted_first_part_with_trailing_separator() {
    let p = pathbuf_safe_allow("/var/tmp/", &["foo.txt"]).unwrap();
    assert_eq!(p.as_str(), "/var/tmp/foo.txt");
}

#[test]
fn trusted_first_part_does_not_cover_the_rest() {
    assert!(pathbuf_safe_allow("/var/tmp", &["../etc/passwd"]).is_none());
    assert!(pathbuf_safe_allow("/var/tmp", &["a", ".."]).is_none());
}

#[test]
fn unchecked_join_lets_an_absolute_part_replace_the_path() {
    let p = pathbuf(&["/tmp", "/etc/shadow"]);
    assert_eq!(p.as_str(), "/etc/shadow");
    let mut expected = PathBuf::from("/tmp");
    expected.push("/etc/shadow");
    assert_eq!(PathBuf::from(p.as_str()), expected);
}

#[test]
fn unchecked_join_matches_std_push() {
    let cases: [&[&str]; 5] = [
        &["a", ""],
        &["a/", "b"],
        &["", "b"],
        &["a", "b/", "c"],
        &["x", "../y"],
    ];
    for parts in cases {
        let mut expected = PathBuf::new();
        for part in parts {
            expected.push(part);
        }
        let p = pathbuf(parts);
        assert_eq!(p.as_str(), expected.to_str().unwrap(), "{parts:?}");
    }
}

#[test]
fn push_component_appends_one_component() {
    let mut path = PathBuilder::new();
    path.push_component(SinglePathComponent::new("foo").unwrap());
    path.push_component(SinglePathComponent::new("bar.txt").unwrap());
    assert_eq!(path, pathbuf(&["foo", "bar.txt"]));
    assert_eq!(path.as_str(), "foo/bar.txt");
}

#[test]
fn append_component_after_a_root() {
    let mut path = PathBuilder::new();
    path.push("/");
    path.append_component(SinglePathComponent::new("etc").unwrap());
    assert_eq!(path.as_str(), "/etc");
}

#[test]
fn sanitising_an_absolute_path() {
    assert_eq!(
        SinglePathComponent::with_sanitise("/etc/shadow"),
        SinglePathComponent::new("etc_shadow").unwrap(),
    );
}

#[test]
fn sanitising_yields_a_component() {
    let c = SinglePathComponent::try_with_sanitise("../a/b").unwrap();
    assert_eq!(c.as_str(), "a_b");
    let c = SinglePathComponent::try_with_sanitise("Read: http://x.y/z/").unwrap();
    assert!(SinglePathComponent::new(c.as_str()).is_some());
}

#[test]
fn sanitising_to_nothing_gives_none() {
    assert!(SinglePathComponent::try_with_sanitise("").is_none());
    assert!(SinglePathComponent::try_with_sanitise(".").is_none());
    assert!(SinglePathComponent::try_with_sanitise("..").is_none());
}
