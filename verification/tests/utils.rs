use helianto::utils::{
    extension_of, file_name_of, is_hidden, is_public, join_path, remove_leading_dot,
    remove_path_prefix, replace_extension, strip_prefix, to_ascii_lowercase, DateTime, FromRaw,
};

#[test]
fn test_remove_leading_dot() {
    const PATHS: &[(&str, &str)] = &[
        ("/foo/bar/baz", "/foo/bar/baz"),
        ("foo/bar/baz", "foo/bar/baz"),
        ("./foo/bar/baz", "foo/bar/baz"),
        ("../foo/bar/baz", "../foo/bar/baz"),
    ];

    for &(input, expected) in PATHS.iter() {
        assert_eq!(Some(remove_leading_dot(input).as_str()), Some(expected));
    }
}

#[test]
fn remove_leading_dot_drops_what_names_nothing() {
    assert_eq!(remove_leading_dot("."), "");
    assert_eq!(remove_leading_dot("./"), "");
    assert_eq!(remove_leading_dot(".//foo/./bar/"), "foo/bar");
    assert_eq!(remove_leading_dot("./../foo"), "../foo");
    assert_eq!(remove_leading_dot(".foo/bar"), ".foo/bar");
}

#[test]
fn remove_path_prefix_keeps_the_names() {
    assert_eq!(remove_path_prefix("/index.html"), "index.html");
    assert_eq!(remove_path_prefix("a/b/index.html"), "a/b/index.html");
    assert_eq!(remove_path_prefix("/a//b/./c"), "a/b/c");
    assert_eq!(remove_path_prefix("../a/../b"), "a/b");
    assert_eq!(remove_path_prefix(""), "");
    assert_eq!(remove_path_prefix("/"), "");
}

#[test]
fn hidden_and_public_go_by_the_file_name() {
    assert!(is_hidden(".git"));
    assert!(is_hidden("site/.hidden"));
    assert!(is_hidden("site/.hidden/"));
    assert!(!is_hidden("site/visible"));
    assert!(!is_hidden(".hidden/visible"));
    assert!(!is_hidden(".."));
    assert!(!is_hidden(""));

    assert!(is_public("site/post.md"));
    assert!(is_public("site"));
    assert!(!is_public("site/_layouts"));
    assert!(!is_public("site/.git"));
    assert!(!is_public("site/.."));
    assert!(!is_public(""));
    assert!(!is_public("/"));
    assert!(is_public("_layouts/page.html"));
}

#[test]
fn file_names_and_extensions() {
    assert_eq!(file_name_of("a/b/c.md"), Some(String::from("c.md")));
    assert_eq!(file_name_of("a/b/"), Some(String::from("b")));
    assert_eq!(file_name_of("a/b/."), Some(String::from("b")));
    assert_eq!(file_name_of("a/.."), None);
    assert_eq!(file_name_of("/"), None);
    assert_eq!(file_name_of(""), None);

    assert_eq!(extension_of("a/b/c.md"), Some(String::from("md")));
    assert_eq!(extension_of("a/b/c.tar.gz"), Some(String::from("gz")));
    assert_eq!(extension_of("a/b/c."), Some(String::from("")));
    assert_eq!(extension_of("a/b/.bashrc"), None);
    assert_eq!(extension_of("a/b/c"), None);
    assert_eq!(extension_of("a.b/c"), None);
    assert_eq!(extension_of(""), None);
}

#[test]
fn extensions_are_replaced_in_the_file_name() {
    assert_eq!(replace_extension("blog/post.md", "html"), "blog/post.html");
    assert_eq!(replace_extension("blog/post", "html"), "blog/post.html");
    assert_eq!(replace_extension("blog/post.tar.gz", "html"), "blog/post.tar.html");
    assert_eq!(replace_extension("blog/.post", "html"), "blog/.post.html");
    assert_eq!(replace_extension("page.html.hbs", ""), "page.html");
    assert_eq!(replace_extension("blog/post.md/", "html"), "blog/post.html");
    assert_eq!(replace_extension("blog/..", "html"), "blog/..");
    assert_eq!(replace_extension("", "html"), "");
}

#[test]
fn paths_join_with_one_slash() {
    assert_eq!(join_path("site", "."), "site/.");
    assert_eq!(join_path("site", "_output"), "site/_output");
    assert_eq!(join_path("site/", "_output"), "site/_output");
    assert_eq!(join_path("", "_output"), "_output");
    assert_eq!(join_path("site", "/abs"), "/abs");
    assert_eq!(join_path("site", ""), "site/");
}

#[test]
fn strip_prefix_goes_by_names() {
    assert_eq!(strip_prefix("site/blog/post.md", "site"), Some(String::from("blog/post.md")));
    assert_eq!(strip_prefix("site/./blog//post.md", "site/."), Some(String::from("blog/post.md")));
    assert_eq!(strip_prefix("site/blog", "site/blog"), Some(String::from("")));
    assert_eq!(strip_prefix("site/blog", "other"), None);
    assert_eq!(strip_prefix("site", "site/blog"), None);
    assert_eq!(strip_prefix("/site/blog", "site"), None);
    assert_eq!(strip_prefix("/site/blog", "/site"), Some(String::from("blog")));
    assert_eq!(strip_prefix("sitemap/blog", "site"), None);
}

#[test]
fn ascii_capitals_become_small_letters() {
    assert_eq!(to_ascii_lowercase("TrUe"), "true");
    assert_eq!(to_ascii_lowercase("AZ az 09 É"), "az az 09 É");
}

#[test]
fn truth_values_are_read_from_their_words() {
    for word in ["1", "t", "true", "on", "yes", " TRUE ", "Yes", "oN"] {
        assert_eq!(<bool as FromRaw>::from_raw(word), Some(true));
    }
    for word in ["0", "f", "false", "off", "no", " FALSE\t", "No", "oFF"] {
        assert_eq!(<bool as FromRaw>::from_raw(word), Some(false));
    }
    for word in ["", "2", "maybe", "tr ue", "y", "n"] {
        assert_eq!(<bool as FromRaw>::from_raw(word), None);
    }
}

#[test]
fn raw_strings_and_lists_are_trimmed() {
    assert_eq!(<String as FromRaw>::from_raw("  foo "), Some(String::from("foo")));
    assert_eq!(
        <Vec<String> as FromRaw>::from_raw(" a, b ,,c "),
        Some(vec![String::from("a"), String::from("b"), String::from(""), String::from("c")])
    );
    assert_eq!(<Option<String> as FromRaw>::from_raw(" x "), Some(Some(String::from("x"))));
    assert_eq!(<Option<bool> as FromRaw>::from_raw("nope"), None);
}

#[test]
fn dates_are_parsed_as_rfc_3339() {
    let date = DateTime::from_string("2020-12-30T14:47:30+01:00").unwrap();
    assert_eq!(date.timestamp(), 1609336050);
    assert_eq!(date.timestamp_subsec_nanos(), 0);
    assert_eq!(date.offset(), 3600);

    let fraction = DateTime::from_string("1970-01-01T00:00:01.5Z").unwrap();
    assert_eq!(fraction.timestamp(), 1);
    assert_eq!(fraction.timestamp_subsec_nanos(), 500_000_000);
    assert_eq!(fraction.offset(), 0);

    assert!(DateTime::from_string("2020-12-30").is_none());
    assert!(DateTime::from_string("not a date").is_none());
    assert!(DateTime::from_string(" 2020-12-30T14:47:30+01:00").is_none());
    assert_eq!(
        <DateTime as FromRaw>::from_raw(" 2020-12-30T14:47:30+01:00 "),
        Some(DateTime::new(1609336050, 0, 3600))
    );
}

#[test]
fn dates_compare_by_the_point_in_time() {
    let paris = DateTime::from_string("2020-12-30T14:47:30+01:00").unwrap();
    let utc = DateTime::from_string("2020-12-30T13:47:30Z").unwrap();
    let later = DateTime::from_string("2020-12-30T13:47:30.000000001Z").unwrap();
    assert!(paris == utc);
    assert!(paris != later);
    assert!(utc.is_before(&later));
    assert!(!later.is_before(&utc));
    assert!(!paris.is_before(&utc));
    assert!(utc < later);
    assert!(later > paris);
    assert!(paris <= utc && paris >= utc);
}
