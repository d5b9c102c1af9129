use nu_plugin_explore::strings::SpecialString;

#[test]
fn parse_strings() {
    let cases = vec![
        ("foo", None),
        ("https://google.com", Some(SpecialString::Url)),
        ("file:///some/file", Some(SpecialString::Path)),
        ("/path/to/something", Some(SpecialString::Path)),
        ("relative/path/", Some(SpecialString::Path)),
        ("./relative/path/", Some(SpecialString::Path)),
        ("../../relative/path/", Some(SpecialString::Path)),
        ("file:", Some(SpecialString::Path)),
        ("normal string with a / inside", Some(SpecialString::Path)),
        ("normal string with \na / inside", None),
    ];

    for (input, expected) in cases {
        let actual = SpecialString::parse(input);
        assert_eq!(actual, expected, "expected {expected:#?} on input {input}, found {actual:#?}",);
    }
}

#[test]
fn classify_by_scheme() {
    assert_eq!(SpecialString::classify("anything", Some("file".to_string())), Some(SpecialString::Path));
    assert_eq!(SpecialString::classify("anything", Some("ftp".to_string())), Some(SpecialString::Url));
    assert_eq!(SpecialString::classify("a/b", None), Some(SpecialString::Path));
    assert_eq!(SpecialString::classify("a/\nb", None), None);
    assert_eq!(SpecialString::classify("ab", None), None);
    assert_eq!(SpecialString::Url.text(), "url");
    assert_eq!(SpecialString::Path.text(), "path");
}

#[test]
fn scheme_of_urls_decides() {
    // a URL without any `/` is still a URL, and a `file` URL is a path
    assert_eq!(SpecialString::parse("mailto:someone@example.com"), Some(SpecialString::Url));
    assert_eq!(SpecialString::parse("FILE:thing"), Some(SpecialString::Path));
}
