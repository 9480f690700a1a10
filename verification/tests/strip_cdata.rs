use raven_news::rss::strip_cdata;

#[test]
fn test_strip_cdata_wrapped() {
    assert_eq!(strip_cdata("<![CDATA[Hello & Co]]>"), "Hello & Co");
}

#[test]
fn test_strip_cdata_unwrapped() {
    assert_eq!(strip_cdata("Hello & Co"), "Hello & Co");
}

#[test]
fn test_strip_cdata_surrounding_whitespace() {
    assert_eq!(strip_cdata("  <![CDATA[x]]> \n"), "x");
}

#[test]
fn test_strip_cdata_markers_mid_string_unchanged() {
    assert_eq!(strip_cdata("a <![CDATA[x]]> b"), "a <![CDATA[x]]> b");
}

#[test]
fn test_strip_cdata_empty_section() {
    assert_eq!(strip_cdata("<![CDATA[]]>"), "");
}

#[test]
fn test_strip_cdata_opener_only_unchanged() {
    assert_eq!(strip_cdata("<![CDATA[unfinished"), "<![CDATA[unfinished");
}

#[test]
fn test_strip_cdata_keeps_inner_html() {
    assert_eq!(
        strip_cdata("<![CDATA[<p>Hello <b>world</b></p>]]>"),
        "<p>Hello <b>world</b></p>"
    );
}
