use mdpeek::escape::{create_html_escape_table, escape_href, escape_html, escape_html_body};

#[test]
fn text_escaping_replaces_angle_brackets_and_ampersand() {
    let mut out = String::new();
    escape_html_body(&mut out, "a<b & c>d");
    assert_eq!(out, "a&lt;b &amp; c&gt;d");
}

#[test]
fn attribute_escaping_also_replaces_quotes() {
    let mut out = String::new();
    escape_html(&mut out, "\"x\" & 'y'");
    assert_eq!(out, "&quot;x&quot; &amp; &#39;y&#39;");
}

#[test]
fn href_escaping_percent_encodes_unsafe_bytes_uppercase() {
    let mut out = String::new();
    escape_href(&mut out, "a b&c'd\u{e9}");
    assert_eq!(out, "a%20b&amp;c&#x27;d%C3%A9");
}

#[test]
fn escape_table_classifies_the_five_escaped_bytes() {
    let body = create_html_escape_table(true);
    let attr = create_html_escape_table(false);
    assert_eq!(body.len(), 256);
    assert_eq!(body[b'&' as usize], 1);
    assert_eq!(body[b'<' as usize], 2);
    assert_eq!(body[b'>' as usize], 3);
    assert_eq!(body[b'"' as usize], 0);
    assert_eq!(attr[b'"' as usize], 4);
    assert_eq!(attr[b'\'' as usize], 5);
    assert_eq!(attr[b'a' as usize], 0);
}
