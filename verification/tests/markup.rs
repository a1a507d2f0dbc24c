use graph_store::file_name::{file_name, file_name_for_digest};
use graph_store::markup::anchor;
use typed_html::dom::TextNode;
use typed_html::elements;
use typed_html::types::Uri;

#[test]
fn file_name_of_known_digest() {
    assert_eq!(
        file_name("abc"),
        "ba7816bf8f01cfea414140de5dae2223b00361a396177a9cb410ff61f20015ad.html"
    );
}

#[test]
fn file_name_of_empty_iri() {
    assert_eq!(
        file_name(""),
        "e3b0c44298fc1c149afbf4c8996fb92427ae41e4649b934ca495991b7852b855.html"
    );
}

#[test]
fn file_name_for_digest_writes_two_lowercase_digits_per_byte() {
    assert_eq!(file_name_for_digest(&[0x00, 0x0f, 0xa0, 0xff, 0x1b]), "000fa0ff1b.html");
    assert_eq!(file_name_for_digest(&[]), ".html");
}

#[test]
fn anchor_without_target() {
    assert_eq!(anchor(None, "plain"), "<a>plain</a>");
}

#[test]
fn anchor_escapes_text() {
    assert_eq!(
        anchor(None, "<b> & \"c\" 'd' \u{2192}"),
        "<a>&lt;b&gt; &amp; &quot;c&quot; &#x27;d&#x27; \u{2192}</a>"
    );
}

#[test]
fn anchor_escapes_target() {
    assert_eq!(
        anchor(Some("a b.html"), "x"),
        "<a href=\"a&#x20;b&#x2E;html\">x</a>"
    );
    assert_eq!(
        anchor(Some("\"<&>'\u{e9}\u{2192}z9"), "x"),
        "<a href=\"&quot;&lt;&amp;&gt;&#x27;&#xE9;\u{2192}z9\">x</a>"
    );
}

#[test]
fn anchor_agrees_with_typed_html() {
    let mut element = elements::a::<String>::new();
    element.attrs.href = Some("0f.html".parse::<Uri>().unwrap());
    element.children.push(Box::new(TextNode::new("a < b")));
    assert_eq!(anchor(Some("0f.html"), "a < b"), element.to_string());

    let mut bare = elements::a::<String>::new();
    bare.children.push(Box::new(TextNode::new("noprops")));
    assert_eq!(anchor(None, "noprops"), bare.to_string());
}
