use c2l::document::build_document;
use c2l::document::empty_element;
use c2l::document::parent_element;
use c2l::document::text_element;
use c2l::document::Content;
use c2l::document::Element;
use c2l::emit::finish;
use c2l::emit::plist_writer;
use c2l::emit::render;
use c2l::emit::write_chars;
use c2l::emit::write_element;
use c2l::emit::PROLOGUE;
use c2l::escape::escape_text;

fn leaf(name: &str, text: &str) -> Element {
    Element { name: name.to_string(), attributes: vec![], content: Content::Text(text.to_string()) }
}

fn node(name: &str, children: Vec<Element>) -> Element {
    Element { name: name.to_string(), attributes: vec![], content: Content::Children(children) }
}

fn written(element: &Element) -> String {
    let mut w = plist_writer();
    write_element(&mut w, element);
    String::from_utf8(finish(w)).unwrap()
}

#[test]
fn builders_make_what_they_say() {
    assert_eq!(text_element("key", "Label"), leaf("key", "Label"));
    assert_eq!(
        empty_element("true"),
        Element { name: "true".to_string(), attributes: vec![], content: Content::Empty }
    );
    let attributes = vec![("version".to_string(), "1.0".to_string())];
    assert_eq!(
        parent_element("plist", attributes.clone(), vec![empty_element("dict")]),
        Element {
            name: "plist".to_string(),
            attributes,
            content: Content::Children(vec![Element {
                name: "dict".to_string(),
                attributes: vec![],
                content: Content::Empty
            }]),
        }
    );
}

#[test]
fn document_of_a_label_alone() {
    let doc = build_document("Foo", &vec![], &vec![], false, false);
    let expected = Element {
        name: "plist".to_string(),
        attributes: vec![("version".to_string(), "1.0".to_string())],
        content: Content::Children(vec![node("dict", vec![leaf("key", "Label"), leaf("string", "Foo")])]),
    };
    assert_eq!(doc, expected);
}

#[test]
fn document_with_everything() {
    let words = vec!["/bin/echo".to_string(), "a<b".to_string()];
    let env = vec![("A".to_string(), "1".to_string()), ("B".to_string(), "2".to_string())];
    let doc = build_document("Foo", &words, &env, true, true);
    let expected = Element {
        name: "plist".to_string(),
        attributes: vec![("version".to_string(), "1.0".to_string())],
        content: Content::Children(vec![node(
            "dict",
            vec![
                leaf("key", "Label"),
                leaf("string", "Foo"),
                leaf("key", "ProgramArguments"),
                node("array", vec![leaf("string", "/bin/echo"), leaf("string", "a<b")]),
                leaf("key", "EnvironmentVariables"),
                node("dict", vec![leaf("key", "A"), leaf("string", "1"), leaf("key", "B"), leaf("string", "2")]),
                leaf("key", "RunAtLoad"),
                Element { name: "true".to_string(), attributes: vec![], content: Content::Empty },
                leaf("key", "KeepAlive"),
                Element { name: "true".to_string(), attributes: vec![], content: Content::Empty },
            ],
        )]),
    };
    assert_eq!(doc, expected);
}

#[test]
fn document_with_one_flag() {
    let doc = build_document("Foo", &vec![], &vec![], false, true);
    let expected = Element {
        name: "plist".to_string(),
        attributes: vec![("version".to_string(), "1.0".to_string())],
        content: Content::Children(vec![node(
            "dict",
            vec![
                leaf("key", "Label"),
                leaf("string", "Foo"),
                leaf("key", "KeepAlive"),
                Element { name: "true".to_string(), attributes: vec![], content: Content::Empty },
            ],
        )]),
    };
    assert_eq!(doc, expected);
}

#[test]
fn escape_text_replaces_the_five_reserved_characters() {
    assert_eq!(escape_text("<"), "&lt;");
    assert_eq!(escape_text(">"), "&gt;");
    assert_eq!(escape_text("&"), "&amp;");
    assert_eq!(escape_text("\""), "&quot;");
    assert_eq!(escape_text("'"), "&apos;");
    assert_eq!(escape_text("a<b>c&d\"e'f"), "a&lt;b&gt;c&amp;d&quot;e&apos;f");
    assert_eq!(escape_text("&amp;"), "&amp;amp;");
}

#[test]
fn escape_text_keeps_everything_else() {
    assert_eq!(escape_text(""), "");
    assert_eq!(escape_text("/bin/echo hello"), "/bin/echo hello");
    assert_eq!(escape_text("tab\tnewline\n"), "tab\tnewline\n");
    assert_eq!(escape_text("\u{2603}<\u{e9}"), "\u{2603}&lt;\u{e9}");
}

#[test]
fn write_chars_escapes() {
    let mut w = plist_writer();
    write_chars(&mut w, "a<b & c");
    assert_eq!(String::from_utf8(finish(w)).unwrap(), "a&lt;b &amp; c");
}

#[test]
fn write_element_puts_the_tags_around_the_content() {
    assert_eq!(written(&leaf("string", "x>y")), "<string>x&gt;y</string>");
    assert_eq!(written(&leaf("string", "")), "<string></string>");
    assert_eq!(written(&empty_element("true")), "<true />");
    assert_eq!(written(&node("array", vec![])), "<array />");
    assert_eq!(
        written(&node("array", vec![leaf("string", "a"), node("dict", vec![empty_element("true")])])),
        "<array>\n\t<string>a</string>\n\t<dict>\n\t\t<true />\n\t</dict>\n</array>"
    );
}

#[test]
fn write_element_writes_attributes_in_order() {
    let e = parent_element(
        "plist",
        vec![("version".to_string(), "1.0".to_string()), ("other".to_string(), "2".to_string())],
        vec![],
    );
    assert_eq!(written(&e), "<plist version=\"1.0\" other=\"2\" />");
}

#[test]
fn elements_follow_each_other_on_lines_of_their_own() {
    let mut w = plist_writer();
    write_element(&mut w, &leaf("key", "a"));
    write_element(&mut w, &leaf("string", "b"));
    assert_eq!(String::from_utf8(finish(w)).unwrap(), "<key>a</key>\n<string>b</string>");
}

#[test]
fn render_puts_the_prologue_first() {
    let out = String::from_utf8(render(&empty_element("plist"))).unwrap();
    assert_eq!(out, format!("{}<plist />", PROLOGUE));
    assert_eq!(
        PROLOGUE,
        "<?xml version=\"1.0\" encoding=\"UTF-8\"?>\n<!DOCTYPE plist PUBLIC \"-//Apple//DTD PLIST 1.0//EN\" \"http://www.apple.com/DTDs/PropertyList-1.0.dtd\">\n"
    );
    assert_eq!(PROLOGUE.lines().count(), 2);
}

#[test]
fn render_lays_out_a_whole_document() {
    let env = vec![("FOO".to_string(), "a<b & \"c\"".to_string())];
    let doc = build_document("", &Vec::new(), &env, true, true);
    let expected = format!(
        "{}{}",
        PROLOGUE,
        "<plist version=\"1.0\">\n\
\t<dict>\n\
\t\t<key>Label</key>\n\
\t\t<string></string>\n\
\t\t<key>EnvironmentVariables</key>\n\
\t\t<dict>\n\
\t\t\t<key>FOO</key>\n\
\t\t\t<string>a&lt;b &amp; &quot;c&quot;</string>\n\
\t\t</dict>\n\
\t\t<key>RunAtLoad</key>\n\
\t\t<true />\n\
\t\t<key>KeepAlive</key>\n\
\t\t<true />\n\
\t</dict>\n\
</plist>"
    );
    assert_eq!(String::from_utf8(render(&doc)).unwrap(), expected);
}
