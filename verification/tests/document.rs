// Tests for the document facade: loading, traversal and lookup, on a
// sprite-description document like the ones the library is used for.
// File I/O lives outside the library, so the document text is embedded.

use markup::nodes::Element;
use markup::tokenizer::tokenize;
use markup::Document;

fn sprite_text() -> String {
    let mut s = String::new();
    s.push_str("<?xml version=\"1.0\"?>\n");
    s.push_str("<sprite name=\"player_light\">\n");
    s.push_str("\t<texture file=\"player.png\"/>\n");
    s.push_str("\t<animations>\n");
    s.push_str("\t\t<animation name=\"idle\" frames=\"4\"/>\n");
    s.push_str("\t\t<animation name=\"walk\" frames=\"8\"/>\n");
    s.push_str("\t</animations>\n");
    s.push_str("</sprite>\n");
    s
}

fn load_sprite() -> Document {
    match Document::from_string(&sprite_text()) {
        Ok(doc) => doc,
        Err(e) => panic!("loading failed: {}", e.message()),
    }
}

#[test]
fn parse_file() {
    let xml_doc_test = load_sprite();
    assert_eq!(xml_doc_test.get_root().get_name(), "sprite");
}

#[test]
fn tokenize_string() {
    let string = sprite_text();
    match tokenize(&string) {
        Ok(tokens) => tokens,
        Err(e) => panic!("Tokenizing error: {}", e.message()),
    };
}

#[test]
fn iter_children() {
    let xml_doc_test = load_sprite();

    let mut seen: Vec<String> = Vec::new();
    for child in xml_doc_test.get_root().iter_children() {
        println!("child found: {}", child.get_name());
        seen.push(child.get_name().to_string());
        for child in child.iter_children() {
            println!("child found: {}", child.get_name());
            seen.push(child.get_name().to_string());
        }
    }
    assert_eq!(seen, vec!["texture", "animations", "animation", "animation"]);
}

#[test]
fn get_child() {
    let xml_doc_test = load_sprite();

    let child = match xml_doc_test.get_root().get_child("animations") {
        Some(child) => child,
        None => panic!("child not found!"),
    };

    println!("child found: {}", child.get_name());
    assert_eq!(child.get_name(), "animations");
    assert_eq!(child.get_child_count(), 2);
}

#[test]
fn get_child_first_match() {
    let doc = load_sprite();
    let animations = doc.get_root().get_child("animations").unwrap();
    // two children share the name: the first one wins
    let first = animations.get_child("animation").unwrap();
    let name_attr = first.get_attribute("name").unwrap();
    assert_eq!(name_attr.get_value(), "idle");
    assert!(animations.get_child("nothing_here").is_none());
}

#[test]
fn document_new_root() {
    let doc = Document::new();
    assert_eq!(doc.get_root().get_name(), "root");
    assert_eq!(doc.get_root().get_child_count(), 0);
}

#[test]
fn document_from_element() {
    let e = Element::new("top");
    let doc = Document::from_element(e);
    assert_eq!(doc.get_root().get_name(), "top");
}

#[test]
fn attribute_lookup() {
    let doc = load_sprite();
    let root = doc.get_root();
    let name = root.get_attribute("name").unwrap();
    assert_eq!(name.get_name(), "name");
    assert_eq!(name.get_value(), "player_light");
    assert!(root.get_attribute("absent").is_none());

    let texture = root.get_child("texture").unwrap();
    let file = texture.get_attribute("file").unwrap();
    assert_eq!(file.get_value(), "player.png");
}
