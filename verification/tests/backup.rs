use knapsack::backup::{
    backup_document, child_position, decode_password, decode_plain, element_text, encode_password,
    field_tag_name, import_backup, import_entries, read_entry, BackupField, ImportError, ImportFailure,
    XmlElement, XmlNode,
};
use knapsack::entry::Entry;

fn entry(p: &str, u: &str, s: &str) -> Entry {
    Entry { password: p.to_string(), username: u.to_string(), site: s.to_string() }
}

#[test]
fn password_encoding() {
    assert_eq!(encode_password("a!b@c&d"), "aexplbaattc&amp;d");
    assert_eq!(encode_password("plain"), "plain");
}

#[test]
fn password_decoding() {
    assert_eq!(decode_password("aexplbaattc&amp;d\""), "a!b@c&d");
    assert_eq!(decode_password("aexplbaattc&d"), "a!b@c&d");
    assert_eq!(decode_plain("\"me\""), "me");
}

#[test]
fn password_layer_round_trip_example() {
    for pw in ["a!b@c&d", "!!@@", "ex!pl", "aat@", "x"] {
        let without_entities = encode_password(pw).replace("&amp;", "&");
        assert_eq!(decode_password(&without_entities), pw);
    }
}

#[test]
fn plain_field_round_trip_example() {
    for t in ["me", "site.org", "a b&c"] {
        assert_eq!(decode_plain(t), t);
    }
}

#[test]
fn backup_document_layout() {
    let doc = backup_document(&vec![entry("p!", "me", "site"), entry("q@", "you", "web")]);
    let expected = "<?xml version=\"1.0\" encoding=\"UTF-8\"?>\n\
<backuppasswords>\n    <pw>pexpl</pw>\n    <username>me</username>\n    <site>site</site>\n</backuppasswords>\n\
<backuppasswords>\n    <pw>qaatt</pw>\n    <username>you</username>\n    <site>web</site>\n</backuppasswords>\n";
    assert_eq!(doc, expected);
    assert_eq!(backup_document(&Vec::new()), "<?xml version=\"1.0\" encoding=\"UTF-8\"?>\n");
}

#[test]
fn backup_round_trip_through_xml() {
    let entries = vec![entry("a!b@c&d", "me", "site.org"), entry("Zz9#", "you", "web")];
    let doc = backup_document(&entries);
    let out = import_backup(doc.as_bytes()).ok().unwrap();
    assert!(out.failure.is_none());
    assert_eq!(out.entries.len(), 2);
    assert_eq!(out.entries[0].password, "a!b@c&d");
    assert_eq!(out.entries[0].username, "me");
    assert_eq!(out.entries[0].site, "site.org");
    assert_eq!(out.entries[1].password, "Zz9#");
}

#[test]
fn malformed_backup_is_refused() {
    assert_eq!(import_backup(b"<backuppasswords><pw>x</pw>").err(), Some(ImportError::MalformedXml));
}

#[test]
fn comment_at_top_is_not_an_element() {
    let out = import_backup(b"<!-- c --><backuppasswords><pw>p</pw><username>u</username><site>s</site></backuppasswords>")
        .ok()
        .unwrap();
    assert!(out.entries.is_empty());
    assert_eq!(out.failure, Some(ImportFailure::NotAnElement));
}

#[test]
fn missing_fields_and_texts() {
    let out = import_backup(b"<r><username>u</username><site>s</site></r>").ok().unwrap();
    assert_eq!(out.failure, Some(ImportFailure::MissingField(BackupField::Password)));
    let out = import_backup(b"<r><pw>p</pw><username></username><site>s</site></r>").ok().unwrap();
    assert_eq!(out.failure, Some(ImportFailure::MissingText(BackupField::Username)));
    let out = import_backup(b"<r><pw>p</pw><username>u</username></r>").ok().unwrap();
    assert_eq!(out.failure, Some(ImportFailure::MissingField(BackupField::Site)));
    let out = import_backup(b"<r><pw></pw><username>u</username><site>s</site></r>").ok().unwrap();
    assert_eq!(out.failure, Some(ImportFailure::MissingText(BackupField::Password)));
    let out = import_backup(b"<r><pw>p</pw><site>s</site></r>").ok().unwrap();
    assert_eq!(out.failure, Some(ImportFailure::MissingField(BackupField::Username)));
    let out = import_backup(b"<r><pw>p</pw><username>u</username><site/></r>").ok().unwrap();
    assert_eq!(out.failure, Some(ImportFailure::MissingText(BackupField::Site)));
}

#[test]
fn entries_before_a_failure_are_kept() {
    let out = import_backup(
        b"<r><pw>aexpl</pw><username>\"u\"</username><site>s</site></r><r><pw>x</pw></r><r><pw>y</pw><username>v</username><site>t</site></r>",
    )
    .ok()
    .unwrap();
    assert_eq!(out.entries.len(), 1);
    assert_eq!(out.entries[0].password, "a!");
    assert_eq!(out.entries[0].username, "u");
    assert_eq!(out.failure, Some(ImportFailure::MissingField(BackupField::Username)));
}

fn text(s: &str) -> XmlNode {
    XmlNode::Text(s.to_string())
}

fn elem(name: &str, children: Vec<XmlNode>) -> XmlElement {
    XmlElement { name: name.to_string(), children }
}

#[test]
fn child_lookup_and_text() {
    let e = elem(
        "r",
        vec![
            XmlNode::Comment("c".to_string()),
            XmlNode::Element(elem("pw", vec![text("a"), XmlNode::CData("b".to_string()), text("c")])),
            XmlNode::Element(elem("pw", vec![text("second")])),
        ],
    );
    assert_eq!(child_position(&e, "pw"), Some(1));
    assert_eq!(child_position(&e, "site"), None);
    match &e.children[1] {
        XmlNode::Element(c) => assert_eq!(element_text(c), Some("abc".to_string())),
        _ => panic!("expected element"),
    }
    assert_eq!(element_text(&elem("x", vec![XmlNode::Comment("c".to_string())])), None);
    assert_eq!(field_tag_name(BackupField::Site), "site");
}

#[test]
fn reading_model_nodes() {
    let record = XmlNode::Element(elem(
        "backuppasswords",
        vec![
            XmlNode::Element(elem("pw", vec![text("aattx")])),
            XmlNode::Element(elem("username", vec![text("me")])),
            XmlNode::Element(elem("site", vec![text("s")])),
        ],
    ));
    let e = read_entry(&record).ok().unwrap();
    assert_eq!(e.password, "@x");
    assert_eq!(read_entry(&text("t")).err(), Some(ImportFailure::NotAnElement));
    let out = import_entries(&vec![record, text("t")]);
    assert_eq!(out.entries.len(), 1);
    assert_eq!(out.failure, Some(ImportFailure::NotAnElement));
}
