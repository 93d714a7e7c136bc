//! The backup file: writing stored credentials out as XML, and reading them back.
use vstd::prelude::*;
use vstd::string::StringExecFns;
use crate::entry::Entry;
use crate::text::{replaced, replace_all, str_equal};

verus! {

// ---------------------------------------------------------------- writing

/// How a password is written into a backup: `!` becomes `expl`, `@` becomes `aatt`,
/// and `&` is written as the XML entity `&amp;`.
pub open spec fn encoded_password(pw: Seq<char>) -> Seq<char> {
    replaced(replaced(replaced(pw, "!"@, "expl"@), "@"@, "aatt"@), "&"@, "&amp;"@)
}

/// The first line of every backup.
pub open spec fn backup_header() -> Seq<char> {
    "<?xml version=\"1.0\" encoding=\"UTF-8\"?>\n"@
}

/// The record written for one credential.
pub open spec fn record_of(e: (Seq<char>, Seq<char>, Seq<char>)) -> Seq<char> {
    "<backuppasswords>\n"@ + "    <pw>"@ + encoded_password(e.0) + "</pw>\n"@ + "    <username>"@ + e.1
        + "</username>\n"@ + "    <site>"@ + e.2 + "</site>\n"@ + "</backuppasswords>\n"@
}

/// The records of several credentials, one after the other, in order.
pub open spec fn records_of(es: Seq<Entry>) -> Seq<char>
    decreases es.len(),
{
    if es.len() == 0 {
        Seq::empty()
    } else {
        records_of(es.drop_last()) + record_of(es.last()@)
    }
}

/// The whole backup of a list of credentials.
pub open spec fn backup_document_of(es: Seq<Entry>) -> Seq<char> {
    backup_header() + records_of(es)
}

/// How a password is written into a backup.
pub fn encode_password(pw: &str) -> (r: String)
    ensures
        r@ == encoded_password(pw@),
{
    proof {
        reveal_strlit("!");
        reveal_strlit("@");
        reveal_strlit("&");
    }
    let a = replace_all(pw, "!", "expl");
    let b = replace_all(a.as_str(), "@", "aatt");
    replace_all(b.as_str(), "&", "&amp;")
}

/// The backup of a list of credentials.
pub fn backup_document(entries: &Vec<Entry>) -> (r: String)
    ensures
        r@ == backup_document_of(entries@),
{
    let mut x = String::from_str("<?xml version=\"1.0\" encoding=\"UTF-8\"?>\n");
    let mut i: usize = 0;
    assert(entries@.take(0).len() == 0);
    assert(x@ =~= backup_header() + records_of(entries@.take(0)));
    while i < entries.len()
        invariant
            i <= entries.len(),
            x@ == backup_header() + records_of(entries@.take(i as int)),
        decreases entries.len() - i,
    {
        let ghost before = x@;
        let e = &entries[i];
        x.append("<backuppasswords>\n");
        x.append("    <pw>");
        let enc = encode_password(e.password.as_str());
        x.append(enc.as_str());
        x.append("</pw>\n");
        x.append("    <username>");
        x.append(e.username.as_str());
        x.append("</username>\n");
        x.append("    <site>");
        x.append(e.site.as_str());
        x.append("</site>\n");
        x.append("</backuppasswords>\n");
        assert(entries@.take(i + 1).drop_last() =~= entries@.take(i as int));
        assert(entries@.take(i + 1).last() == entries@[i as int]);
        assert(x@ =~= before + record_of(e@));
        i = i + 1;
    }
    assert(entries@.take(entries.len() as int) =~= entries@);
    x
}

// ---------------------------------------------------------------- reading

/// A node of a parsed XML document: the parts of it that reading a backup looks at.
pub enum XmlNode {
    Element(XmlElement),
    Comment(String),
    CData(String),
    Text(String),
    ProcessingInstruction(String, Option<String>),
}

/// An XML element: its local name and its children in document order.
pub struct XmlElement {
    pub name: String,
    pub children: Vec<XmlNode>,
}

/// The top-level nodes that `xmltree` reads from `bytes`, or `None` where it refuses them.
pub uninterp spec fn parsed_xml(bytes: Seq<u8>) -> Option<Seq<XmlNode>>;

#[verifier::external_type_specification]
#[verifier::external_body]
pub struct ExXmlParseError(xmltree::ParseError);

#[verifier::external_type_specification]
#[verifier::external_body]
pub struct ExXmlTreeNode(xmltree::XMLNode);

/// `xmltree::Element::parse_all` on the bytes of a document. What it returns depends on the
/// bytes alone and is named `parsed_xml`; the nodes come back field for field (attributes and
/// namespaces, which reading a backup does not look at, are left out). Nothing is claimed of
/// which documents it accepts.
#[verifier::external_body]
fn parse_xml(bytes: &[u8]) -> (r: Result<Vec<XmlNode>, xmltree::ParseError>)
    ensures
        match r {
            Ok(nodes) => parsed_xml(bytes@) == Some(nodes@),
            Err(_) => parsed_xml(bytes@).is_none(),
        },
{
    let nodes = xmltree::Element::parse_all(bytes)?;
    Ok(nodes.iter().map(xml_node_model).collect())
}

/// Copies one `xmltree::XMLNode`, and everything under it, into an `XmlNode`.
#[verifier::external_body]
fn xml_node_model(node: &xmltree::XMLNode) -> XmlNode {
    match node {
        xmltree::XMLNode::Element(e) => XmlNode::Element(
            XmlElement { name: e.name.clone(), children: e.children.iter().map(xml_node_model).collect() },
        ),
        xmltree::XMLNode::Comment(s) => XmlNode::Comment(s.clone()),
        xmltree::XMLNode::CData(s) => XmlNode::CData(s.clone()),
        xmltree::XMLNode::Text(s) => XmlNode::Text(s.clone()),
        xmltree::XMLNode::ProcessingInstruction(n, d) => XmlNode::ProcessingInstruction(n.clone(), d.clone()),
    }
}

/// Whether `n` is an element called `name`.
pub open spec fn is_element_named(n: XmlNode, name: Seq<char>) -> bool {
    match n {
        XmlNode::Element(e) => e.name@ == name,
        _ => false,
    }
}

/// The position of the first child element called `name`, if there is one
/// (what `xmltree::Element::get_child` finds).
pub fn child_position(e: &XmlElement, name: &str) -> (r: Option<usize>)
    ensures
        match r {
            Some(k) => k < e.children@.len() && is_element_named(e.children@[k as int], name@)
                && forall|j: int| 0 <= j < k ==> !is_element_named(#[trigger] e.children@[j], name@),
            None => forall|j: int| 0 <= j < e.children@.len() ==> !is_element_named(#[trigger] e.children@[j], name@),
        },
{
    let mut k: usize = 0;
    while k < e.children.len()
        invariant
            k <= e.children@.len(),
            forall|j: int| 0 <= j < k ==> !is_element_named(#[trigger] e.children@[j], name@),
        decreases e.children@.len() - k,
    {
        match &e.children[k] {
            XmlNode::Element(c) => {
                if str_equal(c.name.as_str(), name) {
                    return Some(k);
                }
            },
            _ => {},
        }
        k = k + 1;
    }
    None
}

/// The text a node contributes to its parent's text.
pub open spec fn text_piece(n: XmlNode) -> Seq<char> {
    match n {
        XmlNode::Text(s) => s@,
        XmlNode::CData(s) => s@,
        _ => Seq::empty(),
    }
}

/// Whether a node is text (or character data).
pub open spec fn is_text(n: XmlNode) -> bool {
    n is Text || n is CData
}

/// The text and character-data children, joined in order.
pub open spec fn joined_text(ch: Seq<XmlNode>) -> Seq<char>
    decreases ch.len(),
{
    if ch.len() == 0 {
        Seq::empty()
    } else {
        joined_text(ch.drop_last()) + text_piece(ch.last())
    }
}

/// The text of an element: its text children joined, or `None` where it has none
/// (what `xmltree::Element::get_text` gives).
pub open spec fn text_of(e: XmlElement) -> Option<Seq<char>> {
    if exists|j: int| 0 <= j < e.children@.len() && is_text(#[trigger] e.children@[j]) {
        Some(joined_text(e.children@))
    } else {
        None
    }
}

/// The text of an element.
pub fn element_text(e: &XmlElement) -> (r: Option<String>)
    ensures
        match r {
            Some(t) => text_of(*e) == Some(t@),
            None => text_of(*e).is_none(),
        },
{
    let mut out = String::new();
    let mut found = false;
    let mut k: usize = 0;
    assert(e.children@.take(0) =~= Seq::<XmlNode>::empty());
    while k < e.children.len()
        invariant
            k <= e.children@.len(),
            out@ == joined_text(e.children@.take(k as int)),
            found == exists|j: int| 0 <= j < k && is_text(#[trigger] e.children@[j]),
        decreases e.children@.len() - k,
    {
        assert(e.children@.take(k + 1).drop_last() =~= e.children@.take(k as int));
        assert(e.children@.take(k + 1).last() == e.children@[k as int]);
        match &e.children[k] {
            XmlNode::Text(s) => {
                out.append(s.as_str());
                found = true;
            },
            XmlNode::CData(s) => {
                out.append(s.as_str());
                found = true;
            },
            _ => {
                assert(out@ =~= out@ + text_piece(e.children@[k as int]));
            },
        }
        k = k + 1;
    }
    assert(e.children@.take(e.children@.len() as int) =~= e.children@);
    if found {
        Some(out)
    } else {
        None
    }
}

/// A field of a backup record.
#[derive(Clone, Copy, Debug, PartialEq, Eq)]
pub enum BackupField {
    Password,
    Username,
    Site,
}

/// Why a node of a backup is not read as a credential.
#[derive(Clone, Copy, Debug, PartialEq, Eq)]
pub enum ImportFailure {
    /// The node is not an element.
    NotAnElement,
    /// The record has no child element for the field.
    MissingField(BackupField),
    /// The field's element holds no text.
    MissingText(BackupField),
}

/// The element name under which a field is written.
pub open spec fn field_tag(f: BackupField) -> Seq<char> {
    match f {
        BackupField::Password => "pw"@,
        BackupField::Username => "username"@,
        BackupField::Site => "site"@,
    }
}

/// How a password read from a backup is decoded: `expl` becomes `!`, `aatt` becomes `@`,
/// `&amp;` becomes `&`, and double quotes are dropped.
pub open spec fn decoded_password(t: Seq<char>) -> Seq<char> {
    replaced(
        replaced(replaced(replaced(t, "expl"@, "!"@), "aatt"@, "@"@), "&amp;"@, "&"@),
        "\""@,
        Seq::empty(),
    )
}

/// How a user name or site read from a backup is decoded: double quotes are dropped.
pub open spec fn decoded_plain(t: Seq<char>) -> Seq<char> {
    replaced(t, "\""@, Seq::empty())
}

/// Whether `e` has a child element called `name`.
pub open spec fn has_child_named(e: XmlElement, name: Seq<char>) -> bool {
    exists|j: int| 0 <= j < e.children@.len() && is_element_named(#[trigger] e.children@[j], name)
}

/// The first child element called `name`, where there is one.
pub open spec fn first_child_named(e: XmlElement, name: Seq<char>) -> XmlElement {
    let j = choose|j: int|
        0 <= j < e.children@.len() && is_element_named(#[trigger] e.children@[j], name) && forall|i: int|
            0 <= i < j ==> !is_element_named(#[trigger] e.children@[i], name);
    match e.children@[j] {
        XmlNode::Element(c) => c,
        _ => e,
    }
}

/// The raw text of a field of a record, or why it cannot be had.
pub open spec fn field_text(e: XmlElement, f: BackupField) -> Result<Seq<char>, ImportFailure> {
    if !has_child_named(e, field_tag(f)) {
        Err(ImportFailure::MissingField(f))
    } else {
        match text_of(first_child_named(e, field_tag(f))) {
            Some(t) => Ok(t),
            None => Err(ImportFailure::MissingText(f)),
        }
    }
}

/// The credential a top-level node of a backup holds, or why it holds none.
pub open spec fn entry_from_node(n: XmlNode) -> Result<(Seq<char>, Seq<char>, Seq<char>), ImportFailure> {
    match n {
        XmlNode::Element(e) => match field_text(e, BackupField::Password) {
            Err(why) => Err(why),
            Ok(pw) => match field_text(e, BackupField::Username) {
                Err(why) => Err(why),
                Ok(user) => match field_text(e, BackupField::Site) {
                    Err(why) => Err(why),
                    Ok(site) => Ok((decoded_password(pw), decoded_plain(user), decoded_plain(site))),
                },
            },
        },
        _ => Err(ImportFailure::NotAnElement),
    }
}

/// What reading a backup gives: the credentials of the nodes read, in order, and,
/// where a node could not be read, why (the nodes after it are not looked at).
pub struct ImportOutcome {
    pub entries: Vec<Entry>,
    pub failure: Option<ImportFailure>,
}

/// Whether `o` is what reading the top-level nodes `nodes` gives.
pub open spec fn import_result_of(nodes: Seq<XmlNode>, o: ImportOutcome) -> bool {
    &&& forall|i: int| 0 <= i < o.entries@.len() ==> entry_from_node(nodes[i]) == Ok::<_, ImportFailure>(#[trigger] o.entries@[i]@)
    &&& match o.failure {
        None => o.entries@.len() == nodes.len(),
        Some(why) => o.entries@.len() < nodes.len() && entry_from_node(nodes[o.entries@.len() as int]) == Err::<(Seq<char>, Seq<char>, Seq<char>), _>(why),
    }
}

/// Why a backup cannot be read at all.
#[derive(Clone, Copy, Debug, PartialEq, Eq)]
pub enum ImportError {
    /// The bytes are not XML that `xmltree` reads.
    MalformedXml,
}

/// How a password read from a backup is decoded.
pub fn decode_password(t: &str) -> (r: String)
    ensures
        r@ == decoded_password(t@),
{
    proof {
        reveal_strlit("expl");
        reveal_strlit("aatt");
        reveal_strlit("&amp;");
        reveal_strlit("\"");
        reveal_strlit("");
    }
    let a = replace_all(t, "expl", "!");
    let b = replace_all(a.as_str(), "aatt", "@");
    let c = replace_all(b.as_str(), "&amp;", "&");
    let d = replace_all(c.as_str(), "\"", "");
    assert(""@ =~= Seq::<char>::empty());
    d
}

/// How a user name or site read from a backup is decoded.
pub fn decode_plain(t: &str) -> (r: String)
    ensures
        r@ == decoded_plain(t@),
{
    proof {
        reveal_strlit("\"");
        reveal_strlit("");
    }
    let d = replace_all(t, "\"", "");
    assert(""@ =~= Seq::<char>::empty());
    d
}

/// The element name under which a field is written.
pub fn field_tag_name(f: BackupField) -> (r: &'static str)
    ensures
        r@ == field_tag(f),
{
    match f {
        BackupField::Password => "pw",
        BackupField::Username => "username",
        BackupField::Site => "site",
    }
}

/// The raw text of a field of a record, or why it cannot be had.
fn read_field(e: &XmlElement, f: BackupField) -> (r: Result<String, ImportFailure>)
    ensures
        match r {
            Ok(t) => field_text(*e, f) == Ok::<_, ImportFailure>(t@),
            Err(why) => field_text(*e, f) == Err::<Seq<char>, _>(why),
        },
{
    let tag = field_tag_name(f);
    match child_position(e, tag) {
        None => Err(ImportFailure::MissingField(f)),
        Some(k) => {
            let ghost name = field_tag(f);
            proof {
                assert(has_child_named(*e, name));
                let j = choose|j: int|
                    0 <= j < e.children@.len() && is_element_named(#[trigger] e.children@[j], name)
                        && forall|i: int| 0 <= i < j ==> !is_element_named(#[trigger] e.children@[i], name);
                if j < k {
                    assert(!is_element_named(e.children@[j], name));
                }
                if k < j {
                    assert(!is_element_named(e.children@[k as int], name));
                }
                assert(j == k);
            }
            match &e.children[k] {
                XmlNode::Element(c) => match element_text(c) {
                    Some(t) => Ok(t),
                    None => Err(ImportFailure::MissingText(f)),
                },
                _ => {
                    proof {
                        assert(false);
                    }
                    Err(ImportFailure::MissingField(f))
                },
            }
        },
    }
}

/// The credential a top-level node of a backup holds, or why it holds none.
pub fn read_entry(n: &XmlNode) -> (r: Result<Entry, ImportFailure>)
    ensures
        match r {
            Ok(e) => entry_from_node(*n) == Ok::<_, ImportFailure>(e@),
            Err(why) => entry_from_node(*n) == Err::<(Seq<char>, Seq<char>, Seq<char>), _>(why),
        },
{
    match n {
        XmlNode::Element(e) => {
            let pw = read_field(e, BackupField::Password)?;
            let user = read_field(e, BackupField::Username)?;
            let site = read_field(e, BackupField::Site)?;
            Ok(
                Entry {
                    password: decode_password(pw.as_str()),
                    username: decode_plain(user.as_str()),
                    site: decode_plain(site.as_str()),
                },
            )
        },
        _ => Err(ImportFailure::NotAnElement),
    }
}

/// Reads the credentials held by the top-level nodes of a backup, in order, up to the
/// first node that holds none.
pub fn import_entries(nodes: &Vec<XmlNode>) -> (r: ImportOutcome)
    ensures
        import_result_of(nodes@, r),
{
    let mut entries: Vec<Entry> = Vec::new();
    let mut i: usize = 0;
    while i < nodes.len()
        invariant
            i <= nodes@.len(),
            entries@.len() == i,
            forall|j: int| 0 <= j < i ==> entry_from_node(nodes@[j]) == Ok::<_, ImportFailure>(#[trigger] entries@[j]@),
        decreases nodes@.len() - i,
    {
        match read_entry(&nodes[i]) {
            Ok(e) => {
                entries.push(e);
            },
            Err(why) => {
                return ImportOutcome { entries, failure: Some(why) };
            },
        }
        i = i + 1;
    }
    ImportOutcome { entries, failure: None }
}

/// Reads a backup from the bytes of its file.
pub fn import_backup(bytes: &[u8]) -> (r: Result<ImportOutcome, ImportError>)
    ensures
        match parsed_xml(bytes@) {
            None => r == Err::<ImportOutcome, _>(ImportError::MalformedXml),
            Some(nodes) => r matches Ok(o) && import_result_of(nodes, o),
        },
{
    match parse_xml(bytes) {
        Ok(nodes) => Ok(import_entries(&nodes)),
        Err(_) => Err(ImportError::MalformedXml),
    }
}

} // verus!
