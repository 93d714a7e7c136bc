//! Properties that relate several functions of the library.
use vstd::prelude::*;
use crate::text::{
    lemma_no_occurs_extend, lemma_replaced_absent, lemma_replaced_prefix, lemma_replaced_single,
    lemma_subst_keeps_absent, lemma_subst_avoiding, lemma_subst_concat,
    lemma_replaced_step, lemma_short_no_occurs, lemma_subst_starts, starts, avoids, lemma_undouble, occurs, replaced, subst,
};
use crate::rows::{label_of, shade_of, top_of, unlabelled, RowShade};
use crate::sql::{delete_statement_of, insert_statement_of, quoted, save_rejection, update_statement_of};
use crate::backup::{
    backup_document_of, record_of, records_of,
    decoded_password, decoded_plain, entry_from_node, field_text, first_child_named, has_child_named,
    import_result_of, is_element_named, is_text, joined_text, text_of, BackupField, ImportOutcome, XmlNode,
};
use crate::entry::Entry;

verus! {

/// A password that does not contain `&amp` reads back as itself once its label is unescaped.
pub proof fn law_label_roundtrip(pw: Seq<char>)
    requires
        !occurs(pw, "&amp"@),
    ensures
        unlabelled(label_of(pw)) == pw,
{
    reveal_strlit("@");
    reveal_strlit("@@");
    reveal_strlit("&amp");
    reveal_strlit("&amp;");
    reveal_strlit("&");
    reveal_strlit("&&");
    reveal_strlit(";");
    let at2 = seq!['@', '@'];
    let amp2 = seq!['&', '&'];
    assert("@"@ =~= seq!['@']);
    assert("@@"@ =~= at2);
    assert("&"@ =~= seq!['&']);
    assert("&&"@ =~= amp2);
    let amp = "&amp"@;
    lemma_replaced_single(pw, '@', at2);
    let d = subst(pw, '@', at2);
    assert(!amp.contains('@'));
    assert forall|k: int| 0 <= k < at2.len() implies !amp.contains(#[trigger] at2[k]) by {
        assert(!amp.contains('@'));
    }
    lemma_subst_keeps_absent(pw, amp, '@', at2);
    lemma_replaced_absent(d, amp, "@@"@);
    assert("&amp;"@ =~= amp + ";"@);
    lemma_no_occurs_extend(d, amp, ";"@);
    lemma_replaced_absent(d, "&amp;"@, "&&"@);
    lemma_replaced_single(d, '&', amp2);
    lemma_undouble(d, '&');
    lemma_undouble(pw, '@');
}

/// Changing the password of a row changes the row's own password, when that password does
/// not contain `&amp`: the statement finds the row by the password it was labelled from.
pub proof fn law_update_targets_password(new_pw: Seq<char>, pw: Seq<char>)
    requires
        !occurs(pw, "&amp"@),
    ensures
        update_statement_of(new_pw, label_of(pw)) == "UPDATE password SET pw = '"@ + quoted(new_pw)
            + "' WHERE pw = '"@ + quoted(pw) + "';"@,
{
    law_label_roundtrip(pw);
}

/// A quoted value reads back as itself once every `''` is taken as one `'`.
pub proof fn law_sql_quote_roundtrip(s: Seq<char>)
    ensures
        replaced(quoted(s), "''"@, "'"@) == s,
{
    reveal_strlit("'");
    reveal_strlit("''");
    assert("'"@ =~= seq!['\''])
    ;
    assert("''"@ =~= seq!['\'', '\'']);
    lemma_replaced_single(s, '\'', seq!['\'', '\'']);
    lemma_undouble(s, '\'');
}

/// The token a password character is written as, before XML escaping.
spec fn token(c: char) -> Seq<char> {
    if c == '!' {
        seq!['e', 'x', 'p', 'l']
    } else if c == '@' {
        seq!['a', 'a', 't', 't']
    } else {
        seq![c]
    }
}

/// A password with `!` and `@` written as their tokens.
spec fn tokens_of(pw: Seq<char>) -> Seq<char> {
    subst(subst(pw, '!', seq!['e', 'x', 'p', 'l']), '@', seq!['a', 'a', 't', 't'])
}

proof fn lemma_tokens_head(pw: Seq<char>)
    requires
        pw.len() > 0,
    ensures
        tokens_of(pw) == token(pw[0]) + tokens_of(pw.drop_first()),
{
    let e = seq!['e', 'x', 'p', 'l'];
    let a = seq!['a', 'a', 't', 't'];
    let rest = pw.drop_first();
    let h = if pw[0] == '!' { e } else { seq![pw[0]] };
    assert(subst(pw, '!', e) == h + subst(rest, '!', e));
    lemma_subst_concat(h, subst(rest, '!', e), '@', a);
    if pw[0] == '!' {
        lemma_subst_avoiding(e, '@', a);
    } else {
        let one = seq![pw[0]];
        assert(one.drop_first() =~= Seq::<char>::empty());
        assert(subst(one.drop_first(), '@', a) =~= Seq::<char>::empty());
        if pw[0] == '@' {
            assert(subst(one, '@', a) =~= a);
        } else {
            assert(subst(one, '@', a) =~= one);
        }
    }
}

proof fn lemma_tokens_starts(t: Seq<char>, q: Seq<char>)
    requires
        starts(tokens_of(t), q),
        forall|k: int| 0 <= k < q.len() ==> #[trigger] q[k] != 'e' && q[k] != 'a',
    ensures
        starts(t, q),
    decreases q.len(),
{
    if q.len() == 0 {
        assert(t.take(0) =~= q);
    } else {
        let u = tokens_of(t);
        assert(u.take(q.len() as int)[0] == q[0]);
        if t.len() == 0 {
            assert(subst(t, '!', seq!['e', 'x', 'p', 'l']).len() == 0);
            assert(false);
        }
        lemma_tokens_head(t);
        let h = token(t[0]);
        assert(u[0] == h[0]);
        assert(h =~= seq![t[0]]);
        let t1 = t.drop_first();
        let q1 = q.drop_first();
        assert(u.drop_first() =~= tokens_of(t1));
        assert(tokens_of(t1).take(q1.len() as int) =~= u.take(q.len() as int).drop_first());
        assert(forall|k: int| 0 <= k < q1.len() ==> q1[k] == q[k + 1]);
        lemma_tokens_starts(t1, q1);
        assert(t.take(q.len() as int) =~= seq![t[0]] + t1.take(q1.len() as int));
        assert(q =~= seq![q[0]] + q1);
    }
}

proof fn lemma_untoken_expl(pw: Seq<char>)
    requires
        !occurs(pw, seq!['e', 'x', 'p', 'l']),
    ensures
        replaced(tokens_of(pw), seq!['e', 'x', 'p', 'l'], seq!['!']) == subst(pw, '@', seq!['a', 'a', 't', 't']),
    decreases pw.len(),
{
    let e = seq!['e', 'x', 'p', 'l'];
    let a = seq!['a', 'a', 't', 't'];
    let bang = seq!['!'];
    let u = tokens_of(pw);
    if pw.len() == 0 {
        assert(subst(pw, '!', e).len() == 0);
    } else {
        let rest = pw.drop_first();
        if pw.len() >= 4 {
            assert(!occurs(rest, e));
        } else {
            lemma_short_no_occurs(rest, e);
        }
        lemma_untoken_expl(rest);
        lemma_tokens_head(pw);
        let ur = tokens_of(rest);
        if pw[0] == '!' {
            assert(u.take(4) =~= e);
            assert(u.skip(4) =~= ur);
        } else if pw[0] == '@' {
            assert(avoids(a, e[0]));
            lemma_replaced_prefix(a, ur, e, bang);
        } else if pw[0] != 'e' {
            assert(avoids(seq![pw[0]], e[0]));
            lemma_replaced_prefix(seq![pw[0]], ur, e, bang);
        } else {
            assert(u =~= seq!['e'] + ur);
            if u.len() >= 4 && u.take(4) == e {
                let q = seq!['x', 'p', 'l'];
                assert(ur.take(3) =~= u.take(4).drop_first());
                assert(ur.take(3) =~= q);
                lemma_tokens_starts(rest, q);
                assert(pw.take(4) =~= seq!['e'] + rest.take(3));
                assert(pw.take(4) =~= e);
                assert(false);
            }
            if u.len() >= 4 {
                assert(u.drop_first() =~= ur);
            } else {
                lemma_short_no_occurs(u, e);
                lemma_replaced_absent(u, e, bang);
                lemma_short_no_occurs(ur, e);
                lemma_replaced_absent(ur, e, bang);
            }
        }
    }
}

proof fn lemma_untoken_aatt(pw: Seq<char>)
    requires
        !occurs(pw, seq!['a', 'a', 't', 't']),
    ensures
        replaced(subst(pw, '@', seq!['a', 'a', 't', 't']), seq!['a', 'a', 't', 't'], seq!['@']) == pw,
    decreases pw.len(),
{
    let a = seq!['a', 'a', 't', 't'];
    let at = seq!['@'];
    let v = subst(pw, '@', a);
    if pw.len() > 0 {
        let rest = pw.drop_first();
        if pw.len() >= 4 {
            assert(!occurs(rest, a));
        } else {
            lemma_short_no_occurs(rest, a);
        }
        lemma_untoken_aatt(rest);
        let vr = subst(rest, '@', a);
        if pw[0] == '@' {
            assert(v.take(4) =~= a);
            assert(v.skip(4) =~= vr);
            assert(at + rest =~= pw);
        } else if pw[0] != 'a' {
            lemma_replaced_step(v, a, at);
            assert(v.drop_first() =~= vr);
            assert(seq![pw[0]] + rest =~= pw);
        } else {
            assert(v =~= seq!['a'] + vr);
            if v.len() >= 4 && v.take(4) == a {
                assert(vr.take(3) =~= v.take(4).drop_first());
                assert(vr.take(3) =~= seq!['a', 't', 't']);
                if rest.len() == 0 {
                    assert(vr.len() == 0);
                    assert(false);
                }
                if rest[0] == '@' {
                    assert(vr =~= a + subst(rest.drop_first(), '@', a));
                    assert(vr[1] == 'a');
                    assert(false);
                }
                let r1 = rest.drop_first();
                assert(vr =~= seq![rest[0]] + subst(r1, '@', a));
                let q = seq!['t', 't'];
                assert(subst(r1, '@', a).len() >= 2);
                assert(vr.take(3).drop_first() =~= q);
                assert(subst(r1, '@', a).take(2) =~= vr.take(3).drop_first());
                assert(starts(subst(r1, '@', a), q));
                lemma_subst_starts(r1, q, '@', a);
                assert(pw.take(4) =~= seq!['a', rest[0]] + r1.take(2));
                assert(pw.take(4) =~= a);
                assert(false);
            }
            if v.len() >= 4 {
                assert(v.drop_first() =~= vr);
            } else {
                lemma_short_no_occurs(v, a);
                lemma_replaced_absent(v, a, at);
                lemma_short_no_occurs(vr, a);
                lemma_replaced_absent(vr, a, at);
            }
            assert(seq!['a'] + rest =~= pw);
        }
    }
}

/// A password that contains none of `expl`, `aatt`, `&amp;` and `"` is read back from a
/// backup as itself: the password is written (`encoded_password`) with `!` as `expl`, `@` as
/// `aatt` and `&` as the entity `&amp;`; the XML reader turns `&amp;` back into `&`, and
/// decoding the text it hands over gives the password.
pub proof fn law_backup_password_roundtrip(pw: Seq<char>)
    requires
        !occurs(pw, "expl"@),
        !occurs(pw, "aatt"@),
        !occurs(pw, "&amp;"@),
        !occurs(pw, "\""@),
    ensures
        decoded_password(replaced(replaced(pw, "!"@, "expl"@), "@"@, "aatt"@)) == pw,
{
    reveal_strlit("!");
    reveal_strlit("@");
    reveal_strlit("expl");
    reveal_strlit("aatt");
    reveal_strlit("&amp;");
    reveal_strlit("\"");
    let e = seq!['e', 'x', 'p', 'l'];
    let a = seq!['a', 'a', 't', 't'];
    assert("!"@ =~= seq!['!']);
    assert("@"@ =~= seq!['@']);
    assert("expl"@ =~= e);
    assert("aatt"@ =~= a);
    lemma_replaced_single(pw, '!', e);
    lemma_replaced_single(subst(pw, '!', e), '@', a);
    lemma_untoken_expl(pw);
    lemma_untoken_aatt(pw);
    lemma_replaced_absent(pw, "&amp;"@, "&"@);
    lemma_replaced_absent(pw, "\""@, Seq::empty());
}

/// A user name or site without double quotes is read back from a backup as itself.
pub proof fn law_backup_plain_roundtrip(t: Seq<char>)
    requires
        !occurs(t, "\""@),
    ensures
        decoded_plain(t) == t,
{
    reveal_strlit("\"");
    lemma_replaced_absent(t, "\""@, Seq::empty());
}

/// The text an XML reader hands back for a password written into a backup: the written
/// form with the entity `&amp;` read as `&`.
pub open spec fn password_text(pw: Seq<char>) -> Seq<char> {
    replaced(replaced(pw, "!"@, "expl"@), "@"@, "aatt"@)
}

/// Whether `n` is an element called `name` whose one child is the text `text`.
pub open spec fn text_element(n: XmlNode, name: Seq<char>, text: Seq<char>) -> bool {
    match n {
        XmlNode::Element(e) => e.name@ == name && e.children@.len() == 1 && match e.children@[0] {
            XmlNode::Text(t) => t@ == text,
            _ => false,
        },
        _ => false,
    }
}

/// Whether `n` is the node an XML reader yields for the record of credential `e` in a backup
/// (the indentation between the fields is whitespace, which the reader drops).
pub open spec fn record_node(n: XmlNode, e: (Seq<char>, Seq<char>, Seq<char>)) -> bool {
    match n {
        XmlNode::Element(r) => {
            &&& r.name@ == "backuppasswords"@
            &&& r.children@.len() == 3
            &&& text_element(r.children@[0], "pw"@, password_text(e.0))
            &&& text_element(r.children@[1], "username"@, e.1)
            &&& text_element(r.children@[2], "site"@, e.2)
        },
        _ => false,
    }
}

/// Whether a credential survives a backup: its password holds none of `expl`, `aatt`,
/// `&amp;` and `"`, and its user name and site hold no `"`.
pub open spec fn survives_backup(e: (Seq<char>, Seq<char>, Seq<char>)) -> bool {
    &&& !occurs(e.0, "expl"@)
    &&& !occurs(e.0, "aatt"@)
    &&& !occurs(e.0, "&amp;"@)
    &&& !occurs(e.0, "\""@)
    &&& !occurs(e.1, "\""@)
    &&& !occurs(e.2, "\""@)
}

proof fn lemma_text_element_reads(n: XmlNode, name: Seq<char>, text: Seq<char>)
    requires
        text_element(n, name, text),
    ensures
        n matches XmlNode::Element(c) && text_of(c) == Some(text),
{
    if let XmlNode::Element(c) = n {
        assert(is_text(c.children@[0]));
        assert(c.children@.drop_last() =~= Seq::<XmlNode>::empty());
        assert(joined_text(c.children@.drop_last()) =~= Seq::<char>::empty());
        assert(c.children@.last() == c.children@[0]);
        assert(joined_text(c.children@) =~= text);
    }
}

proof fn lemma_record_reads(n: XmlNode, e: (Seq<char>, Seq<char>, Seq<char>))
    requires
        record_node(n, e),
        survives_backup(e),
    ensures
        entry_from_node(n) == Ok::<_, crate::backup::ImportFailure>(e),
{
    reveal_strlit("pw");
    reveal_strlit("username");
    reveal_strlit("site");
    if let XmlNode::Element(r) = n {
        let ch = r.children@;
        assert("pw"@ != "username"@) by { assert("pw"@.len() != "username"@.len()); }
        assert("pw"@ != "site"@) by { assert("pw"@[0] != "site"@[0]); }
        assert("username"@ != "site"@) by { assert("username"@.len() != "site"@.len()); }
        assert(is_element_named(ch[0], "pw"@));
        assert(is_element_named(ch[1], "username"@));
        assert(is_element_named(ch[2], "site"@));
        assert(!is_element_named(ch[0], "username"@));
        assert(!is_element_named(ch[0], "site"@));
        assert(!is_element_named(ch[1], "site"@));
        assert(!is_element_named(ch[1], "pw"@));
        assert(!is_element_named(ch[2], "pw"@));
        assert(!is_element_named(ch[2], "username"@));
        assert(has_child_named(r, "pw"@));
        assert(has_child_named(r, "username"@));
        assert(has_child_named(r, "site"@));
        lemma_text_element_reads(ch[0], "pw"@, password_text(e.0));
        lemma_text_element_reads(ch[1], "username"@, e.1);
        lemma_text_element_reads(ch[2], "site"@, e.2);
        assert(first_child_named(r, "pw"@) == ch[0]->Element_0);
        assert(first_child_named(r, "username"@) == ch[1]->Element_0);
        assert(first_child_named(r, "site"@) == ch[2]->Element_0);
        assert(field_text(r, BackupField::Password) == Ok::<_, crate::backup::ImportFailure>(password_text(e.0)));
        assert(field_text(r, BackupField::Username) == Ok::<_, crate::backup::ImportFailure>(e.1));
        assert(field_text(r, BackupField::Site) == Ok::<_, crate::backup::ImportFailure>(e.2));
        law_backup_password_roundtrip(e.0);
        law_backup_plain_roundtrip(e.1);
        law_backup_plain_roundtrip(e.2);
    }
}

/// Reading back the records of a backup gives back the credentials that were written, in
/// order and with nothing left out, when every credential survives a backup: whatever
/// outcome reading the nodes an XML reader yields for `backup_document_of(es)` has, it is
/// exactly `es`.
pub proof fn law_backup_records_roundtrip(es: Seq<Entry>, nodes: Seq<XmlNode>, o: ImportOutcome)
    requires
        nodes.len() == es.len(),
        forall|i: int| 0 <= i < es.len() ==> survives_backup(#[trigger] es[i]@) && record_node(nodes[i], es[i]@),
        import_result_of(nodes, o),
    ensures
        o.failure.is_none(),
        o.entries@.len() == es.len(),
        forall|i: int| 0 <= i < es.len() ==> #[trigger] o.entries@[i]@ == es[i]@,
{
    assert forall|i: int| 0 <= i < es.len() implies entry_from_node(nodes[i]) == Ok::<_, crate::backup::ImportFailure>(#[trigger] es[i]@) by {
        lemma_record_reads(nodes[i], es[i]@);
    }
    if let Some(why) = o.failure {
        let k = o.entries@.len() as int;
        assert(entry_from_node(nodes[k]) == Ok::<_, crate::backup::ImportFailure>(es[k]@));
        assert(false);
    }
    assert forall|i: int| 0 <= i < es.len() implies #[trigger] o.entries@[i]@ == es[i]@ by {
        assert(entry_from_node(nodes[i]) == Ok::<_, crate::backup::ImportFailure>(o.entries@[i]@));
        assert(entry_from_node(nodes[i]) == Ok::<_, crate::backup::ImportFailure>(es[i]@));
    }
}

// ---------------------------------------------------------------- what each operation is for

/// A row's label shows the password itself: only `@` and `&` are doubled (so that the
/// toolkit shows them as themselves); every other character stays as it is.
pub proof fn law_label_doubles_only_at_and_amp(pw: Seq<char>)
    requires
        !occurs(pw, "&amp"@),
    ensures
        label_of(pw) == subst(subst(pw, '@', seq!['@', '@']), '&', seq!['&', '&']),
{
    reveal_strlit("@");
    reveal_strlit("@@");
    reveal_strlit("&amp");
    reveal_strlit("&amp;");
    reveal_strlit("&");
    reveal_strlit("&&");
    reveal_strlit(";");
    let at2 = seq!['@', '@'];
    let amp2 = seq!['&', '&'];
    assert("@"@ =~= seq!['@']);
    assert("@@"@ =~= at2);
    assert("&"@ =~= seq!['&']);
    assert("&&"@ =~= amp2);
    let amp = "&amp"@;
    lemma_replaced_single(pw, '@', at2);
    let d = subst(pw, '@', at2);
    assert forall|k: int| 0 <= k < at2.len() implies !amp.contains(#[trigger] at2[k]) by {
        assert(!amp.contains('@'));
    }
    assert(!amp.contains('@'));
    lemma_subst_keeps_absent(pw, amp, '@', at2);
    lemma_replaced_absent(d, amp, "@@"@);
    assert("&amp;"@ =~= amp + ";"@);
    lemma_no_occurs_extend(d, amp, ";"@);
    lemma_replaced_absent(d, "&amp;"@, "&&"@);
    lemma_replaced_single(d, '&', amp2);
}

/// The text an SQL string literal stands for: every `''` read as one `'`.
pub open spec fn literal_value(body: Seq<char>) -> Seq<char> {
    replaced(body, "''"@, "'"@)
}

/// Whether `body` is a well-formed SQL literal body: its quotes come in pairs, so that
/// writing its value back gives the body again.
pub open spec fn well_formed_literal(body: Seq<char>) -> bool {
    replaced(literal_value(body), "'"@, "''"@) == body
}

proof fn lemma_quoted_is_literal(v: Seq<char>)
    ensures
        literal_value(quoted(v)) == v,
        well_formed_literal(quoted(v)),
{
    law_sql_quote_roundtrip(v);
}

/// The delete statement of a password removes exactly the row holding that password: it is
/// `DELETE FROM password WHERE pw = '…';` around a well-formed literal whose value is the
/// password itself.
pub proof fn law_delete_targets_password(pw: Seq<char>)
    ensures
        exists|lit: Seq<char>|
            delete_statement_of(pw) == "DELETE FROM password WHERE pw = '"@ + lit + "';"@ && well_formed_literal(lit)
                && #[trigger] literal_value(lit) == pw,
{
    lemma_quoted_is_literal(pw);
    assert(delete_statement_of(pw) == "DELETE FROM password WHERE pw = '"@ + quoted(pw) + "';"@);
    assert(literal_value(quoted(pw)) == pw);
}

/// A stored credential is stored as it is: the insert statement is
/// `INSERT INTO password VALUES ('…', '…', '…')` around three well-formed literals whose
/// values are the password, the user name and the site themselves.
pub proof fn law_insert_stores_fields(pw: Seq<char>, username: Seq<char>, site: Seq<char>)
    ensures
        exists|l1: Seq<char>, l2: Seq<char>, l3: Seq<char>|
            insert_statement_of(pw, username, site) == "INSERT INTO password VALUES ('"@ + l1 + "', '"@ + l2
                + "', '"@ + l3 + "')"@ && well_formed_literal(l1) && well_formed_literal(l2) && well_formed_literal(l3)
                && #[trigger] literal_value(l1) == pw && #[trigger] literal_value(l2) == username
                && #[trigger] literal_value(l3) == site,
{
    lemma_quoted_is_literal(pw);
    lemma_quoted_is_literal(username);
    lemma_quoted_is_literal(site);
    assert(literal_value(quoted(pw)) == pw);
    assert(literal_value(quoted(username)) == username);
    assert(literal_value(quoted(site)) == site);
}

/// Only the password `password` itself is refused as the placeholder, and a credential with
/// all three fields filled is stored unless its password is exactly that word.
pub proof fn law_save_refuses_only_placeholder_or_empty(pw: Seq<char>, username: Seq<char>, site: Seq<char>)
    ensures
        save_rejection(pw, username, site) == Some(crate::sql::SaveRejection::PasswordIsPlaceholder) <==> pw
            == "password"@,
        save_rejection(pw, username, site).is_none() <==> (pw != "password"@ && pw.len() > 0 && username.len() > 0
            && site.len() > 0),
{
}

proof fn lemma_occurs_inside(x: Seq<char>, p: Seq<char>, y: Seq<char>)
    requires
        p.len() > 0,
    ensures
        occurs(x + p + y, p),
    decreases x.len(),
{
    if x.len() == 0 {
        assert(x + p + y =~= p + y);
        assert((p + y).take(p.len() as int) =~= p);
    } else {
        assert((x + p + y).drop_first() =~= x.drop_first() + p + y);
        lemma_occurs_inside(x.drop_first(), p, y);
    }
}

proof fn lemma_records_concat(a: Seq<Entry>, b: Seq<Entry>)
    ensures
        records_of(a + b) == records_of(a) + records_of(b),
    decreases b.len(),
{
    if b.len() == 0 {
        assert(a + b =~= a);
        assert(records_of(a) + records_of(b) =~= records_of(a));
    } else {
        assert((a + b).drop_last() =~= a + b.drop_last());
        assert((a + b).last() == b.last());
        lemma_records_concat(a, b.drop_last());
        assert(records_of(a) + (records_of(b.drop_last()) + record_of(b.last()@)) =~= records_of(a)
            + records_of(b.drop_last()) + record_of(b.last()@));
    }
}

/// Every credential's user name and site are written into its backup record as they are,
/// each in its own element.
pub proof fn law_backup_writes_username_and_site(es: Seq<Entry>, i: int)
    requires
        0 <= i < es.len(),
    ensures
        occurs(backup_document_of(es), "    <username>"@ + es[i].username@ + "</username>\n"@),
        occurs(backup_document_of(es), "    <site>"@ + es[i].site@ + "</site>\n"@),
{
    reveal_strlit("    <username>");
    reveal_strlit("    <site>");
    let e = es[i]@;
    let before = es.take(i);
    let after = es.skip(i + 1);
    assert(es =~= before + seq![es[i]] + after);
    lemma_records_concat(before + seq![es[i]], after);
    lemma_records_concat(before, seq![es[i]]);
    assert(seq![es[i]].drop_last() =~= Seq::<Entry>::empty());
    assert(records_of(Seq::<Entry>::empty()) =~= Seq::<char>::empty());
    assert(seq![es[i]].last() == es[i]);
    assert(records_of(seq![es[i]]) =~= record_of(e));
    let u = "    <username>"@ + e.1 + "</username>\n"@;
    let st = "    <site>"@ + e.2 + "</site>\n"@;
    let head = "<backuppasswords>\n"@ + "    <pw>"@ + crate::backup::encoded_password(e.0) + "</pw>\n"@;
    let tail = "</backuppasswords>\n"@;
    assert(record_of(e) =~= head + u + st + tail);
    let doc = backup_document_of(es);
    let x = crate::backup::backup_header() + records_of(before);
    let z = records_of(after);
    assert(doc =~= (x + head) + u + (st + tail + z));
    lemma_occurs_inside(x + head, u, st + tail + z);
    assert(doc =~= (x + head + u) + st + (tail + z));
    lemma_occurs_inside(x + head + u, st, tail + z);
}

proof fn lemma_untoken_leading(t: Seq<char>, c: char, r: Seq<char>)
    requires
        r.len() > 0,
        r[0] == c,
    ensures
        replaced(subst(t, c, r), r, seq![c]) == t,
    decreases t.len(),
{
    if t.len() > 0 {
        let rest = t.drop_first();
        lemma_untoken_leading(rest, c, r);
        let e = subst(t, c, r);
        let er = subst(rest, c, r);
        if t[0] == c {
            assert(e.take(r.len() as int) =~= r);
            assert(e.skip(r.len() as int) =~= er);
            assert(seq![c] + rest =~= t);
        } else {
            lemma_replaced_step(e, r, seq![c]);
            assert(e.drop_first() =~= er);
            assert(seq![t[0]] + rest =~= t);
        }
    }
}

/// The password a backup holds, once the XML entity `&amp;` is read as `&`, is the password
/// with `!` written as `expl` and `@` as `aatt`, and nothing else changed.
pub proof fn law_backup_password_text(pw: Seq<char>)
    ensures
        replaced(crate::backup::encoded_password(pw), "&amp;"@, "&"@) == password_text(pw),
{
    reveal_strlit("&");
    reveal_strlit("&amp;");
    assert("&"@ =~= seq!['&']);
    let t = password_text(pw);
    lemma_replaced_single(t, '&', "&amp;"@);
    lemma_untoken_leading(t, '&', "&amp;"@);
}

/// Every credential's password is written into its backup record, in its own element.
pub proof fn law_backup_writes_password(es: Seq<Entry>, i: int)
    requires
        0 <= i < es.len(),
    ensures
        occurs(backup_document_of(es), "    <pw>"@ + crate::backup::encoded_password(es[i].password@) + "</pw>\n"@),
{
    reveal_strlit("    <pw>");
    let e = es[i]@;
    let before = es.take(i);
    let after = es.skip(i + 1);
    assert(es =~= before + seq![es[i]] + after);
    lemma_records_concat(before + seq![es[i]], after);
    lemma_records_concat(before, seq![es[i]]);
    assert(seq![es[i]].drop_last() =~= Seq::<Entry>::empty());
    assert(records_of(Seq::<Entry>::empty()) =~= Seq::<char>::empty());
    assert(seq![es[i]].last() == es[i]);
    let p = "    <pw>"@ + crate::backup::encoded_password(e.0) + "</pw>\n"@;
    let rest = "    <username>"@ + e.1 + "</username>\n"@ + "    <site>"@ + e.2 + "</site>\n"@
        + "</backuppasswords>\n"@;
    assert(record_of(e) =~= "<backuppasswords>\n"@ + p + rest);
    let x = crate::backup::backup_header() + records_of(before) + "<backuppasswords>\n"@;
    assert(backup_document_of(es) =~= x + p + (rest + records_of(after)));
    lemma_occurs_inside(x, p, rest + records_of(after));
}

/// Rows are laid out top-down from 115, forty apart, and alternate in shade starting light.
pub proof fn law_rows_alternate_and_step(i: int)
    requires
        i >= 0,
    ensures
        top_of(0) == 115,
        top_of(i + 1) == top_of(i) + 40,
        shade_of(0) == RowShade::Light,
        shade_of(i + 1) != shade_of(i),
{
}

/// A password change sets the new password as it is, on the row whose password the label
/// reads back as: two well-formed literals, the new password and the label's password.
pub proof fn law_update_sets_new_password(new_pw: Seq<char>, label: Seq<char>)
    ensures
        exists|l1: Seq<char>, l2: Seq<char>|
            update_statement_of(new_pw, label) == "UPDATE password SET pw = '"@ + l1 + "' WHERE pw = '"@ + l2
                + "';"@ && well_formed_literal(l1) && well_formed_literal(l2) && #[trigger] literal_value(l1)
                == new_pw && #[trigger] literal_value(l2) == unlabelled(label),
{
    lemma_quoted_is_literal(new_pw);
    lemma_quoted_is_literal(unlabelled(label));
    assert(literal_value(quoted(new_pw)) == new_pw);
    assert(literal_value(quoted(unlabelled(label))) == unlabelled(label));
}

} // verus!
