use knapsack::entry::Entry;
use knapsack::rows::{plan_rows, redraw_needed, row_label, unescape_label, RowShade};
use knapsack::sql::{
    check_save, check_update, create_table_statement, delete_statement, insert_statement, quote, select_all_statement,
    SaveOutcome, SaveRejection, UpdateRejection,
};
use knapsack::text::{chars_of, push_char_from, replace_all, str_equal};

fn entry(p: &str, u: &str, s: &str) -> Entry {
    Entry { password: p.to_string(), username: u.to_string(), site: s.to_string() }
}

#[test]
fn replace_all_is_leftmost_and_non_overlapping() {
    assert_eq!(replace_all("aaa", "aa", "b"), "ba");
    assert_eq!(replace_all("abcabc", "bc", "X"), "aXaX");
    assert_eq!(replace_all("", "a", "b"), "");
    assert_eq!(replace_all("a@b", "@", "@@"), "a@@b");
}

#[test]
fn chars_and_strings_round_trip() {
    let v = chars_of("héllo");
    assert_eq!(v, vec!['h', 'é', 'l', 'l', 'o']);
    let mut out = String::from("h");
    push_char_from(&mut out, "xéy", 'é');
    assert_eq!(out, "hé");
    assert!(str_equal("abc", "abc"));
    assert!(!str_equal("abc", "abd"));
}

#[test]
fn row_label_doubles_at_and_ampersand() {
    assert_eq!(row_label("a@b&c"), "a@@b&&c");
    assert_eq!(row_label("x&amp"), "x@@");
    assert_eq!(row_label("&amp;"), "@@;");
    assert_eq!(row_label("plain"), "plain");
}

#[test]
fn label_round_trip_law_example() {
    for pw in ["a@b&c", "@@&&", "&@&@", "q!w#e"] {
        assert_eq!(unescape_label(&row_label(pw)), pw);
    }
}

#[test]
fn label_round_trip_fails_with_amp_word() {
    assert_eq!(unescape_label(&row_label("&amp")), "@");
}

#[test]
fn delete_statement_targets_password() {
    assert_eq!(delete_statement("p@ss&"), "DELETE FROM password WHERE pw = 'p@ss&';");
    assert_eq!(delete_statement("it's"), "DELETE FROM password WHERE pw = 'it''s';");
    assert_eq!(delete_statement("&amp"), "DELETE FROM password WHERE pw = '&amp';");
}

#[test]
fn quoting_doubles_single_quotes() {
    assert_eq!(quote("a'b''c"), "a''b''''c");
    assert_eq!(quote("plain"), "plain");
    assert_eq!(quote("a'b").replace("''", "'"), "a'b");
}

#[test]
fn schema_and_query() {
    assert_eq!(
        create_table_statement(),
        "create table if not exists password (\n\t\t\tpw TEXT PRIMARY KEY,\n\t\t\tusername TEXT NOT NULL,\n\t\t\tsite TEXT NOT NULL\n\t\t )"
    );
    assert_eq!(select_all_statement(), "SELECT pw, username, site FROM password");
}

#[test]
fn rows_alternate_and_step_down() {
    let entries = vec![entry("a@", "u1", "s1"), entry("b", "u2", "s2"), entry("c&", "u3", "s3")];
    let rows = plan_rows(&entries);
    assert_eq!(rows.len(), 3);
    assert_eq!(rows[0].top, 115);
    assert_eq!(rows[1].top, 155);
    assert_eq!(rows[2].top, 195);
    assert_eq!(rows[0].shade, RowShade::Light);
    assert_eq!(rows[1].shade, RowShade::Dark);
    assert_eq!(rows[2].shade, RowShade::Light);
    assert_eq!(rows[0].label, "a@@");
    assert_eq!(rows[2].label, "c&&");
    assert_eq!(rows[1].username, "u2");
    assert_eq!(rows[1].site, "s2");
    assert_eq!(rows[0].delete_statement, "DELETE FROM password WHERE pw = 'a@';");
    assert_eq!(rows[2].delete_statement, "DELETE FROM password WHERE pw = 'c&';");
    assert!(plan_rows(&Vec::new()).is_empty());
}

#[test]
fn redraw_is_skipped_only_on_first_run() {
    assert!(!redraw_needed("firstrun"));
    assert!(redraw_needed("save"));
    assert!(redraw_needed("import"));
}

#[test]
fn insert_statement_for_import() {
    assert_eq!(insert_statement("p", "u", "s"), "INSERT INTO password VALUES ('p', 'u', 's')");
    assert_eq!(insert_statement("p'1", "o'neil", "s"), "INSERT INTO password VALUES ('p''1', 'o''neil', 's')");
}

fn rejected(pw: &str, u: &str, s: &str) -> SaveRejection {
    match check_save(pw, u, s) {
        SaveOutcome::Rejected(why) => why,
        SaveOutcome::Insert(stmt) => panic!("unexpected insert {}", stmt),
    }
}

fn inserted(pw: &str, u: &str, s: &str) -> String {
    match check_save(pw, u, s) {
        SaveOutcome::Insert(stmt) => stmt,
        SaveOutcome::Rejected(why) => panic!("unexpected rejection {:?}", why),
    }
}

#[test]
fn save_inserts_when_all_fields_are_filled() {
    assert_eq!(inserted("pw1", "me", "site.org"), "INSERT INTO password VALUES ('pw1', 'me', 'site.org');");
    assert_eq!(inserted("it's", "me", "x"), "INSERT INTO password VALUES ('it''s', 'me', 'x');");
}

#[test]
fn save_rejects_each_missing_combination() {
    assert_eq!(rejected("password", "", ""), SaveRejection::PasswordIsPlaceholder);
    assert_eq!(rejected("password", "u", "s"), SaveRejection::PasswordIsPlaceholder);
    assert_eq!(rejected("", "", "s"), SaveRejection::PasswordAndUsernameEmpty);
    assert_eq!(rejected("", "u", ""), SaveRejection::PasswordAndSiteEmpty);
    assert_eq!(rejected("p", "", ""), SaveRejection::UsernameAndSiteEmpty);
    assert_eq!(rejected("p", "u", ""), SaveRejection::SiteEmpty);
    assert_eq!(rejected("p", "", "s"), SaveRejection::UsernameEmpty);
    assert_eq!(rejected("", "u", "s"), SaveRejection::PasswordEmpty);
    assert_eq!(rejected("", "", ""), SaveRejection::AllEmpty);
}

#[test]
fn save_messages() {
    assert_eq!(SaveRejection::PasswordIsPlaceholder.message(), "password can't be password");
    assert_eq!(SaveRejection::PasswordAndSiteEmpty.message(), "passowrd and site name can't be empty");
    assert_eq!(SaveRejection::AllEmpty.message(), "All fields must be filled in");
    assert_eq!(SaveRejection::UsernameEmpty.message(), "user name cant be empty");
}

#[test]
fn update_checks_and_statement() {
    assert_eq!(check_update("password", "old").err(), Some(UpdateRejection::PasswordIsPlaceholder));
    assert_eq!(check_update("", "old").err(), Some(UpdateRejection::PasswordEmpty));
    let req = check_update("new!", "ol@@d").ok().unwrap();
    assert_eq!(req.statement, "UPDATE password SET pw = 'new!' WHERE pw = 'ol@d';");
    assert_eq!(req.new_label, "new!");
    assert_eq!(UpdateRejection::PasswordEmpty.message(), "password can't be empty");
}

#[test]
fn update_targets_the_row_password() {
    let req = check_update("n@w&'", &row_label("o'&@")).ok().unwrap();
    assert_eq!(req.statement, "UPDATE password SET pw = 'n@w&''' WHERE pw = 'o''&@';");
    assert_eq!(req.new_label, "n@w&'");
}
