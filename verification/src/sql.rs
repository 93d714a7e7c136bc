//! Deciding what a request to store or change a credential does, and the
//! statements that carry it out.
use vstd::prelude::*;
use vstd::string::StringExecFns;
use crate::text::{replaced, replace_all, str_equal};
use crate::rows::{unescape_label, unlabelled};

verus! {

/// The word that may not be used as a password (the input field's placeholder).
pub open spec fn placeholder() -> Seq<char> {
    "password"@
}

/// A value written inside a quoted SQL string literal: every `'` is doubled.
pub open spec fn quoted(s: Seq<char>) -> Seq<char> {
    replaced(s, "'"@, "''"@)
}

/// The statement that stores a credential read from a backup.
pub open spec fn insert_statement_of(pw: Seq<char>, username: Seq<char>, site: Seq<char>) -> Seq<char> {
    "INSERT INTO password VALUES ('"@ + quoted(pw) + "', '"@ + quoted(username) + "', '"@ + quoted(site)
        + "')"@
}

/// The statement that stores a credential typed in by the user.
pub open spec fn save_statement_of(pw: Seq<char>, username: Seq<char>, site: Seq<char>) -> Seq<char> {
    insert_statement_of(pw, username, site) + ";"@
}

/// The statement that changes the password of the row shown under `label` to `new_pw`:
/// the row is found by the label read back as a password.
pub open spec fn update_statement_of(new_pw: Seq<char>, label: Seq<char>) -> Seq<char> {
    "UPDATE password SET pw = '"@ + quoted(new_pw) + "' WHERE pw = '"@ + quoted(unlabelled(label)) + "';"@
}

/// The statement that deletes the credential whose password is `pw`.
pub open spec fn delete_statement_of(pw: Seq<char>) -> Seq<char> {
    "DELETE FROM password WHERE pw = '"@ + quoted(pw) + "';"@
}

/// The statement that creates the table of credentials where it does not exist yet.
pub open spec fn create_table_statement_of() -> Seq<char> {
    "create table if not exists password (\n\t\t\tpw TEXT PRIMARY KEY,\n\t\t\tusername TEXT NOT NULL,\n\t\t\tsite TEXT NOT NULL\n\t\t )"@
}

/// The query that reads every stored credential, one row each: password, user name, site.
pub open spec fn select_all_statement_of() -> Seq<char> {
    "SELECT pw, username, site FROM password"@
}

/// Writes a value for use inside a quoted SQL string literal.
pub fn quote(s: &str) -> (r: String)
    ensures
        r@ == quoted(s@),
{
    proof {
        reveal_strlit("'");
    }
    replace_all(s, "'", "''")
}

/// The statement that creates the table of credentials where it does not exist yet.
pub fn create_table_statement() -> (r: &'static str)
    ensures
        r@ == create_table_statement_of(),
{
    "create table if not exists password (\n\t\t\tpw TEXT PRIMARY KEY,\n\t\t\tusername TEXT NOT NULL,\n\t\t\tsite TEXT NOT NULL\n\t\t )"
}

/// The query that reads every stored credential.
pub fn select_all_statement() -> (r: &'static str)
    ensures
        r@ == select_all_statement_of(),
{
    "SELECT pw, username, site FROM password"
}

/// The statement that deletes the credential whose password is `pw`.
pub fn delete_statement(pw: &str) -> (r: String)
    ensures
        r@ == delete_statement_of(pw@),
{
    let q = quote(pw);
    let mut s = String::from_str("DELETE FROM password WHERE pw = '");
    s.append(q.as_str());
    s.append("';");
    s
}

/// Why a new credential is not stored.
#[derive(Clone, Copy, Debug, PartialEq, Eq)]
pub enum SaveRejection {
    PasswordIsPlaceholder,
    PasswordAndUsernameEmpty,
    PasswordAndSiteEmpty,
    UsernameAndSiteEmpty,
    SiteEmpty,
    UsernameEmpty,
    PasswordEmpty,
    AllEmpty,
}

/// What saving a new credential does.
pub enum SaveOutcome {
    /// The credential is stored by running this statement.
    Insert(String),
    /// The credential is not stored, and the user is told why.
    Rejected(SaveRejection),
}

/// Why a new credential with these fields is refused, if it is.
pub open spec fn save_rejection(pw: Seq<char>, username: Seq<char>, site: Seq<char>) -> Option<SaveRejection> {
    if pw == placeholder() {
        Some(SaveRejection::PasswordIsPlaceholder)
    } else {
        match (pw.len() == 0, username.len() == 0, site.len() == 0) {
            (false, false, false) => None,
            (true, true, false) => Some(SaveRejection::PasswordAndUsernameEmpty),
            (true, false, true) => Some(SaveRejection::PasswordAndSiteEmpty),
            (false, true, true) => Some(SaveRejection::UsernameAndSiteEmpty),
            (false, false, true) => Some(SaveRejection::SiteEmpty),
            (false, true, false) => Some(SaveRejection::UsernameEmpty),
            (true, false, false) => Some(SaveRejection::PasswordEmpty),
            (true, true, true) => Some(SaveRejection::AllEmpty),
        }
    }
}

impl SaveRejection {
    /// The message shown to the user.
    pub fn message(&self) -> (r: &'static str)
        ensures
            r@ == match *self {
                SaveRejection::PasswordIsPlaceholder => "password can't be password"@,
                SaveRejection::PasswordAndUsernameEmpty => "password and user name cant be empty"@,
                SaveRejection::PasswordAndSiteEmpty => "passowrd and site name can't be empty"@,
                SaveRejection::UsernameAndSiteEmpty => "user name and site name can't be empty"@,
                SaveRejection::SiteEmpty => "site name can't be empty"@,
                SaveRejection::UsernameEmpty => "user name cant be empty"@,
                SaveRejection::PasswordEmpty => "password can't be empty"@,
                SaveRejection::AllEmpty => "All fields must be filled in"@,
            },
    {
        match self {
            SaveRejection::PasswordIsPlaceholder => "password can't be password",
            SaveRejection::PasswordAndUsernameEmpty => "password and user name cant be empty",
            SaveRejection::PasswordAndSiteEmpty => "passowrd and site name can't be empty",
            SaveRejection::UsernameAndSiteEmpty => "user name and site name can't be empty",
            SaveRejection::SiteEmpty => "site name can't be empty",
            SaveRejection::UsernameEmpty => "user name cant be empty",
            SaveRejection::PasswordEmpty => "password can't be empty",
            SaveRejection::AllEmpty => "All fields must be filled in",
        }
    }
}

fn is_empty_text(a: &str) -> (r: bool)
    ensures
        r == (a@.len() == 0),
{
    let e = "";
    proof {
        reveal_strlit("");
    }
    let r = str_equal(a, e);
    assert(r == (a@ =~= ""@));
    r
}

/// The statement that stores a credential read from a backup.
pub fn insert_statement(pw: &str, username: &str, site: &str) -> (r: String)
    ensures
        r@ == insert_statement_of(pw@, username@, site@),
{
    let qp = quote(pw);
    let qu = quote(username);
    let qs = quote(site);
    let mut s = String::from_str("INSERT INTO password VALUES ('");
    s.append(qp.as_str());
    s.append("', '");
    s.append(qu.as_str());
    s.append("', '");
    s.append(qs.as_str());
    s.append("')");
    s
}

/// Decides what saving a new credential with these fields does.
pub fn check_save(pw: &str, username: &str, site: &str) -> (r: SaveOutcome)
    ensures
        match r {
            SaveOutcome::Insert(stmt) => save_rejection(pw@, username@, site@).is_none()
                && stmt@ == save_statement_of(pw@, username@, site@),
            SaveOutcome::Rejected(why) => save_rejection(pw@, username@, site@) == Some(why),
        },
{
    if str_equal(pw, "password") {
        return SaveOutcome::Rejected(SaveRejection::PasswordIsPlaceholder);
    }
    let p = is_empty_text(pw);
    let u = is_empty_text(username);
    let s = is_empty_text(site);
    if !p && !u && !s {
        let mut stmt = insert_statement(pw, username, site);
        stmt.append(";");
        SaveOutcome::Insert(stmt)
    } else if p && u && !s {
        SaveOutcome::Rejected(SaveRejection::PasswordAndUsernameEmpty)
    } else if p && !u && s {
        SaveOutcome::Rejected(SaveRejection::PasswordAndSiteEmpty)
    } else if !p && u && s {
        SaveOutcome::Rejected(SaveRejection::UsernameAndSiteEmpty)
    } else if !p && !u && s {
        SaveOutcome::Rejected(SaveRejection::SiteEmpty)
    } else if !p && u && !s {
        SaveOutcome::Rejected(SaveRejection::UsernameEmpty)
    } else if p && !u && !s {
        SaveOutcome::Rejected(SaveRejection::PasswordEmpty)
    } else {
        SaveOutcome::Rejected(SaveRejection::AllEmpty)
    }
}

/// Why a password change is refused.
#[derive(Clone, Copy, Debug, PartialEq, Eq)]
pub enum UpdateRejection {
    PasswordIsPlaceholder,
    PasswordEmpty,
}

impl UpdateRejection {
    /// The message shown to the user.
    pub fn message(&self) -> (r: &'static str)
        ensures
            r@ == match *self {
                UpdateRejection::PasswordIsPlaceholder => "password can't be password"@,
                UpdateRejection::PasswordEmpty => "password can't be empty"@,
            },
    {
        match self {
            UpdateRejection::PasswordIsPlaceholder => "password can't be password",
            UpdateRejection::PasswordEmpty => "password can't be empty",
        }
    }
}

/// A password change that goes ahead: the statement to run, and the row's new label
/// (the new password as typed).
pub struct UpdateRequest {
    pub statement: String,
    pub new_label: String,
}

/// Decides what replacing the password of the row shown under `label` by `new_pw` does.
pub fn check_update(new_pw: &str, label: &str) -> (r: Result<UpdateRequest, UpdateRejection>)
    ensures
        new_pw@ == placeholder() <==> r == Err::<UpdateRequest, _>(UpdateRejection::PasswordIsPlaceholder),
        new_pw@.len() == 0 <==> r == Err::<UpdateRequest, _>(UpdateRejection::PasswordEmpty),
        new_pw@ != placeholder() && new_pw@.len() > 0 ==> r is Ok,
        r matches Ok(req) ==> req.statement@ == update_statement_of(new_pw@, label@) && req.new_label@ == new_pw@,
{
    proof {
        reveal_strlit("password");
    }
    if str_equal(new_pw, "password") {
        return Err(UpdateRejection::PasswordIsPlaceholder);
    }
    if is_empty_text(new_pw) {
        return Err(UpdateRejection::PasswordEmpty);
    }
    let qn = quote(new_pw);
    let current = unescape_label(label);
    let qc = quote(current.as_str());
    let mut s = String::from_str("UPDATE password SET pw = '");
    s.append(qn.as_str());
    s.append("' WHERE pw = '");
    s.append(qc.as_str());
    s.append("';");
    Ok(UpdateRequest { statement: s, new_label: new_pw.to_owned() })
}

} // verus!
