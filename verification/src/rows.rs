//! The rows in which stored credentials are shown: the label each password is shown
//! under, where each row stands, how it is shaded, and the statement that deletes it.
use vstd::prelude::*;
use crate::text::{replaced, replace_all, str_equal};
use crate::entry::Entry;
use crate::sql::{delete_statement, delete_statement_of};

verus! {

/// The label a password is shown under: `@` is doubled, `&amp` turns into `@@`,
/// and `&` is doubled, so that the toolkit shows the characters themselves.
pub open spec fn label_of(pw: Seq<char>) -> Seq<char> {
    replaced(
        replaced(replaced(replaced(pw, "@"@, "@@"@), "&amp"@, "@@"@), "&amp;"@, "&&"@),
        "&"@,
        "&&"@,
    )
}

/// What a shown label reads as once the doubled `&&` and `@@` are halved again.
pub open spec fn unlabelled(s: Seq<char>) -> Seq<char> {
    replaced(replaced(s, "&&"@, "&"@), "@@"@, "@"@)
}

/// Shade of a row: rows alternate, starting with the light one.
#[derive(Clone, Copy, Debug, PartialEq, Eq)]
pub enum RowShade {
    Light,
    Dark,
}

/// The shade of the row at `index`.
pub open spec fn shade_of(index: int) -> RowShade {
    if index % 2 == 0 {
        RowShade::Light
    } else {
        RowShade::Dark
    }
}

/// The vertical position of the row at `index`.
pub open spec fn top_of(index: int) -> int {
    115 + 40 * index
}

/// The largest number of rows whose positions fit in an `i32`.
pub const MAX_ROWS: usize = 53687088;

/// Everything that is shown in one row of the list, and the statement its Delete button runs.
pub struct RowPlan {
    pub label: String,
    pub username: String,
    pub site: String,
    pub delete_statement: String,
    pub shade: RowShade,
    pub top: i32,
}

/// The label a password is shown under.
pub fn row_label(pw: &str) -> (r: String)
    ensures
        r@ == label_of(pw@),
{
    proof {
        reveal_strlit("@");
        reveal_strlit("&amp");
        reveal_strlit("&amp;");
        reveal_strlit("&");
    }
    let a = replace_all(pw, "@", "@@");
    let b = replace_all(a.as_str(), "&amp", "@@");
    let c = replace_all(b.as_str(), "&amp;", "&&");
    replace_all(c.as_str(), "&", "&&")
}

/// Halves the doubled `&&` and `@@` of a label: what a row's label reads as when it is
/// taken as a password again.
pub fn unescape_label(s: &str) -> (r: String)
    ensures
        r@ == unlabelled(s@),
{
    proof {
        reveal_strlit("&&");
        reveal_strlit("@@");
    }
    let a = replace_all(s, "&&", "&");
    replace_all(a.as_str(), "@@", "@")
}

/// Lays out one row per stored credential, in order.
pub fn plan_rows(entries: &Vec<Entry>) -> (r: Vec<RowPlan>)
    requires
        entries.len() <= MAX_ROWS,
    ensures
        r.len() == entries.len(),
        forall|i: int|
            #![trigger r@[i]]
            0 <= i < r.len() ==> {
                &&& r[i].label@ == label_of(entries[i].password@)
                &&& r[i].username@ == entries[i].username@
                &&& r[i].site@ == entries[i].site@
                &&& r[i].delete_statement@ == delete_statement_of(entries[i].password@)
                &&& r[i].shade == shade_of(i)
                &&& r[i].top == top_of(i)
            },
{
    let mut out: Vec<RowPlan> = Vec::new();
    let mut i: usize = 0;
    let mut top: i32 = 115;
    while i < entries.len()
        invariant
            i <= entries.len(),
            entries.len() <= MAX_ROWS,
            out.len() == i,
            top == top_of(i as int),
            forall|j: int|
                #![trigger out@[j]]
                0 <= j < i ==> {
                    &&& out[j].label@ == label_of(entries[j].password@)
                    &&& out[j].username@ == entries[j].username@
                    &&& out[j].site@ == entries[j].site@
                    &&& out[j].delete_statement@ == delete_statement_of(entries[j].password@)
                    &&& out[j].shade == shade_of(j)
                    &&& out[j].top == top_of(j)
                },
        decreases entries.len() - i,
    {
        let e = &entries[i];
        let label = row_label(e.password.as_str());
        let statement = delete_statement(e.password.as_str());
        let shade = if i % 2 == 0 {
            RowShade::Light
        } else {
            RowShade::Dark
        };
        out.push(
            RowPlan {
                label,
                username: e.username.clone(),
                site: e.site.clone(),
                delete_statement: statement,
                shade,
                top,
            },
        );
        i = i + 1;
        top = top + 40;
    }
    out
}

/// Whether the window is redrawn after the rows are laid out: every time but the first.
pub fn redraw_needed(which: &str) -> (r: bool)
    ensures
        r == (which@ != "firstrun"@),
{
    let first = "firstrun";
    !str_equal(which, first)
}

} // verus!
