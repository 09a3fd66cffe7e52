//! The table filter: a pure, case-insensitive substring search over one
//! field of an in-memory table of conversion results.
//!
//! The keyword is trimmed and lowercased; an empty result leaves the table
//! unchanged, as does an unrecognized field selector. Matching rows are
//! returned in their original order.

use crate::strutil::{
    is_space, is_substring, lower_of, lemma_trim_all_space, str_contains, str_eq,
    to_lowercase_str, trim_spec, trim_str,
};
use vstd::prelude::*;

verus! {

/// One row of the result table shown by the front end.
pub struct TableContents {
    pub name: String,
    pub path: String,
    pub link: String,
    pub id: u64,
}

/// Whether a row matches the normalized keyword `k` on the selected field.
pub open spec fn row_matches(row: TableContents, k: Seq<char>, by_name: bool) -> bool {
    is_substring(
        k,
        lower_of(
            if by_name {
                row.name@
            } else {
                row.link@
            },
        ),
    )
}

/// The rows whose selected field contains the keyword, in original order.
pub open spec fn rows_matching(t: Seq<TableContents>, k: Seq<char>, by_name: bool) -> Seq<
    TableContents,
>
    decreases t.len(),
{
    if t.len() == 0 {
        Seq::empty()
    } else {
        (if row_matches(t[0], k, by_name) {
            seq![t[0]]
        } else {
            Seq::empty()
        }) + rows_matching(t.drop_first(), k, by_name)
    }
}

/// What the filter returns: the table itself when the trimmed keyword is
/// empty or the selector is neither `link` nor `name`, and otherwise the
/// rows whose selected field contains the trimmed, lowercased keyword.
pub open spec fn filter_spec(
    t: Seq<TableContents>,
    keyword: Seq<char>,
    search_type: Seq<char>,
) -> Seq<TableContents> {
    if trim_spec(keyword).len() == 0 {
        t
    } else if search_type == "link"@ {
        rows_matching(t, lower_of(trim_spec(keyword)), false)
    } else if search_type == "name"@ {
        rows_matching(t, lower_of(trim_spec(keyword)), true)
    } else {
        t
    }
}

/// The rows of `t` whose selected field contains `k`, in original order.
fn filter_rows(t: Vec<TableContents>, k: &str, by_name: bool) -> (r: Vec<TableContents>)
    ensures
        r@ == rows_matching(t@, k@, by_name),
{
    let ghost orig = t@;
    let mut rest = t;
    let mut out: Vec<TableContents> = Vec::new();
    while rest.len() > 0
        invariant
            out@ + rows_matching(rest@, k@, by_name) == rows_matching(orig, k@, by_name),
        decreases rest.len(),
    {
        let ghost prev = rest@;
        let row = rest.remove(0);
        proof {
            assert(prev.remove(0) =~= prev.drop_first());
            assert(row == prev[0]);
        }
        let field = if by_name {
            row.name.as_str()
        } else {
            row.link.as_str()
        };
        let low = to_lowercase_str(field);
        if str_contains(low.as_str(), k) {
            let ghost out_prev = out@;
            out.push(row);
            proof {
                assert(out@ =~= out_prev + seq![row]);
                assert(rows_matching(prev, k@, by_name) == seq![prev[0]] + rows_matching(
                    prev.drop_first(),
                    k@,
                    by_name,
                ));
                assert((out_prev + seq![row]) + rows_matching(rest@, k@, by_name) =~= out_prev + (
                seq![row] + rows_matching(rest@, k@, by_name)));
            }
        } else {
            proof {
                assert(rows_matching(prev, k@, by_name) == Seq::<TableContents>::empty()
                    + rows_matching(prev.drop_first(), k@, by_name));
                assert(Seq::<TableContents>::empty() + rows_matching(rest@, k@, by_name)
                    =~= rows_matching(rest@, k@, by_name));
            }
        }
    }
    proof {
        assert(rows_matching(rest@, k@, by_name) =~= Seq::<TableContents>::empty());
        assert(out@ + Seq::<TableContents>::empty() =~= out@);
    }
    out
}

/// Filters the table by keyword over the selected field. The keyword is
/// trimmed and lowercased first; a keyword of nothing but whitespace and a
/// selector other than `link` or `name` both leave the table unchanged.
pub fn filter_data(table_data: Vec<TableContents>, keyword: String, search_type: String) -> (r: Vec<
    TableContents,
>)
    ensures
        r@ == filter_spec(table_data@, keyword@, search_type@),
{
    let trimmed = trim_str(keyword.as_str());
    if trimmed.is_empty() {
        return table_data;
    }
    let k = to_lowercase_str(trimmed);
    if str_eq(search_type.as_str(), "link") {
        filter_rows(table_data, k.as_str(), false)
    } else if str_eq(search_type.as_str(), "name") {
        filter_rows(table_data, k.as_str(), true)
    } else {
        table_data
    }
}

/// A keyword of nothing but whitespace leaves the table unchanged, in the
/// same order and at the same length, whatever the selector.
pub proof fn lemma_blank_keyword_identity(
    t: Seq<TableContents>,
    keyword: Seq<char>,
    search_type: Seq<char>,
)
    requires
        forall|i: int| 0 <= i < keyword.len() ==> is_space(#[trigger] keyword[i]),
    ensures
        filter_spec(t, keyword, search_type) == t,
{
    lemma_trim_all_space(keyword);
}

/// A selector other than `link` and `name` applies no filter: the table
/// comes back unchanged, whatever the keyword.
pub proof fn lemma_unknown_selector_identity(
    t: Seq<TableContents>,
    keyword: Seq<char>,
    search_type: Seq<char>,
)
    requires
        search_type != "link"@,
        search_type != "name"@,
    ensures
        filter_spec(t, keyword, search_type) == t,
{
}

} // verus!
