//! Rows of the catalog and the order in which they are worked on.
use vstd::prelude::*;
use vstd::relations::{sorted_by, total_ordering};
use vstd::seq_lib::to_multiset_insert;
use vstd::std_specs::iter::IteratorSpec;

verus! {

/// What a catalog row says, as plain mathematical values.
pub struct RowView {
    pub schema: Seq<char>,
    pub name: Seq<char>,
}

/// One row of a catalog query: an object's schema and its name, both as the
/// catalog holds them, unquoted.
pub struct CatalogRow {
    pub schema: String,
    pub name: String,
}

impl View for CatalogRow {
    type V = RowView;

    open spec fn view(&self) -> RowView {
        RowView { schema: self.schema@, name: self.name@ }
    }
}

impl DeepView for CatalogRow {
    type V = RowView;

    open spec fn deep_view(&self) -> RowView {
        self@
    }
}

/// Whether `a` comes before `b` or equals it, going by the code points of
/// their characters from the left; a text comes before every text that it
/// starts.
pub open spec fn text_le(a: Seq<char>, b: Seq<char>) -> bool
    decreases a.len(),
{
    if a.len() == 0 {
        true
    } else if b.len() == 0 {
        false
    } else if a[0] != b[0] {
        (a[0] as u32) < (b[0] as u32)
    } else {
        text_le(a.skip(1), b.skip(1))
    }
}

/// Whether row `a` comes before row `b` or equals it: by schema first, by name
/// within a schema.
pub open spec fn row_le(a: RowView, b: RowView) -> bool {
    if a.schema != b.schema {
        text_le(a.schema, b.schema)
    } else {
        text_le(a.name, b.name)
    }
}

/// The order of rows, as a relation.
pub open spec fn row_order() -> spec_fn(RowView, RowView) -> bool {
    |a: RowView, b: RowView| row_le(a, b)
}

/// Every text equals itself in the order.
pub proof fn lemma_text_le_reflexive(a: Seq<char>)
    ensures
        text_le(a, a),
    decreases a.len(),
{
    if a.len() > 0 {
        lemma_text_le_reflexive(a.skip(1));
    }
}

/// Two texts that each come before or equal the other are the same text.
pub proof fn lemma_text_le_antisymmetric(a: Seq<char>, b: Seq<char>)
    requires
        text_le(a, b),
        text_le(b, a),
    ensures
        a == b,
    decreases a.len(),
{
    if a.len() == 0 || b.len() == 0 {
        assert(a =~= b);
    } else {
        lemma_text_le_antisymmetric(a.skip(1), b.skip(1));
        assert(a =~= seq![a[0]] + a.skip(1));
        assert(b =~= seq![b[0]] + b.skip(1));
    }
}

/// The order of texts is transitive.
pub proof fn lemma_text_le_transitive(a: Seq<char>, b: Seq<char>, c: Seq<char>)
    requires
        text_le(a, b),
        text_le(b, c),
    ensures
        text_le(a, c),
    decreases a.len(),
{
    if a.len() > 0 && a[0] == b[0] && b[0] == c[0] {
        lemma_text_le_transitive(a.skip(1), b.skip(1), c.skip(1));
    }
}

/// Of two texts, one comes before or equals the other.
pub proof fn lemma_text_le_connected(a: Seq<char>, b: Seq<char>)
    ensures
        text_le(a, b) || text_le(b, a),
    decreases a.len(),
{
    if a.len() > 0 && b.len() > 0 {
        if a[0] == b[0] {
            lemma_text_le_connected(a.skip(1), b.skip(1));
        } else {
            vstd::utf8::char_u32_cast(a[0], a[0] as u32);
            vstd::utf8::char_u32_cast(b[0], b[0] as u32);
        }
    }
}

/// The order of rows is total: any rows can be put in order, and in one way
/// only.
pub proof fn lemma_row_order_total()
    ensures
        total_ordering(row_order()),
{
    let le = row_order();
    assert forall|a: RowView| #[trigger] le(a, a) by {
        lemma_text_le_reflexive(a.name);
    }
    assert forall|a: RowView, b: RowView| #[trigger] le(a, b) && #[trigger] le(b, a) implies a
        == b by {
        if a.schema != b.schema {
            lemma_text_le_antisymmetric(a.schema, b.schema);
        } else {
            lemma_text_le_antisymmetric(a.name, b.name);
        }
    }
    assert forall|a: RowView, b: RowView, c: RowView| #[trigger]
        le(a, b) && #[trigger] le(b, c) implies le(a, c) by {
        if a.schema != b.schema && b.schema != c.schema {
            lemma_text_le_transitive(a.schema, b.schema, c.schema);
            if a.schema == c.schema {
                lemma_text_le_antisymmetric(a.schema, b.schema);
            }
        } else if a.schema == b.schema && b.schema == c.schema {
            lemma_text_le_transitive(a.name, b.name, c.name);
        }
    }
    assert forall|a: RowView, b: RowView| #[trigger] le(a, b) || #[trigger] le(b, a) by {
        lemma_text_le_connected(a.schema, b.schema);
        lemma_text_le_connected(a.name, b.name);
    }
}

/// Decides whether `a` comes before `b` or equals it, by code points.
pub fn is_text_le(a: &str, b: &str) -> (le: bool)
    ensures
        le == text_le(a@, b@),
{
    let mut left = a.chars();
    let mut right = b.chars();
    loop
        invariant
            left.decrease() is Some,
            text_le(a@, b@) == text_le(left.remaining(), right.remaining()),
        decreases left.decrease()->0,
    {
        let ghost before_left = left.remaining();
        let ghost before_right = right.remaining();
        let from_left = left.next();
        let from_right = right.next();
        match (from_left, from_right) {
            (None, _) => {
                return true;
            },
            (Some(_), None) => {
                return false;
            },
            (Some(c), Some(d)) => {
                if c != d {
                    return (c as u32) < (d as u32);
                }
                assert(left.remaining() == before_left.skip(1));
                assert(right.remaining() == before_right.skip(1));
            },
        }
    }
}

/// Decides whether row `a` comes before row `b` or equals it.
pub fn is_row_le(a: &CatalogRow, b: &CatalogRow) -> (le: bool)
    ensures
        le == row_le(a@, b@),
{
    if a.schema != b.schema {
        is_text_le(a.schema.as_str(), b.schema.as_str())
    } else {
        is_text_le(a.name.as_str(), b.name.as_str())
    }
}

/// Puts `row` into `rows`, which are in order, at its place among them.
pub(crate) fn insert_in_order(rows: &mut Vec<CatalogRow>, row: CatalogRow)
    requires
        sorted_by(old(rows).deep_view(), row_order()),
    ensures
        sorted_by(final(rows).deep_view(), row_order()),
        final(rows).deep_view().to_multiset() == old(rows).deep_view().to_multiset().insert(row@),
{
    let ghost before = rows.deep_view();
    let mut at: usize = rows.len();
    while at > 0 && !is_row_le(&rows[at - 1], &row)
        invariant
            at <= rows.len(),
            rows.deep_view() == before,
            forall|j: int| at <= j < before.len() ==> row_le(row@, #[trigger] before[j]),
        decreases at,
    {
        proof {
            lemma_row_order_total();
            assert(row_order()(before[at - 1], row@) || row_order()(row@, before[at - 1]));
        }
        at = at - 1;
    }
    rows.insert(at, row);
    proof {
        let after = rows.deep_view();
        let le = row_order();
        lemma_row_order_total();
        assert(after =~= before.insert(at as int, row@));
        to_multiset_insert(before, at as int, row@);
        assert forall|i: int, j: int| 0 <= i < j < after.len() implies #[trigger] le(
            after[i],
            after[j],
        ) by {
            if j == at {
                assert(le(before[at - 1], row@));
                if i < at - 1 {
                    assert(le(before[i], before[at - 1]));
                }
            } else if i == at {
                assert(le(row@, before[j - 1]));
            } else if i < at {
                assert(le(before[i], before[j - 1]));
            } else {
                assert(le(before[i - 1], before[j - 1]));
            }
        }
    }
}

} // verus!
