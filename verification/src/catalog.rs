//! Listing the objects of the catalog: the query that asks for them and the
//! choice and order of the rows that come back.
use crate::configuration::ExcludedSchemas;
use crate::quoting::{lemma_qualified_injective, literal_list, qualified};
use crate::row::{insert_in_order, lemma_row_order_total, row_order, CatalogRow, RowView};
use crate::target::{Target, TargetKind, TargetView};
use vstd::multiset::Multiset;
use vstd::prelude::*;
use vstd::relations::sorted_by;
use vstd::seq_lib::{lemma_sorted_unique, to_multiset_build};
use vstd::string::StringExecFns;

verus! {

/// Whether objects of `kind` are left alone when their schema is excluded.
/// Tables and indexes are; materialized views are refreshed whatever their
/// schema.
pub open spec fn honours_exclusions(kind: TargetKind) -> bool {
    match kind {
        TargetKind::Table => true,
        TargetKind::Index => true,
        TargetKind::MaterializedView => false,
    }
}

/// The start of the catalog query for `kind`: what is selected and from where.
pub open spec fn query_selection(kind: TargetKind) -> Seq<char> {
    match kind {
        TargetKind::Table => "SELECT table_schema::text, table_name::text FROM information_schema.tables WHERE table_type = 'BASE TABLE'"@,
        TargetKind::Index => "SELECT schemaname::text, indexname::text FROM pg_indexes"@,
        TargetKind::MaterializedView => "SELECT schemaname::text, matviewname::text FROM pg_matviews"@,
    }
}

/// The words that open the condition on the schema in the catalog query for
/// `kind`, up to the opening bracket of the list.
pub open spec fn query_condition_start(kind: TargetKind) -> Seq<char> {
    match kind {
        TargetKind::Table => " AND table_schema NOT IN ("@,
        TargetKind::Index => " WHERE schemaname NOT IN ("@,
        TargetKind::MaterializedView => Seq::empty(),
    }
}

/// The condition that keeps excluded schemas out of the catalog query for
/// `kind`: none for a kind that does not honour exclusions, and none where no
/// schema is excluded, since a `NOT IN` condition cannot have an empty list.
pub open spec fn query_condition(kind: TargetKind, excluded: Seq<Seq<char>>) -> Seq<char> {
    if honours_exclusions(kind) && excluded.len() > 0 {
        query_condition_start(kind) + literal_list(excluded) + seq![')']
    } else {
        Seq::empty()
    }
}

/// The end of the catalog query for `kind`: the order of the rows.
pub open spec fn query_order(kind: TargetKind) -> Seq<char> {
    match kind {
        TargetKind::Table => " ORDER BY table_schema, table_name;"@,
        TargetKind::Index => " ORDER BY schemaname, indexname;"@,
        TargetKind::MaterializedView => " ORDER BY schemaname, matviewname;"@,
    }
}

/// The catalog query that lists the objects of `kind` outside the schemas
/// `excluded`: one row for each, of its schema and its name, by schema and
/// name ascending.
pub open spec fn query_text(kind: TargetKind, excluded: Seq<Seq<char>>) -> Seq<char> {
    query_selection(kind) + query_condition(kind, excluded) + query_order(kind)
}

/// Writes the catalog query that lists the objects of `kind`, leaving out the
/// schemas of `excluded` where the kind honours exclusions.
pub fn catalog_query(kind: TargetKind, excluded: &ExcludedSchemas) -> (sql: String)
    ensures
        sql@ == query_text(kind, excluded@),
{
    let mut sql = match kind {
        TargetKind::Table => "SELECT table_schema::text, table_name::text FROM information_schema.tables WHERE table_type = 'BASE TABLE'".to_owned(),
        TargetKind::Index => "SELECT schemaname::text, indexname::text FROM pg_indexes".to_owned(),
        TargetKind::MaterializedView => "SELECT schemaname::text, matviewname::text FROM pg_matviews".to_owned(),
    };
    if !excluded.is_empty() {
        match kind {
            TargetKind::Table => {
                sql.append(" AND table_schema NOT IN (");
                sql.append(excluded.as_sql().as_str());
                sql.push(')');
            },
            TargetKind::Index => {
                sql.append(" WHERE schemaname NOT IN (");
                sql.append(excluded.as_sql().as_str());
                sql.push(')');
            },
            TargetKind::MaterializedView => {},
        }
    }
    match kind {
        TargetKind::Table => sql.append(" ORDER BY table_schema, table_name;"),
        TargetKind::Index => sql.append(" ORDER BY schemaname, indexname;"),
        TargetKind::MaterializedView => sql.append(" ORDER BY schemaname, matviewname;"),
    }
    sql
}

/// Whether the object of `row` is worked on: always for a kind that does not
/// honour exclusions, else unless its schema is one of `excluded`.
pub open spec fn keeps(kind: TargetKind, excluded: Seq<Seq<char>>, row: RowView) -> bool {
    !(honours_exclusions(kind) && excluded.contains(row.schema))
}

/// The rows whose objects are worked on, in the order in which they came.
pub open spec fn selected(kind: TargetKind, excluded: Seq<Seq<char>>, rows: Seq<RowView>) -> Seq<
    RowView,
> {
    rows.filter(|row: RowView| keeps(kind, excluded, row))
}

/// The rows whose objects are worked on, by schema and name ascending.
pub open spec fn listed_rows(
    kind: TargetKind,
    excluded: Seq<Seq<char>>,
    rows: Seq<RowView>,
) -> Seq<RowView> {
    selected(kind, excluded, rows).sort_by(row_order())
}

/// The target that a row of a catalog query for `kind` names.
pub open spec fn target_of(kind: TargetKind, row: RowView) -> TargetView {
    TargetView { kind, name: qualified(row.schema, row.name) }
}

/// The targets of a pass over the objects of `kind`, given the rows that the
/// catalog query returned: one for each row that is kept, by schema and name
/// ascending.
pub open spec fn listed(kind: TargetKind, excluded: Seq<Seq<char>>, rows: Seq<RowView>) -> Seq<
    TargetView,
> {
    listed_rows(kind, excluded, rows).map_values(|row: RowView| target_of(kind, row))
}

/// Selecting from rows with one more row at the end.
proof fn lemma_selected_push(
    kind: TargetKind,
    excluded: Seq<Seq<char>>,
    rows: Seq<RowView>,
    row: RowView,
)
    ensures
        selected(kind, excluded, rows.push(row)) == if keeps(kind, excluded, row) {
            selected(kind, excluded, rows).push(row)
        } else {
            selected(kind, excluded, rows)
        },
{
    reveal(Seq::filter);
    assert(rows.push(row).drop_last() =~= rows);
}

/// How often a row is among the selected rows: as often as it came, if it is
/// kept, and not at all otherwise.
proof fn lemma_selected_count(
    kind: TargetKind,
    excluded: Seq<Seq<char>>,
    rows: Seq<RowView>,
    row: RowView,
)
    ensures
        selected(kind, excluded, rows).to_multiset().count(row) == if keeps(kind, excluded, row) {
            rows.to_multiset().count(row)
        } else {
            0
        },
    decreases rows.len(),
{
    broadcast use vstd::multiset::group_multiset_axioms;

    if rows.len() == 0 {
        reveal(Seq::filter);
        assert(rows.to_multiset() =~= Multiset::<RowView>::empty()) by {
            rows.to_multiset_ensures();
        }
        selected(kind, excluded, rows).to_multiset_ensures();
    } else {
        let front = rows.drop_last();
        let last = rows.last();
        assert(rows =~= front.push(last));
        lemma_selected_count(kind, excluded, front, row);
        lemma_selected_push(kind, excluded, front, last);
        to_multiset_build(front, last);
        to_multiset_build(selected(kind, excluded, front), last);
    }
}

/// The listed rows are the selected rows, each as often as it was selected,
/// in ascending order.
pub proof fn lemma_listed_rows_in_order(
    kind: TargetKind,
    excluded: Seq<Seq<char>>,
    rows: Seq<RowView>,
)
    ensures
        sorted_by(listed_rows(kind, excluded, rows), row_order()),
        listed_rows(kind, excluded, rows).to_multiset() == selected(
            kind,
            excluded,
            rows,
        ).to_multiset(),
        listed(kind, excluded, rows).len() == listed_rows(kind, excluded, rows).len(),
        forall|i: int|
            0 <= i < listed_rows(kind, excluded, rows).len() ==> #[trigger] listed(
                kind,
                excluded,
                rows,
            )[i] == target_of(kind, listed_rows(kind, excluded, rows)[i]),
{
    lemma_row_order_total();
    selected(kind, excluded, rows).lemma_sort_by_ensures(row_order());
}

/// Listing tables or indexes gives no object of an excluded schema: whatever
/// rows the catalog query returned, a listed name is never the qualified name
/// of an object in a schema of `excluded`.
pub proof fn lemma_listing_honours_exclusions(
    kind: TargetKind,
    excluded: Seq<Seq<char>>,
    rows: Seq<RowView>,
    i: int,
    schema: Seq<char>,
    object: Seq<char>,
)
    requires
        honours_exclusions(kind),
        0 <= i < listed(kind, excluded, rows).len(),
        listed(kind, excluded, rows)[i].name == qualified(schema, object),
    ensures
        !excluded.contains(schema),
{
    let chosen = selected(kind, excluded, rows);
    let in_order = listed_rows(kind, excluded, rows);
    let row = in_order[i];
    lemma_row_order_total();
    chosen.lemma_sort_by_ensures(row_order());
    assert(in_order.contains(row));
    let at = choose|at: int| 0 <= at < chosen.len() && chosen[at] == row;
    rows.lemma_filter_pred(|row: RowView| keeps(kind, excluded, row), at);
    lemma_qualified_injective(row.schema, row.name, schema, object);
}

/// Every listed target is of the kind that was asked for and names the
/// object of a row that the catalog query returned.
pub proof fn lemma_listing_comes_from_rows(
    kind: TargetKind,
    excluded: Seq<Seq<char>>,
    rows: Seq<RowView>,
    i: int,
)
    requires
        0 <= i < listed(kind, excluded, rows).len(),
    ensures
        listed(kind, excluded, rows)[i].kind == kind,
        exists|j: int|
            0 <= j < rows.len() && listed(kind, excluded, rows)[i] == #[trigger] target_of(
                kind,
                rows[j],
            ),
{
    let chosen = selected(kind, excluded, rows);
    let in_order = listed_rows(kind, excluded, rows);
    let row = in_order[i];
    lemma_row_order_total();
    chosen.lemma_sort_by_ensures(row_order());
    assert(in_order.contains(row));
    assert(rows.contains(row)) by {
        lemma_selected_count(kind, excluded, rows, row);
        rows.to_multiset_ensures();
        chosen.to_multiset_ensures();
    }
    let j = choose|j: int| 0 <= j < rows.len() && rows[j] == row;
    assert(listed(kind, excluded, rows)[i] == target_of(kind, rows[j]));
}

/// Materialized views are exempt from exclusion: every row of the catalog
/// query is selected, whatever schemas are excluded, and the listing is the
/// one that no exclusion at all would give.
pub proof fn lemma_matviews_are_exempt(excluded: Seq<Seq<char>>, rows: Seq<RowView>)
    ensures
        selected(TargetKind::MaterializedView, excluded, rows) == rows,
        listed(TargetKind::MaterializedView, excluded, rows) == listed(
            TargetKind::MaterializedView,
            Seq::empty(),
            rows,
        ),
    decreases rows.len(),
{
    let kind = TargetKind::MaterializedView;
    let nothing = Seq::<Seq<char>>::empty();
    if rows.len() == 0 {
        reveal(Seq::filter);
    } else {
        let front = rows.drop_last();
        assert(rows =~= front.push(rows.last()));
        lemma_matviews_are_exempt(excluded, front);
        lemma_matviews_are_exempt(nothing, front);
        lemma_selected_push(kind, excluded, front, rows.last());
        lemma_selected_push(kind, nothing, front, rows.last());
    }
}

/// Listing is deterministic: it depends on which rows the catalog query
/// returned and how often, not on the order in which they came. Two answers
/// with the same rows give the same targets in the same order.
pub proof fn lemma_listing_ignores_row_order(
    kind: TargetKind,
    excluded: Seq<Seq<char>>,
    rows: Seq<RowView>,
    other: Seq<RowView>,
)
    requires
        rows.to_multiset() == other.to_multiset(),
    ensures
        listed_rows(kind, excluded, rows) == listed_rows(kind, excluded, other),
        listed(kind, excluded, rows) == listed(kind, excluded, other),
{
    let chosen = selected(kind, excluded, rows);
    let other_chosen = selected(kind, excluded, other);
    assert forall|row: RowView|
        chosen.to_multiset().count(row) == other_chosen.to_multiset().count(row) by {
        lemma_selected_count(kind, excluded, rows, row);
        lemma_selected_count(kind, excluded, other, row);
    }
    assert(chosen.to_multiset() =~= other_chosen.to_multiset());
    lemma_row_order_total();
    chosen.lemma_sort_by_ensures(row_order());
    other_chosen.lemma_sort_by_ensures(row_order());
    lemma_sorted_unique(
        chosen.sort_by(row_order()),
        other_chosen.sort_by(row_order()),
        row_order(),
    );
}

/// Decides whether the object of `row` is worked on.
pub fn is_kept(kind: TargetKind, excluded: &ExcludedSchemas, row: &CatalogRow) -> (kept: bool)
    ensures
        kept == keeps(kind, excluded@, row@),
{
    match kind {
        TargetKind::Table => !excluded.contains(&row.schema),
        TargetKind::Index => !excluded.contains(&row.schema),
        TargetKind::MaterializedView => true,
    }
}

/// Chooses the rows whose objects are worked on and puts them in order, by
/// schema and name ascending, whatever order they came in.
pub fn order_rows(kind: TargetKind, excluded: &ExcludedSchemas, rows: Vec<CatalogRow>) -> (ordered:
    Vec<CatalogRow>)
    ensures
        ordered.deep_view() == listed_rows(kind, excluded@, rows.deep_view()),
{
    let ghost all = rows.deep_view();
    let mut ordered: Vec<CatalogRow> = Vec::new();
    proof {
        reveal(Seq::filter);
        assert(selected(kind, excluded@, all.take(0)) =~= Seq::<RowView>::empty());
        assert(ordered.deep_view() =~= Seq::<RowView>::empty());
    }
    for row in it: rows
        invariant
            it.seq().len() == all.len(),
            forall|j: int| 0 <= j < all.len() ==> (#[trigger] it.seq()[j])@ == all[j],
            sorted_by(ordered.deep_view(), row_order()),
            ordered.deep_view().to_multiset() == selected(
                kind,
                excluded@,
                all.take(it.index() as int),
            ).to_multiset(),
    {
        proof {
            let i = it.index() as int;
            assert(all.take(i + 1) =~= all.take(i).push(row@));
            lemma_selected_push(kind, excluded@, all.take(i), row@);
            to_multiset_build(selected(kind, excluded@, all.take(i)), row@);
        }
        if is_kept(kind, excluded, &row) {
            insert_in_order(&mut ordered, row);
        }
    }
    proof {
        let chosen = selected(kind, excluded@, all);
        assert(all.take(all.len() as int) =~= all);
        lemma_row_order_total();
        chosen.lemma_sort_by_ensures(row_order());
        lemma_sorted_unique(ordered.deep_view(), chosen.sort_by(row_order()), row_order());
    }
    ordered
}

/// Lists the targets of a pass over the objects of `kind`, given the rows that
/// the catalog query returned. A row whose schema is excluded gives no target
/// where the kind honours exclusions; every other row gives one, named by its
/// quoted schema and name. The targets come by schema and name ascending,
/// whatever order the rows came in.
pub fn list_objects(kind: TargetKind, excluded: &ExcludedSchemas, rows: Vec<CatalogRow>) -> (targets:
    Vec<Target>)
    ensures
        targets.deep_view() == listed(kind, excluded@, rows.deep_view()),
{
    let ordered = order_rows(kind, excluded, rows);
    let ghost in_order = ordered.deep_view();
    let mut targets: Vec<Target> = Vec::new();
    let mut i: usize = 0;
    while i < ordered.len()
        invariant
            i <= ordered.len(),
            in_order == ordered.deep_view(),
            targets.deep_view() == in_order.take(i as int).map_values(
                |row: RowView| target_of(kind, row),
            ),
        decreases ordered.len() - i,
    {
        let ghost listed_so_far = targets.deep_view();
        let row = &ordered[i];
        targets.push(Target::new(kind, row.schema.as_str(), row.name.as_str()));
        assert(targets.deep_view() =~= listed_so_far.push(target_of(kind, in_order[i as int])));
        i = i + 1;
    }
    targets
}

} // verus!
