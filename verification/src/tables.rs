//! Enumeration of base tables from catalog rows: filtering out views and
//! other schemas, and sorting the surviving names lexicographically.

use vstd::prelude::*;
use vstd::multiset::Multiset;
use crate::strings::{lex_leq, lemma_lex_leq_total, lemma_lex_leq_trans, str_eq, str_leq};

verus! {

broadcast use vstd::seq_lib::group_to_multiset_ensures;

/// One row of the catalog's table listing, as plain values.
pub struct TableRow {
    /// The schema the object belongs to.
    pub schema: String,
    /// The object's name.
    pub name: String,
    /// The catalog's kind marker: a stored table reports "BASE TABLE",
    /// a view "VIEW", and so on.
    pub table_type: String,
}

/// A catalog row describes a stored base table in the default schema.
pub open spec fn is_base_table(t: TableRow) -> bool {
    t.schema@ == "public"@ && t.table_type@ == "BASE TABLE"@
}

/// The names of the base-table rows, in catalog order; rows for views,
/// materialized views and other schemas contribute nothing.
pub open spec fn base_table_names(rows: Seq<TableRow>) -> Seq<String>
    decreases rows.len(),
{
    if rows.len() == 0 {
        Seq::empty()
    } else {
        let rest = base_table_names(rows.drop_last());
        if is_base_table(rows.last()) {
            rest.push(rows.last().name)
        } else {
            rest
        }
    }
}

/// The sequence of names is sorted lexicographically.
pub open spec fn sorted_lex(s: Seq<String>) -> bool {
    forall|i: int, j: int| 0 <= i < j < s.len() ==> lex_leq(s[i]@, s[j]@)
}

/// Keeps exactly the names of base tables in the default schema, in the
/// order the catalog rows arrived; views, materialized views and foreign
/// tables never pass the filter.
pub fn select_base_tables(rows: &Vec<TableRow>) -> (r: Vec<String>)
    ensures
        r@ == base_table_names(rows@),
{
    let mut out: Vec<String> = Vec::new();
    let mut i: usize = 0;
    proof {
        assert(rows@.take(0) =~= Seq::<TableRow>::empty());
    }
    while i < rows.len()
        invariant
            0 <= i <= rows@.len(),
            out@ == base_table_names(rows@.take(i as int)),
        decreases rows@.len() - i,
    {
        let t = &rows[i];
        let keep = str_eq(t.schema.as_str(), "public") && str_eq(
            t.table_type.as_str(),
            "BASE TABLE",
        );
        if keep {
            out.push(t.name.clone());
        }
        proof {
            let next = rows@.take(i + 1);
            assert(next.drop_last() =~= rows@.take(i as int));
            assert(next.last() == rows@[i as int]);
            assert(out@ == base_table_names(next));
        }
        i = i + 1;
    }
    proof {
        assert(rows@.take(rows@.len() as int) =~= rows@);
    }
    out
}

/// Sorts the names lexicographically by insertion, keeping exactly the
/// same multiset of names.
pub fn sort_names(names: Vec<String>) -> (r: Vec<String>)
    ensures
        sorted_lex(r@),
        r@.to_multiset() == names@.to_multiset(),
{
    let mut input = names;
    let mut out: Vec<String> = Vec::new();
    proof {
        assert(out@.to_multiset().add(input@.to_multiset()) =~= names@.to_multiset());
    }
    while input.len() > 0
        invariant
            sorted_lex(out@),
            out@.to_multiset().add(input@.to_multiset()) == names@.to_multiset(),
        decreases input@.len(),
    {
        let ghost pre_input = input@;
        let x = input.remove(0);
        let mut j: usize = 0;
        while j < out.len() && str_leq(out[j].as_str(), x.as_str())
            invariant
                0 <= j <= out@.len(),
                forall|k: int| 0 <= k < j ==> lex_leq(out@[k]@, x@),
            decreases out@.len() - j,
        {
            j = j + 1;
        }
        let ghost pre = out@;
        proof {
            if j < pre.len() {
                lemma_lex_leq_total(pre[j as int]@, x@);
            }
        }
        out.insert(j, x);
        proof {
            assert forall|i1: int, i2: int|
                0 <= i1 < i2 < out@.len() implies lex_leq(out@[i1]@, out@[i2]@) by {
                if i2 < j {
                    assert(out@[i1] == pre[i1] && out@[i2] == pre[i2]);
                } else if i2 == j {
                    assert(out@[i1] == pre[i1]);
                } else {
                    // i2 lands past the insertion point.
                    assert(out@[i2] == pre[i2 - 1]);
                    if i1 < j {
                        assert(out@[i1] == pre[i1]);
                    } else if i1 == j {
                        assert(out@[i1] == x);
                        assert(lex_leq(x@, pre[j as int]@));
                        if i2 - 1 > j {
                            lemma_lex_leq_trans(x@, pre[j as int]@, pre[i2 - 1]@);
                        }
                    } else {
                        assert(out@[i1] == pre[i1 - 1]);
                    }
                }
            }
            // Multiset bookkeeping: one element moved from input to out.
            assert(out@.to_multiset() =~= pre.to_multiset().insert(x));
            assert(pre_input.to_multiset() =~= input@.to_multiset().insert(x));
            assert(out@.to_multiset().add(input@.to_multiset()) =~= pre.to_multiset().add(
                pre_input.to_multiset(),
            ));
        }
    }
    proof {
        assert(input@.to_multiset() =~= Multiset::<String>::empty());
        assert(out@.to_multiset().add(input@.to_multiset()) =~= out@.to_multiset());
    }
    out
}

/// The table-listing core: keeps only base tables in the default schema and
/// returns their names sorted lexicographically. An empty catalog (or one
/// holding only views) yields an empty list, not an error.
pub fn list_tables_from_catalog(rows: &Vec<TableRow>) -> (r: Vec<String>)
    ensures
        sorted_lex(r@),
        r@.to_multiset() == base_table_names(rows@).to_multiset(),
{
    let selected = select_base_tables(rows);
    sort_names(selected)
}

/// Some base-table row of `rows` carries the name `name`.
pub open spec fn has_base_source(rows: Seq<TableRow>, name: String) -> bool {
    exists|j: int|
        0 <= j < rows.len() && (#[trigger] rows[j]).name == name && is_base_table(rows[j])
}

/// The name at position `i` among the base-table names has a source row
/// that is a base table in the default schema.
proof fn lemma_name_source_at(rows: Seq<TableRow>, i: int)
    requires
        0 <= i < base_table_names(rows).len(),
    ensures
        has_base_source(rows, base_table_names(rows)[i]),
    decreases rows.len(),
{
    let names = base_table_names(rows);
    let head = rows.drop_last();
    let rest = base_table_names(head);
    if i < rest.len() {
        lemma_name_source_at(head, i);
        let j = choose|j: int|
            0 <= j < head.len() && (#[trigger] head[j]).name == rest[i] && is_base_table(head[j]);
        assert(rows[j] == head[j]);
        assert(names[i] == rest[i]);
        assert(rows[j].name == names[i] && is_base_table(rows[j]));
    } else {
        assert(is_base_table(rows.last()));
        assert(names[i] == rows.last().name);
        assert(rows[rows.len() - 1] == rows.last());
    }
}

/// A base-table row's name occurs among the base-table names.
proof fn lemma_base_row_named_at(rows: Seq<TableRow>, j: int)
    requires
        0 <= j < rows.len(),
        is_base_table(rows[j]),
    ensures
        base_table_names(rows).contains(rows[j].name),
    decreases rows.len(),
{
    let names = base_table_names(rows);
    let head = rows.drop_last();
    let rest = base_table_names(head);
    if j < rows.len() - 1 {
        assert(head[j] == rows[j]);
        lemma_base_row_named_at(head, j);
        let k = choose|k: int| 0 <= k < rest.len() && rest[k] == rows[j].name;
        assert(names[k] == rows[j].name);
    } else {
        assert(rows[j] == rows.last());
        assert(names[names.len() - 1] == rows[j].name);
    }
}

/// Every name in the table listing is the name of a base-table catalog row,
/// and every base-table catalog row's name appears in the listing: views and
/// materialized views are never included, and no base table is dropped.
pub proof fn lemma_listing_is_exactly_base_tables(rows: Seq<TableRow>, r: Seq<String>)
    requires
        r.to_multiset() == base_table_names(rows).to_multiset(),
    ensures
        r.len() == base_table_names(rows).len(),
        forall|i: int| 0 <= i < r.len() ==> #[trigger] has_base_source(rows, r[i]),
        forall|j: int|
            0 <= j < rows.len() && is_base_table(#[trigger] rows[j]) ==> r.contains(rows[j].name),
{
    let names = base_table_names(rows);
    assert(r.len() == r.to_multiset().len());
    assert(names.len() == names.to_multiset().len());
    assert(r.len() == names.len());
    assert forall|i: int| 0 <= i < r.len() implies #[trigger] has_base_source(rows, r[i]) by {
        assert(r.contains(r[i]));
        assert(r.to_multiset().count(r[i]) > 0);
        assert(names.contains(r[i]));
        let k = choose|k: int| 0 <= k < names.len() && names[k] == r[i];
        lemma_name_source_at(rows, k);
        assert(names[k] == r[i]);
    }
    assert forall|j: int|
        0 <= j < rows.len() && is_base_table(#[trigger] rows[j]) implies r.contains(
        rows[j].name,
    ) by {
        lemma_base_row_named_at(rows, j);
        assert(names.to_multiset().count(rows[j].name) > 0);
        assert(r.to_multiset().count(rows[j].name) > 0);
    }
}

} // verus!
