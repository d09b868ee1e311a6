//! Column introspection: joining the raw catalog rows for a table's columns
//! with its primary-key and foreign-key constraint rows, and deriving the
//! decorated per-column flags.

use vstd::prelude::*;
use vstd::multiset::Multiset;
use crate::strings::{is_prefix_of, has_substring, str_eq, str_has_prefix, str_contains_sub};

verus! {

broadcast use vstd::seq_lib::group_to_multiset_ensures;

/// Rich metadata for one column, as reported to the caller.
pub struct ColumnInfo {
    pub name: String,
    pub data_type: String,
    pub is_nullable: bool,
    pub column_default: Option<String>,
    pub is_auto_generated: bool,
    pub is_generated: bool,
    pub is_identity: bool,
    pub is_primary_key: bool,
    pub is_foreign_key: bool,
    pub foreign_key_table: Option<String>,
    pub foreign_key_column: Option<String>,
}

/// One raw row of the column catalog for a table, as plain values. The
/// `is_nullable`, `is_generated` and `is_identity` fields carry the
/// catalog's textual markers ("YES", "ALWAYS", ...) unchanged.
pub struct RawColumn {
    /// The 1-based position of the column in the table definition.
    pub ordinal_position: u32,
    pub name: String,
    pub data_type: String,
    pub is_nullable: String,
    pub column_default: Option<String>,
    pub is_generated: String,
    pub is_identity: String,
}

/// One foreign-key constraint row for the table: a column of the table, and
/// the table and column it references.
pub struct ForeignKeyUsage {
    pub column: String,
    pub foreign_table: String,
    pub foreign_column: String,
}

/// The heuristic for sequence-generated defaults: a default expression marks
/// the column auto-generated iff it starts with "nextval" or mentions
/// "auto_increment". Best effort by design: other generator idioms give a
/// false negative.
pub open spec fn default_marks_auto(d: Option<String>) -> bool {
    match d {
        Option::None => false,
        Option::Some(s) => is_prefix_of("nextval"@, s@) || has_substring(s@, "auto_increment"@),
    }
}

/// Applies the auto-generated heuristic to a column default expression.
pub fn default_is_auto(d: &Option<String>) -> (r: bool)
    ensures
        r == default_marks_auto(*d),
{
    match d {
        Option::None => false,
        Option::Some(s) => str_has_prefix(s.as_str(), "nextval") || str_contains_sub(
            s.as_str(),
            "auto_increment",
        ),
    }
}

/// Some name in `pks` reads as `name`.
pub open spec fn pk_contains(pks: Seq<String>, name: Seq<char>) -> bool {
    exists|i: int| 0 <= i < pks.len() && (#[trigger] pks[i])@ == name
}

/// Whether the column named `name` is listed among the primary-key columns.
fn name_in_list(pks: &Vec<String>, name: &str) -> (r: bool)
    ensures
        r == pk_contains(pks@, name@),
{
    let mut i: usize = 0;
    while i < pks.len()
        invariant
            0 <= i <= pks@.len(),
            forall|k: int| 0 <= k < i ==> (#[trigger] pks@[k])@ != name@,
        decreases pks@.len() - i,
    {
        if str_eq(pks[i].as_str(), name) {
            return true;
        }
        i = i + 1;
    }
    false
}

/// The first foreign-key row for the column named `name`, if any.
pub open spec fn find_fk(fks: Seq<ForeignKeyUsage>, name: Seq<char>) -> Option<ForeignKeyUsage>
    decreases fks.len(),
{
    if fks.len() == 0 {
        Option::None
    } else if fks[0].column@ == name {
        Option::Some(fks[0])
    } else {
        find_fk(fks.skip(1), name)
    }
}

/// If no row of `fks` names the column, `find_fk` finds nothing.
proof fn lemma_find_fk_none(fks: Seq<ForeignKeyUsage>, name: Seq<char>)
    requires
        forall|k: int| 0 <= k < fks.len() ==> (#[trigger] fks[k]).column@ != name,
    ensures
        find_fk(fks, name) is None,
    decreases fks.len(),
{
    if fks.len() == 0 {
    } else {
        assert(fks[0].column@ != name);
        assert forall|k: int| 0 <= k < fks.skip(1).len() implies (#[trigger] fks.skip(1)[k]).column@
            != name by {
            assert(fks.skip(1)[k] == fks[k + 1]);
        }
        lemma_find_fk_none(fks.skip(1), name);
    }
}

/// If the first matching row of `fks` sits at index `i`, `find_fk` finds it.
proof fn lemma_find_fk_at(fks: Seq<ForeignKeyUsage>, name: Seq<char>, i: int)
    requires
        0 <= i < fks.len(),
        forall|k: int| 0 <= k < i ==> (#[trigger] fks[k]).column@ != name,
        fks[i].column@ == name,
    ensures
        find_fk(fks, name) == Option::Some(fks[i]),
    decreases i,
{
    if i == 0 {
    } else {
        assert(fks[0].column@ != name);
        assert forall|k: int| 0 <= k < i - 1 implies (#[trigger] fks.skip(1)[k]).column@ != name by {
            assert(fks.skip(1)[k] == fks[k + 1]);
        }
        assert(fks.skip(1)[i - 1] == fks[i]);
        lemma_find_fk_at(fks.skip(1), name, i - 1);
    }
}

/// Looks up the first foreign-key row for the column named `name`.
fn lookup_fk<'a>(fks: &'a Vec<ForeignKeyUsage>, name: &str) -> (r: Option<&'a ForeignKeyUsage>)
    ensures
        match r {
            Option::None => find_fk(fks@, name@) is None,
            Option::Some(fk) => find_fk(fks@, name@) == Option::Some(*fk),
        },
{
    let mut i: usize = 0;
    while i < fks.len()
        invariant
            0 <= i <= fks@.len(),
            forall|k: int| 0 <= k < i ==> (#[trigger] fks@[k]).column@ != name@,
        decreases fks@.len() - i,
    {
        if str_eq(fks[i].column.as_str(), name) {
            proof {
                lemma_find_fk_at(fks@, name@, i as int);
            }
            return Some(&fks[i]);
        }
        i = i + 1;
    }
    proof {
        lemma_find_fk_none(fks@, name@);
    }
    None
}

/// Two optional strings hold the same text.
pub open spec fn opt_text_eq(a: Option<String>, b: Option<String>) -> bool {
    match (a, b) {
        (Option::None, Option::None) => true,
        (Option::Some(x), Option::Some(y)) => x@ == y@,
        _ => false,
    }
}

/// `d` is the decorated descriptor of the raw catalog column `c`, under the
/// primary-key column names `pks` and the foreign-key rows `fks`.
pub open spec fn descriptor_matches(
    c: RawColumn,
    pks: Seq<String>,
    fks: Seq<ForeignKeyUsage>,
    d: ColumnInfo,
) -> bool {
    &&& d.name@ == c.name@
    &&& d.data_type@ == c.data_type@
    &&& d.is_nullable == (c.is_nullable@ == "YES"@)
    &&& opt_text_eq(d.column_default, c.column_default)
    &&& d.is_auto_generated == default_marks_auto(c.column_default)
    &&& d.is_generated == (c.is_generated@ == "ALWAYS"@)
    &&& d.is_identity == (c.is_identity@ == "YES"@)
    &&& d.is_primary_key == pk_contains(pks, c.name@)
    &&& match find_fk(fks, c.name@) {
        Option::None => !d.is_foreign_key && d.foreign_key_table is None
            && d.foreign_key_column is None,
        Option::Some(fk) => d.is_foreign_key && (d.foreign_key_table matches Option::Some(t)
            && t@ == fk.foreign_table@) && (d.foreign_key_column matches Option::Some(fc)
            && fc@ == fk.foreign_column@),
    }
}

/// A descriptor's foreign-key fields are consistent: the flag is set iff the
/// referenced table is present iff the referenced column is present.
pub open spec fn fk_fields_consistent(d: ColumnInfo) -> bool {
    &&& d.is_foreign_key <==> d.foreign_key_table is Some
    &&& d.is_foreign_key <==> d.foreign_key_column is Some
}

/// The foreign-key invariant holds of every decorated descriptor: the flag,
/// the referenced table and the referenced column are present together or
/// absent together.
pub proof fn lemma_fk_fields_consistent(
    c: RawColumn,
    pks: Seq<String>,
    fks: Seq<ForeignKeyUsage>,
    d: ColumnInfo,
)
    requires
        descriptor_matches(c, pks, fks, d),
    ensures
        fk_fields_consistent(d),
{
}

/// Decorates one raw catalog column with its derived flags.
pub fn decorate_column(c: &RawColumn, pks: &Vec<String>, fks: &Vec<ForeignKeyUsage>) -> (d:
    ColumnInfo)
    ensures
        descriptor_matches(*c, pks@, fks@, d),
        fk_fields_consistent(d),
{
    let (is_foreign_key, foreign_key_table, foreign_key_column) = match lookup_fk(
        fks,
        c.name.as_str(),
    ) {
        Option::None => (false, Option::<String>::None, Option::<String>::None),
        Option::Some(fk) => (
            true,
            Option::Some(fk.foreign_table.clone()),
            Option::Some(fk.foreign_column.clone()),
        ),
    };
    let column_default = match &c.column_default {
        Option::None => Option::<String>::None,
        Option::Some(s) => Option::Some(s.clone()),
    };
    ColumnInfo {
        name: c.name.clone(),
        data_type: c.data_type.clone(),
        is_nullable: str_eq(c.is_nullable.as_str(), "YES"),
        column_default,
        is_auto_generated: default_is_auto(&c.column_default),
        is_generated: str_eq(c.is_generated.as_str(), "ALWAYS"),
        is_identity: str_eq(c.is_identity.as_str(), "YES"),
        is_primary_key: name_in_list(pks, c.name.as_str()),
        is_foreign_key,
        foreign_key_table,
        foreign_key_column,
    }
}

/// Decorates every raw column in order, against the table's primary-key
/// column names and foreign-key rows.
pub fn decorate_columns(cols: &Vec<RawColumn>, pks: &Vec<String>, fks: &Vec<ForeignKeyUsage>) -> (r:
    Vec<ColumnInfo>)
    ensures
        r@.len() == cols@.len(),
        forall|i: int|
            0 <= i < cols@.len() ==> descriptor_matches(cols@[i], pks@, fks@, #[trigger] r@[i]),
        forall|i: int| 0 <= i < cols@.len() ==> fk_fields_consistent(#[trigger] r@[i]),
{
    let mut out: Vec<ColumnInfo> = Vec::new();
    let mut i: usize = 0;
    while i < cols.len()
        invariant
            0 <= i <= cols@.len(),
            out@.len() == i,
            forall|k: int|
                0 <= k < i ==> descriptor_matches(cols@[k], pks@, fks@, #[trigger] out@[k]),
            forall|k: int| 0 <= k < i ==> fk_fields_consistent(#[trigger] out@[k]),
        decreases cols@.len() - i,
    {
        let d = decorate_column(&cols[i], pks, fks);
        out.push(d);
        i = i + 1;
    }
    out
}

/// The columns stand in table-definition order.
pub open spec fn sorted_by_ordinal(s: Seq<RawColumn>) -> bool {
    forall|i: int, j: int|
        0 <= i < j < s.len() ==> (#[trigger] s[i]).ordinal_position <= (#[trigger] s[j]).ordinal_position
}

/// Sorts raw catalog columns by their ordinal position, keeping exactly the
/// same multiset of rows.
pub fn sort_columns_by_ordinal(cols: Vec<RawColumn>) -> (r: Vec<RawColumn>)
    ensures
        sorted_by_ordinal(r@),
        r@.to_multiset() == cols@.to_multiset(),
{
    let mut input = cols;
    let mut out: Vec<RawColumn> = Vec::new();
    proof {
        assert(out@.to_multiset().add(input@.to_multiset()) =~= cols@.to_multiset());
    }
    while input.len() > 0
        invariant
            sorted_by_ordinal(out@),
            out@.to_multiset().add(input@.to_multiset()) == cols@.to_multiset(),
        decreases input@.len(),
    {
        let ghost pre_input = input@;
        let x = input.remove(0);
        let mut j: usize = 0;
        while j < out.len() && out[j].ordinal_position <= x.ordinal_position
            invariant
                0 <= j <= out@.len(),
                forall|k: int| 0 <= k < j ==> (#[trigger] out@[k]).ordinal_position <= x.ordinal_position,
            decreases out@.len() - j,
        {
            j = j + 1;
        }
        let ghost pre = out@;
        out.insert(j, x);
        proof {
            assert forall|i1: int, i2: int|
                0 <= i1 < i2 < out@.len() implies (#[trigger] out@[i1]).ordinal_position
                <= (#[trigger] out@[i2]).ordinal_position by {
                if i2 < j {
                    assert(out@[i1] == pre[i1] && out@[i2] == pre[i2]);
                } else if i2 == j {
                    assert(out@[i1] == pre[i1]);
                } else {
                    assert(out@[i2] == pre[i2 - 1]);
                    if i1 < j {
                        assert(out@[i1] == pre[i1]);
                    } else if i1 == j {
                        assert(out@[i1] == x);
                    } else {
                        assert(out@[i1] == pre[i1 - 1]);
                    }
                }
            }
            assert(out@.to_multiset() =~= pre.to_multiset().insert(x));
            assert(pre_input.to_multiset() =~= input@.to_multiset().insert(x));
            assert(out@.to_multiset().add(input@.to_multiset()) =~= pre.to_multiset().add(
                pre_input.to_multiset(),
            ));
        }
    }
    proof {
        assert(input@.to_multiset() =~= Multiset::<RawColumn>::empty());
        assert(out@.to_multiset().add(input@.to_multiset()) =~= out@.to_multiset());
    }
    out
}

/// `r` describes the raw columns `cols`: there is an arrangement `p` of the
/// same catalog rows, in table-definition order, whose position-by-position
/// decoration `r` is.
pub open spec fn describes_columns(
    cols: Seq<RawColumn>,
    pks: Seq<String>,
    fks: Seq<ForeignKeyUsage>,
    r: Seq<ColumnInfo>,
) -> bool {
    exists|p: Seq<RawColumn>|
        {
            &&& #[trigger] p.to_multiset() == cols.to_multiset()
            &&& sorted_by_ordinal(p)
            &&& r.len() == p.len()
            &&& forall|i: int|
                0 <= i < p.len() ==> descriptor_matches(p[i], pks, fks, #[trigger] r[i])
        }
}

/// The column-introspection core: orders the raw catalog columns by ordinal
/// position and decorates each with its derived flags. Returns exactly one
/// descriptor per raw column; a table with no columns (or a nonexistent
/// table) yields an empty sequence, not an error.
pub fn describe_columns(cols: Vec<RawColumn>, pks: &Vec<String>, fks: &Vec<ForeignKeyUsage>) -> (r:
    Vec<ColumnInfo>)
    ensures
        r@.len() == cols@.len(),
        describes_columns(cols@, pks@, fks@, r@),
        forall|i: int| 0 <= i < r@.len() ==> fk_fields_consistent(#[trigger] r@[i]),
{
    let ghost orig = cols@;
    let sorted = sort_columns_by_ordinal(cols);
    let r = decorate_columns(&sorted, pks, fks);
    proof {
        assert(sorted@.to_multiset().len() == orig.to_multiset().len());
        assert(sorted@.len() == sorted@.to_multiset().len());
        assert(orig.len() == orig.to_multiset().len());
        assert(describes_columns(orig, pks@, fks@, r@)) by {
            assert(sorted@.to_multiset() == orig.to_multiset() && sorted_by_ordinal(sorted@)
                && r@.len() == sorted@.len() && forall|i: int|
                0 <= i < sorted@.len() ==> descriptor_matches(sorted@[i], pks@, fks@, #[trigger] r@[i]));
        }
    }
    r
}

/// How many of the raw columns carry the name `name`.
pub open spec fn count_named(cols: Seq<RawColumn>, name: Seq<char>) -> nat
    decreases cols.len(),
{
    if cols.len() == 0 {
        0
    } else {
        (if cols.last().name@ == name {
            1nat
        } else {
            0nat
        }) + count_named(cols.drop_last(), name)
    }
}

/// A prefix of the columns holds at most as many rows of a name as the whole.
proof fn lemma_count_named_drop_last(cols: Seq<RawColumn>, name: Seq<char>, j: int)
    requires
        0 <= j < cols.len(),
        cols[j].name@ == name,
    ensures
        count_named(cols, name) >= 1,
        cols.len() >= 1,
    decreases cols.len(),
{
    if j == cols.len() - 1 {
        assert(cols.last().name@ == name);
    } else {
        assert(cols.drop_last()[j] == cols[j]);
        lemma_count_named_drop_last(cols.drop_last(), name, j);
    }
}

/// If exactly one raw column carries the name, the matching index is unique.
proof fn lemma_count_named_unique(cols: Seq<RawColumn>, name: Seq<char>, j1: int, j2: int)
    requires
        count_named(cols, name) <= 1,
        0 <= j1 < j2 < cols.len(),
        cols[j1].name@ == name,
    ensures
        cols[j2].name@ != name,
    decreases cols.len(),
{
    if j2 == cols.len() - 1 {
        if cols.last().name@ == name {
            lemma_count_named_drop_last(cols.drop_last(), name, j1);
        }
    } else {
        assert(cols.drop_last()[j1] == cols[j1]);
        assert(cols.drop_last()[j2] == cols[j2]);
        lemma_count_named_unique(cols.drop_last(), name, j1, j2);
    }
}

/// With a single-column primary key naming exactly one column of the table,
/// exactly one descriptor reports `is_primary_key`, and it is the descriptor
/// of that column: all others report false.
pub proof fn lemma_single_primary_key(
    cols: Seq<RawColumn>,
    pks: Seq<String>,
    fks: Seq<ForeignKeyUsage>,
    r: Seq<ColumnInfo>,
    j: int,
)
    requires
        pks.len() == 1,
        count_named(cols, pks[0]@) <= 1,
        r.len() == cols.len(),
        forall|i: int| 0 <= i < cols.len() ==> descriptor_matches(cols[i], pks, fks, #[trigger] r[i]),
        0 <= j < cols.len(),
        cols[j].name@ == pks[0]@,
    ensures
        r[j].is_primary_key,
        forall|k: int| 0 <= k < r.len() && k != j ==> !(#[trigger] r[k]).is_primary_key,
{
    assert(descriptor_matches(cols[j], pks, fks, r[j]));
    assert(pk_contains(pks, cols[j].name@)) by {
        assert(pks[0]@ == cols[j].name@);
    }
    assert forall|k: int| 0 <= k < r.len() && k != j implies !(#[trigger] r[k]).is_primary_key by {
        if k < j {
            if cols[k].name@ == pks[0]@ {
                lemma_count_named_unique(cols, pks[0]@, k, j);
                assert(false);
            }
        } else {
            lemma_count_named_unique(cols, pks[0]@, j, k);
        }
        assert(cols[k].name@ != pks[0]@);
        assert(descriptor_matches(cols[k], pks, fks, r[k]));
        assert(!pk_contains(pks, cols[k].name@));
    }
}

} // verus!
