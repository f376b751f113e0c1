//! What the catalog answers: primary keys, foreign-key definitions,
//! relations and column rows, and the constraints that they give a column.
use vstd::prelude::*;

use crate::sql_entities::{ColumnConstraints, ConstraintSet, TableColumn};
use crate::text::{
    chars_lt, lemma_chars_lt_total, lemma_insert_contains, lemma_lex_lt_total, lemma_sorted_insert,
    lex_lt, sorted_by, str_eq, str_lt,
};

verus! {

/// The primary key of one table: the ordinals of its columns.
#[derive(Debug, Clone)]
pub struct PkRow {
    pub table_name: String,
    pub columns: Vec<i16>,
}

/// One foreign-key constraint: source table and ordinals, target table and
/// ordinals, in the order of the constraint's definition.
#[derive(Debug, Clone)]
pub struct FkRow {
    pub source_table_name: String,
    pub source_columns: Vec<i16>,
    pub target_table_name: String,
    pub target_columns: Vec<i16>,
}

/// A relation of the schema and its type as the catalog names it
/// (`BASE TABLE` or `VIEW`).
#[derive(Debug, Clone)]
pub struct TableRow {
    pub name: String,
    pub table_type: String,
}

/// One live column of a relation. `typtype` is the catalog's type category
/// (`e` for an enumerated type) and `type_oid` identifies the type.
#[derive(Debug, Clone)]
pub struct ColumnRow {
    pub col_name: String,
    pub col_num: i16,
    pub datatype: String,
    pub not_null: bool,
    pub table_name: String,
    pub type_oid: u32,
    pub typtype: i8,
}

/// Whether a relation is a base table or a (non-materialized) view.
#[derive(Clone, Copy, Debug, PartialEq, Eq, Structural)]
pub enum TableType {
    BaseTable,
    View,
}

impl TableType {
    pub open spec fn spec_from_name(name: Seq<char>) -> Option<TableType> {
        if name == "BASE TABLE"@ {
            Some(TableType::BaseTable)
        } else if name == "VIEW"@ {
            Some(TableType::View)
        } else {
            None
        }
    }

    /// The type that the catalog names `name`: `BASE TABLE` or `VIEW`.
    pub fn from_name(name: &str) -> (r: Option<TableType>)
        ensures
            r == TableType::spec_from_name(name@),
    {
        proof {
            reveal_strlit("BASE TABLE");
            reveal_strlit("VIEW");
            assert("BASE TABLE"@[0] == 'B' && "VIEW"@[0] == 'V');
        }
        if str_eq(name, "BASE TABLE") {
            Some(TableType::BaseTable)
        } else if str_eq(name, "VIEW") {
            Some(TableType::View)
        } else {
            None
        }
    }
}

/// Ordinals ordered as numbers.
pub open spec fn ordinal_less() -> spec_fn(i16, i16) -> bool {
    |x: i16, y: i16| x < y
}

/// Lexicographic order on ordinal lists.
pub open spec fn ords_lt(a: Seq<i16>, b: Seq<i16>) -> bool {
    lex_lt(a, b, ordinal_less())
}

proof fn lemma_ords_lt_total(a: Seq<i16>, b: Seq<i16>)
    requires
        a != b,
    ensures
        ords_lt(a, b) || ords_lt(b, a),
{
    lemma_lex_lt_total(a, b, ordinal_less());
}

fn ords_less(a: &Vec<i16>, b: &Vec<i16>) -> (r: bool)
    ensures
        r == ords_lt(a@, b@),
{
    let mut i: usize = 0;
    assert(a@.skip(0) =~= a@);
    assert(b@.skip(0) =~= b@);
    while i < a.len() && i < b.len()
        invariant
            i <= a@.len(),
            i <= b@.len(),
            ords_lt(a@, b@) == ords_lt(a@.skip(i as int), b@.skip(i as int)),
        decreases a@.len() - i,
    {
        if a[i] != b[i] {
            return a[i] < b[i];
        }
        assert(a@.skip(i as int).subrange(1, a@.skip(i as int).len() as int) =~= a@.skip(
            i as int + 1,
        ));
        assert(b@.skip(i as int).subrange(1, b@.skip(i as int).len() as int) =~= b@.skip(
            i as int + 1,
        ));
        i = i + 1;
    }
    i == a.len() && i < b.len()
}

fn ords_equal(a: &Vec<i16>, b: &Vec<i16>) -> (r: bool)
    ensures
        r == (a@ == b@),
{
    if a.len() != b.len() {
        return false;
    }
    let mut i: usize = 0;
    while i < a.len()
        invariant
            a@.len() == b@.len(),
            i <= a@.len(),
            a@.take(i as int) == b@.take(i as int),
        decreases a@.len() - i,
    {
        if a[i] != b[i] {
            return false;
        }
        assert(a@.take(i as int + 1) =~= a@.take(i as int).push(a@[i as int]));
        assert(b@.take(i as int + 1) =~= b@.take(i as int).push(b@[i as int]));
        i = i + 1;
    }
    assert(a@.take(a@.len() as int) =~= a@);
    assert(b@.take(b@.len() as int) =~= b@);
    true
}

/// What identifies a foreign-key definition: source table and ordinals,
/// target table and ordinals.
pub open spec fn fk_key(r: FkRow) -> (Seq<char>, Seq<i16>, Seq<char>, Seq<i16>) {
    (r.source_table_name@, r.source_columns@, r.target_table_name@, r.target_columns@)
}

/// The order of foreign-key definitions: by source table, source ordinals,
/// target table, then target ordinals.
pub open spec fn fk_key_lt(
    a: (Seq<char>, Seq<i16>, Seq<char>, Seq<i16>),
    b: (Seq<char>, Seq<i16>, Seq<char>, Seq<i16>),
) -> bool {
    ||| chars_lt(a.0, b.0)
    ||| a.0 == b.0 && ords_lt(a.1, b.1)
    ||| a.0 == b.0 && a.1 == b.1 && chars_lt(a.2, b.2)
    ||| a.0 == b.0 && a.1 == b.1 && a.2 == b.2 && ords_lt(a.3, b.3)
}

pub open spec fn fk_keys(rows: Seq<FkRow>) -> Seq<(Seq<char>, Seq<i16>, Seq<char>, Seq<i16>)> {
    rows.map_values(|r: FkRow| fk_key(r))
}

/// Definition keys ordered by `fk_key_lt`.
pub open spec fn fk_key_less() -> spec_fn(
    (Seq<char>, Seq<i16>, Seq<char>, Seq<i16>),
    (Seq<char>, Seq<i16>, Seq<char>, Seq<i16>),
) -> bool {
    |a: (Seq<char>, Seq<i16>, Seq<char>, Seq<i16>), b: (Seq<char>, Seq<i16>, Seq<char>, Seq<i16>)|
        fk_key_lt(a, b)
}

/// Whether each definition sorts strictly before the next one.
pub open spec fn fks_sorted(rows: Seq<FkRow>) -> bool {
    sorted_by(fk_keys(rows), fk_key_less())
}

fn fk_less(a: &FkRow, b: &FkRow) -> (r: bool)
    ensures
        r == fk_key_lt(fk_key(*a), fk_key(*b)),
{
    if str_lt(a.source_table_name.as_str(), b.source_table_name.as_str()) {
        return true;
    }
    if !str_eq(a.source_table_name.as_str(), b.source_table_name.as_str()) {
        return false;
    }
    if ords_less(&a.source_columns, &b.source_columns) {
        return true;
    }
    if !ords_equal(&a.source_columns, &b.source_columns) {
        return false;
    }
    if str_lt(a.target_table_name.as_str(), b.target_table_name.as_str()) {
        return true;
    }
    if !str_eq(a.target_table_name.as_str(), b.target_table_name.as_str()) {
        return false;
    }
    ords_less(&a.target_columns, &b.target_columns)
}

fn fk_equal(a: &FkRow, b: &FkRow) -> (r: bool)
    ensures
        r == (fk_key(*a) == fk_key(*b)),
{
    str_eq(a.source_table_name.as_str(), b.source_table_name.as_str()) && ords_equal(
        &a.source_columns,
        &b.source_columns,
    ) && str_eq(a.target_table_name.as_str(), b.target_table_name.as_str()) && ords_equal(
        &a.target_columns,
        &b.target_columns,
    )
}

proof fn lemma_fk_key_lt_total(
    a: (Seq<char>, Seq<i16>, Seq<char>, Seq<i16>),
    b: (Seq<char>, Seq<i16>, Seq<char>, Seq<i16>),
)
    requires
        a != b,
    ensures
        fk_key_lt(a, b) || fk_key_lt(b, a),
{
    if a.0 != b.0 {
        lemma_chars_lt_total(a.0, b.0);
    } else if a.1 != b.1 {
        lemma_ords_lt_total(a.1, b.1);
    } else if a.2 != b.2 {
        lemma_chars_lt_total(a.2, b.2);
    } else {
        lemma_ords_lt_total(a.3, b.3);
    }
}

/// Inserts a definition at its place in a sorted list of definitions.
fn insert_fk_def(v: &mut Vec<FkRow>, x: FkRow)
    requires
        fks_sorted(old(v)@),
        fk_keys(old(v)@).no_duplicates(),
        !fk_keys(old(v)@).contains(fk_key(x)),
    ensures
        fks_sorted(final(v)@),
        fk_keys(final(v)@).no_duplicates(),
        fk_keys(final(v)@).to_set() == fk_keys(old(v)@).to_set().insert(fk_key(x)),
{
    let mut p: usize = 0;
    while p < v.len() && fk_less(&v[p], &x)
        invariant
            p <= v@.len(),
            p > 0 ==> fk_key_lt(fk_key(v@[p - 1]), fk_key(x)),
        decreases v@.len() - p,
    {
        p = p + 1;
    }
    let ghost before = v@;
    let ghost k = fk_key(x);
    proof {
        if p < v@.len() {
            assert(fk_keys(v@)[p as int] == fk_key(v@[p as int]));
            lemma_fk_key_lt_total(fk_key(v@[p as int]), k);
        }
        if p > 0 {
            assert(fk_keys(v@)[p - 1] == fk_key(v@[p - 1]));
        }
        lemma_sorted_insert(fk_keys(v@), p as int, k, fk_key_less());
        lemma_insert_contains(fk_keys(before), p as int, k);
    }
    v.insert(p, x);
    assert(fk_keys(v@) =~= fk_keys(before).insert(p as int, k));
    assert(fk_keys(v@).to_set() =~= fk_keys(before).to_set().insert(k));
}

fn contains_fk_def(v: &Vec<FkRow>, x: &FkRow) -> (r: bool)
    ensures
        r == fk_keys(v@).contains(fk_key(*x)),
{
    let mut i: usize = 0;
    while i < v.len()
        invariant
            i <= v@.len(),
            forall|k: int| 0 <= k < i ==> fk_key(v@[k]) != fk_key(*x),
        decreases v@.len() - i,
    {
        if fk_equal(&v[i], x) {
            assert(fk_keys(v@)[i as int] == fk_key(*x));
            return true;
        }
        i = i + 1;
    }
    false
}

/// The foreign-key definitions of `rows` as a set: sorted, each once.
pub fn sort_fk_defs(rows: Vec<FkRow>) -> (r: Vec<FkRow>)
    ensures
        fks_sorted(r@),
        fk_keys(r@).no_duplicates(),
        fk_keys(r@).to_set() == fk_keys(rows@).to_set(),
{
    let ghost all = rows@;
    let mut rows = rows;
    let mut r: Vec<FkRow> = Vec::new();
    let n = rows.len();
    let mut i: usize = 0;
    assert(fk_keys(r@).to_set() =~= fk_keys(all.take(0)).to_set());
    while rows.len() > 0
        invariant
            n == all.len(),
            i + rows@.len() == all.len(),
            rows@ == all.skip(i as int),
            fks_sorted(r@),
            fk_keys(r@).no_duplicates(),
            fk_keys(r@).to_set() == fk_keys(all.take(i as int)).to_set(),
        decreases rows@.len(),
    {
        let x = rows.remove(0);
        assert(rows@ =~= all.skip(i as int + 1));
        assert(fk_keys(all.take(i as int + 1)) =~= fk_keys(all.take(i as int)).push(fk_key(x)));
        if !contains_fk_def(&r, &x) {
            insert_fk_def(&mut r, x);
        }
        proof {
            broadcast use vstd::seq_lib::lemma_seq_contains_after_push;

        }
        assert(fk_keys(r@).to_set() =~= fk_keys(all.take(i as int + 1)).to_set());
        i = i + 1;
    }
    assert(all.take(i as int) =~= all);
    r
}

/// The primary-key ordinals of `table`; a later row for the same table
/// replaces an earlier one.
pub open spec fn pk_ordinals(pks: Seq<PkRow>, table: Seq<char>) -> Option<Seq<i16>>
    decreases pks.len(),
{
    if pks.len() == 0 {
        None
    } else if pks.last().table_name@ == table {
        Some(pks.last().columns@)
    } else {
        pk_ordinals(pks.drop_last(), table)
    }
}

pub open spec fn in_pk(pks: Seq<PkRow>, table: Seq<char>, col_num: i16) -> bool {
    pk_ordinals(pks, table) matches Some(o) && o.contains(col_num)
}

/// Whether some foreign key of `table` has `col_num` among its source columns.
pub open spec fn in_fk(fks: Seq<FkRow>, table: Seq<char>, col_num: i16) -> bool {
    exists|i: int|
        0 <= i < fks.len() && (#[trigger] fks[i]).source_table_name@ == table
            && fks[i].source_columns@.contains(col_num)
}

/// The constraints of a column: a primary-key column is also NOT NULL and
/// UNIQUE; a source column of a foreign key is marked as such.
pub open spec fn key_constraints(pks: Seq<PkRow>, fks: Seq<FkRow>, table: Seq<char>, col_num: i16) -> Set<
    ColumnConstraints,
> {
    let k = if in_pk(pks, table, col_num) {
        set![ColumnConstraints::PrimaryKey, ColumnConstraints::NotNull, ColumnConstraints::Unique]
    } else {
        Set::empty()
    };
    if in_fk(fks, table, col_num) {
        k.insert(ColumnConstraints::ForeignKey)
    } else {
        k
    }
}

/// The column that `row` describes, with its constraints.
pub open spec fn column_from_row(c: TableColumn, row: ColumnRow, pks: Seq<PkRow>, fks: Seq<FkRow>) -> bool {
    &&& c.name == row.col_name
    &&& c.col_num == row.col_num
    &&& c.datatype == row.datatype
    &&& c.constraints@ == if row.not_null {
        key_constraints(pks, fks, row.table_name@, row.col_num).insert(ColumnConstraints::NotNull)
    } else {
        key_constraints(pks, fks, row.table_name@, row.col_num)
    }
}

pub(crate) fn contains_ordinal(ords: &Vec<i16>, n: i16) -> (r: bool)
    ensures
        r == ords@.contains(n),
{
    let mut j: usize = 0;
    while j < ords.len()
        invariant
            j <= ords@.len(),
            forall|k: int| 0 <= k < j ==> ords@[k] != n,
        decreases ords@.len() - j,
    {
        if ords[j] == n {
            assert(ords@[j as int] == n);
            return true;
        }
        j = j + 1;
    }
    false
}

fn is_pk(pks: &Vec<PkRow>, table_name: &str, col_num: i16) -> (r: bool)
    ensures
        r == in_pk(pks@, table_name@, col_num),
{
    let mut i: usize = pks.len();
    assert(pks@.take(pks@.len() as int) =~= pks@);
    while i > 0
        invariant
            i <= pks@.len(),
            pk_ordinals(pks@, table_name@) == pk_ordinals(pks@.take(i as int), table_name@),
        decreases i,
    {
        assert(pks@.take(i as int).drop_last() =~= pks@.take(i as int - 1));
        if str_eq(pks[i - 1].table_name.as_str(), table_name) {
            assert(pk_ordinals(pks@, table_name@) == Some(pks@[i - 1].columns@));
            return contains_ordinal(&pks[i - 1].columns, col_num);
        }
        i = i - 1;
    }
    false
}

fn is_fk(fks: &Vec<FkRow>, table_name: &str, col_num: i16) -> (r: bool)
    ensures
        r == in_fk(fks@, table_name@, col_num),
{
    let mut i: usize = 0;
    while i < fks.len()
        invariant
            i <= fks@.len(),
            forall|k: int|
                0 <= k < i ==> !((#[trigger] fks@[k]).source_table_name@ == table_name@
                    && fks@[k].source_columns@.contains(col_num)),
        decreases fks@.len() - i,
    {
        if str_eq(fks[i].source_table_name.as_str(), table_name) {
            if contains_ordinal(&fks[i].source_columns, col_num) {
                return true;
            }
        }
        i = i + 1;
    }
    false
}

/// The key constraints of column `col_num` of `table_name`.
fn get_constraints(pks: &Vec<PkRow>, fks: &Vec<FkRow>, table_name: &str, col_num: i16) -> (r:
    ConstraintSet)
    ensures
        r@ == key_constraints(pks@, fks@, table_name@, col_num),
{
    let mut res = ConstraintSet::new();
    if is_pk(pks, table_name, col_num) {
        res.insert(ColumnConstraints::PrimaryKey);
        res.insert(ColumnConstraints::NotNull);
        res.insert(ColumnConstraints::Unique);
    }
    if is_fk(fks, table_name, col_num) {
        res.insert(ColumnConstraints::ForeignKey);
    }
    assert(res@ =~= key_constraints(pks@, fks@, table_name@, col_num));
    res
}

pub(crate) fn column_from(row: &ColumnRow, pks: &Vec<PkRow>, fks: &Vec<FkRow>) -> (c: TableColumn)
    ensures
        column_from_row(c, *row, pks@, fks@),
{
    let mut constraints = get_constraints(pks, fks, row.table_name.as_str(), row.col_num);
    if row.not_null {
        constraints.insert(ColumnConstraints::NotNull);
    }
    TableColumn {
        name: row.col_name.clone(),
        col_num: row.col_num,
        datatype: row.datatype.clone(),
        constraints,
    }
}

} // verus!
