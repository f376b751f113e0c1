//! Building the model from catalog rows: relations and their columns,
//! foreign keys resolved between them, views set apart from tables, and the
//! enumerated types.
use vstd::prelude::*;

use crate::catalog::{column_from, column_from_row, contains_ordinal, ColumnRow, FkRow, PkRow, TableRow, TableType};
use crate::error::SqlantError;
use crate::sql_entities::{enum_names, ForeignKey, SqlERData, SqlEnum, SqlView, Table, TableColumn};
use crate::text::{
    chars_lt, lemma_chars_lt_total, lemma_insert_contains, lemma_sorted_insert, name_less, names_of,
    str_eq, str_lt, strictly_sorted,
};

verus! {

/// The rows of `rows` that belong to relation `table`, in their order.
pub open spec fn rows_of(rows: Seq<ColumnRow>, table: Seq<char>) -> Seq<ColumnRow>
    decreases rows.len(),
{
    if rows.len() == 0 {
        Seq::empty()
    } else {
        rows_of(rows.drop_last(), table) + if rows.last().table_name@ == table {
            seq![rows.last()]
        } else {
            Seq::empty()
        }
    }
}

/// The names of the tables.
pub open spec fn table_names(tables: Seq<Table>) -> Seq<Seq<char>> {
    tables.map_values(|t: Table| t.name@)
}

/// `t` is the relation that `rows` describe: its columns are the rows of that
/// relation in their order, and its composite-key flag agrees with them.
pub open spec fn table_from_rows(t: Table, rows: Seq<ColumnRow>, pks: Seq<PkRow>, fks: Seq<FkRow>) -> bool {
    let rs = rows_of(rows, t.name@);
    &&& t.wf()
    &&& t.columns@.len() == rs.len()
    &&& forall|j: int| 0 <= j < rs.len() ==> column_from_row(#[trigger] t.columns@[j], rs[j], pks, fks)
}

/// Every row belongs to one of the relations asked for.
pub open spec fn rows_in_batch(rows: Seq<ColumnRow>, names: Seq<String>) -> bool {
    forall|i: int| 0 <= i < rows.len() ==> names_of(names).contains(#[trigger] rows[i].table_name@)
}

/// The relations built from one batch of column rows: sorted by name, one per
/// name asked for, each with its own columns.
pub open spec fn tables_built(
    tables: Seq<Table>,
    names: Seq<String>,
    rows: Seq<ColumnRow>,
    pks: Seq<PkRow>,
    fks: Seq<FkRow>,
) -> bool {
    &&& strictly_sorted(table_names(tables))
    &&& table_names(tables).no_duplicates()
    &&& table_names(tables).to_set() == names_of(names).to_set()
    &&& forall|k: int| 0 <= k < tables.len() ==> table_from_rows(#[trigger] tables[k], rows, pks, fks)
}

fn contains_name(names: &Vec<String>, n: &str) -> (r: bool)
    ensures
        r == names_of(names@).contains(n@),
{
    let mut i: usize = 0;
    while i < names.len()
        invariant
            i <= names@.len(),
            forall|k: int| 0 <= k < i ==> names@[k]@ != n@,
        decreases names@.len() - i,
    {
        if str_eq(names[i].as_str(), n) {
            assert(names_of(names@)[i as int] == n@);
            return true;
        }
        i = i + 1;
    }
    false
}

/// Inserts `x` at its place in a sorted list of names.
fn insert_name(v: &mut Vec<String>, x: String)
    requires
        strictly_sorted(names_of(old(v)@)),
        names_of(old(v)@).no_duplicates(),
        !names_of(old(v)@).contains(x@),
    ensures
        strictly_sorted(names_of(final(v)@)),
        names_of(final(v)@).no_duplicates(),
        names_of(final(v)@).to_set() == names_of(old(v)@).to_set().insert(x@),
{
    let mut p: usize = 0;
    while p < v.len() && str_lt(v[p].as_str(), x.as_str())
        invariant
            p <= v@.len(),
            p > 0 ==> chars_lt(v@[p - 1]@, x@),
        decreases v@.len() - p,
    {
        p = p + 1;
    }
    proof {
        if p < v@.len() {
            assert(names_of(v@)[p as int] == v@[p as int]@);
            lemma_chars_lt_total(v@[p as int]@, x@);
        }
        lemma_sorted_insert(names_of(v@), p as int, x@, name_less());
    }
    let ghost before = v@;
    v.insert(p, x);
    assert(names_of(v@) =~= names_of(before).insert(p as int, x@));
    proof {
        lemma_insert_contains(names_of(before), p as int, x@);
    }
    assert(names_of(v@).to_set() =~= names_of(before).to_set().insert(x@));
}

/// The names of `names`, sorted, each once.
fn sorted_names(names: &Vec<String>) -> (r: Vec<String>)
    ensures
        strictly_sorted(names_of(r@)),
        names_of(r@).no_duplicates(),
        names_of(r@).to_set() == names_of(names@).to_set(),
{
    let mut r: Vec<String> = Vec::new();
    let mut i: usize = 0;
    assert(names_of(r@).to_set() =~= names_of(names@.take(0)).to_set());
    while i < names.len()
        invariant
            i <= names@.len(),
            strictly_sorted(names_of(r@)),
            names_of(r@).no_duplicates(),
            names_of(r@).to_set() == names_of(names@.take(i as int)).to_set(),
        decreases names@.len() - i,
    {
        assert(names_of(names@.take(i as int + 1)) =~= names_of(names@.take(i as int)).push(
            names@[i as int]@,
        ));
        if !contains_name(&r, names[i].as_str()) {
            insert_name(&mut r, names[i].clone());
        }
        proof {
            broadcast use vstd::seq_lib::lemma_seq_contains_after_push;

        }
        assert(names_of(r@).to_set() =~= names_of(names@.take(i as int + 1)).to_set());
        i = i + 1;
    }
    assert(names@.take(names@.len() as int) =~= names@);
    r
}

/// Builds the relations `names` from one batch of column rows. Fails when a
/// row belongs to a relation that was not asked for.
pub fn load_tables(names: &Vec<String>, rows: &Vec<ColumnRow>, pks: &Vec<PkRow>, fks: &Vec<FkRow>) -> (r: Result<
    Vec<Table>,
    SqlantError,
>)
    ensures
        r is Ok <==> rows_in_batch(rows@, names@),
        r matches Ok(tables) ==> tables_built(tables@, names@, rows@, pks@, fks@),
        r matches Err(e) ==> e is PsqlErdLoader,
{
    let mut i: usize = 0;
    while i < rows.len()
        invariant
            i <= rows@.len(),
            forall|k: int| 0 <= k < i ==> names_of(names@).contains(#[trigger] rows@[k].table_name@),
        decreases rows@.len() - i,
    {
        if !contains_name(names, rows[i].table_name.as_str()) {
            return Err(SqlantError::PsqlErdLoader("Failed to get mut columns".to_string()));
        }
        i = i + 1;
    }
    let sorted = sorted_names(names);
    let mut tables: Vec<Table> = Vec::new();
    let mut k: usize = 0;
    while k < sorted.len()
        invariant
            k <= sorted@.len(),
            tables@.len() == k,
            forall|m: int| 0 <= m < k ==> (#[trigger] tables@[m]).name@ == sorted@[m]@,
            forall|m: int| 0 <= m < k ==> table_from_rows(#[trigger] tables@[m], rows@, pks@, fks@),
        decreases sorted@.len() - k,
    {
        let name = &sorted[k];
        let mut cols: Vec<TableColumn> = Vec::new();
        let mut j: usize = 0;
        while j < rows.len()
            invariant
                j <= rows@.len(),
                cols@.len() == rows_of(rows@.take(j as int), name@).len(),
                forall|m: int|
                    0 <= m < cols@.len() ==> column_from_row(
                        #[trigger] cols@[m],
                        rows_of(rows@.take(j as int), name@)[m],
                        pks@,
                        fks@,
                    ),
            decreases rows@.len() - j,
        {
            assert(rows@.take(j as int + 1).drop_last() =~= rows@.take(j as int));
            if str_eq(rows[j].table_name.as_str(), name.as_str()) {
                let c = column_from(&rows[j], pks, fks);
                cols.push(c);
            }
            j = j + 1;
        }
        assert(rows@.take(rows@.len() as int) =~= rows@);
        let t = Table::new(name.clone(), cols);
        tables.push(t);
        k = k + 1;
    }
    assert(table_names(tables@) =~= names_of(sorted@));
    Ok(tables)
}

/// The ordinals of the columns of `cols` that `ords` lists, in the order of
/// `cols`.
pub open spec fn selected_ordinals(cols: Seq<TableColumn>, ords: Seq<i16>) -> Seq<i16>
    decreases cols.len(),
{
    if cols.len() == 0 {
        Seq::empty()
    } else {
        selected_ordinals(cols.drop_last(), ords) + if ords.contains(cols.last().col_num) {
            seq![cols.last().col_num]
        } else {
            Seq::empty()
        }
    }
}

/// The ordinals of the columns in `cols`.
pub open spec fn col_nums(cols: Seq<TableColumn>) -> Seq<i16> {
    cols.map_values(|c: TableColumn| c.col_num)
}

/// The selected ordinals are those that both the table and the list hold;
/// where the table's ordinals are unique, each is selected once.
proof fn lemma_selected_contains(cols: Seq<TableColumn>, ords: Seq<i16>)
    ensures
        forall|x: i16|
            #[trigger] selected_ordinals(cols, ords).contains(x) <==> ords.contains(x) && col_nums(
                cols,
            ).contains(x),
        col_nums(cols).no_duplicates() ==> selected_ordinals(cols, ords).no_duplicates(),
    decreases cols.len(),
{
    if cols.len() > 0 {
        let prev = cols.drop_last();
        lemma_selected_contains(prev, ords);
        let sp = selected_ordinals(prev, ords);
        let sel = selected_ordinals(cols, ords);
        let last = cols.last().col_num;
        assert(col_nums(cols) =~= col_nums(prev).push(last));
        assert forall|x: i16| #[trigger] sel.contains(x) <==> ords.contains(x) && col_nums(
            cols,
        ).contains(x) by {
            if sel.contains(x) {
                let k = choose|k: int| 0 <= k < sel.len() && sel[k] == x;
                if k < sp.len() {
                    assert(sp[k] == x);
                    assert(sp.contains(x));
                    let j = choose|j: int|
                        0 <= j < col_nums(prev).len() && col_nums(prev)[j] == x;
                    assert(col_nums(cols)[j] == x);
                } else {
                    assert(x == last);
                    assert(col_nums(cols)[cols.len() - 1] == last);
                }
            }
            if ords.contains(x) && col_nums(cols).contains(x) {
                if x == last {
                    assert(sel[sel.len() - 1] == x);
                } else {
                    let k = choose|k: int|
                        0 <= k < col_nums(cols).len() && col_nums(cols)[k] == x;
                    assert(col_nums(prev)[k] == x);
                    assert(sp.contains(x));
                    let m = choose|m: int| 0 <= m < sp.len() && sp[m] == x;
                    assert(sel[m] == x);
                }
            }
        }
        if col_nums(cols).no_duplicates() {
            assert(col_nums(prev).no_duplicates()) by {
                assert forall|i: int, j: int|
                    0 <= i < col_nums(prev).len() && 0 <= j < col_nums(prev).len() && i
                        != j implies col_nums(prev)[i] != col_nums(prev)[j] by {
                    assert(col_nums(prev)[i] == col_nums(cols)[i]);
                    assert(col_nums(prev)[j] == col_nums(cols)[j]);
                }
            }
            if ords.contains(last) {
                assert(!sp.contains(last)) by {
                    if sp.contains(last) {
                        let k = choose|k: int|
                            0 <= k < col_nums(prev).len() && col_nums(prev)[k] == last;
                        assert(col_nums(cols)[k] == col_nums(cols)[cols.len() - 1]);
                    }
                }
                assert forall|i: int, j: int|
                    0 <= i < sel.len() && 0 <= j < sel.len() && i != j implies sel[i]
                        != sel[j] by {
                    if i < sp.len() && j < sp.len() {
                        assert(sel[i] == sp[i] && sel[j] == sp[j]);
                    } else if i < sp.len() {
                        assert(sel[i] == sp[i]);
                    } else if j < sp.len() {
                        assert(sel[j] == sp[j]);
                    }
                }
            } else {
                assert(sel =~= sp);
            }
        }
    }
}

/// Every column that a resolved foreign key names is a column of its table,
/// at that ordinal.
pub proof fn lemma_fk_columns_belong(fk: ForeignKey, tables: Seq<Table>, src: int, def: FkRow)
    requires
        fk_resolved(fk, tables, src, def),
    ensures
        forall|i: int|
            0 <= i < fk.source_columns@.len() ==> col_nums(tables[src].columns@).contains(
                #[trigger] fk.source_columns@[i],
            ),
        forall|i: int|
            0 <= i < fk.target_columns@.len() ==> col_nums(
                tables[find_table(tables, def.target_table_name@)->0].columns@,
            ).contains(#[trigger] fk.target_columns@[i]),
{
    let t = tables[find_table(tables, def.target_table_name@)->0];
    lemma_selected_contains(tables[src].columns@, def.source_columns@);
    lemma_selected_contains(t.columns@, def.target_columns@);
    assert forall|i: int| 0 <= i < fk.source_columns@.len() implies col_nums(
        tables[src].columns@,
    ).contains(#[trigger] fk.source_columns@[i]) by {
        assert(fk.source_columns@.contains(fk.source_columns@[i]));
    }
    assert forall|i: int| 0 <= i < fk.target_columns@.len() implies col_nums(t.columns@).contains(
        #[trigger] fk.target_columns@[i],
    ) by {
        assert(fk.target_columns@.contains(fk.target_columns@[i]));
    }
}

/// When a table's ordinals are unique and a list of distinct ordinals names
/// only columns of that table, each listed column is selected exactly once.
proof fn lemma_selected_len(cols: Seq<TableColumn>, ords: Seq<i16>)
    requires
        col_nums(cols).no_duplicates(),
        ords.no_duplicates(),
        forall|i: int| 0 <= i < ords.len() ==> col_nums(cols).contains(#[trigger] ords[i]),
    ensures
        selected_ordinals(cols, ords).len() == ords.len(),
{
    let sel = selected_ordinals(cols, ords);
    lemma_selected_contains(cols, ords);
    assert(sel.to_set() =~= ords.to_set()) by {
        assert forall|x: i16| sel.to_set().contains(x) <==> ords.to_set().contains(x) by {
            if ords.contains(x) {
                let k = choose|k: int| 0 <= k < ords.len() && ords[k] == x;
                assert(col_nums(cols).contains(ords[k]));
            }
        }
    }
    sel.unique_seq_to_set();
    ords.unique_seq_to_set();
}

/// Where the catalog's definition is consistent (as many distinct source
/// ordinals as target ordinals, each naming a column of its table, and each
/// table's ordinals unique), a resolved foreign key has as many source
/// columns as target columns.
pub proof fn lemma_fk_widths_match(fk: ForeignKey, tables: Seq<Table>, src: int, def: FkRow)
    requires
        fk_resolved(fk, tables, src, def),
        def.source_columns@.len() == def.target_columns@.len(),
        def.source_columns@.no_duplicates(),
        def.target_columns@.no_duplicates(),
        col_nums(tables[src].columns@).no_duplicates(),
        col_nums(tables[find_table(tables, def.target_table_name@)->0].columns@).no_duplicates(),
        forall|i: int|
            0 <= i < def.source_columns@.len() ==> col_nums(tables[src].columns@).contains(
                #[trigger] def.source_columns@[i],
            ),
        forall|i: int|
            0 <= i < def.target_columns@.len() ==> col_nums(
                tables[find_table(tables, def.target_table_name@)->0].columns@,
            ).contains(#[trigger] def.target_columns@[i]),
    ensures
        fk.source_columns@.len() == fk.target_columns@.len(),
{
    let t = tables[find_table(tables, def.target_table_name@)->0];
    lemma_selected_len(tables[src].columns@, def.source_columns@);
    lemma_selected_len(t.columns@, def.target_columns@);
}

/// The position of the first table named `name`.
pub open spec fn find_table(tables: Seq<Table>, name: Seq<char>) -> Option<int>
    decreases tables.len(),
{
    if tables.len() == 0 {
        None
    } else {
        match find_table(tables.drop_last(), name) {
            Some(i) => Some(i),
            None => if tables.last().name@ == name {
                Some(tables.len() - 1)
            } else {
                None
            },
        }
    }
}

/// The definitions among the first `n` of `fks` whose source is `name`, as
/// pairs of the source table's position `k` and the definition's position.
pub open spec fn defs_for(fks: Seq<FkRow>, n: int, name: Seq<char>, k: int) -> Seq<(int, int)>
    decreases n,
{
    if n <= 0 {
        Seq::empty()
    } else {
        defs_for(fks, n - 1, name, k) + if fks[n - 1].source_table_name@ == name {
            seq![(k, n - 1)]
        } else {
            Seq::empty()
        }
    }
}

/// The order of the foreign keys: by source table, then in catalog order.
pub open spec fn fk_plan(tables: Seq<Table>, fks: Seq<FkRow>, k: int) -> Seq<(int, int)>
    decreases k,
{
    if k <= 0 {
        Seq::empty()
    } else {
        fk_plan(tables, fks, k - 1) + defs_for(fks, fks.len() as int, tables[k - 1].name@, k - 1)
    }
}

/// Every foreign key of a loaded table points to a loaded table.
pub open spec fn targets_found(tables: Seq<Table>, fks: Seq<FkRow>) -> bool {
    forall|k: int, j: int|
        #![trigger tables[k], fks[j]]
        0 <= k < tables.len() && 0 <= j < fks.len() && tables[k].name@
            == fks[j].source_table_name@ ==> find_table(tables, fks[j].target_table_name@) is Some
}

/// `fk` is definition `def` resolved: source table `src`, target table the
/// first one named as the definition says, and the columns of each that the
/// definition lists.
pub open spec fn fk_resolved(fk: ForeignKey, tables: Seq<Table>, src: int, def: FkRow) -> bool {
    let s = tables[src];
    let t = tables[find_table(tables, def.target_table_name@)->0];
    &&& fk.source_table == s.name
    &&& fk.source_columns@ == selected_ordinals(s.columns@, def.source_columns@)
    &&& fk.target_table == t.name
    &&& fk.target_columns@ == selected_ordinals(t.columns@, def.target_columns@)
    &&& fk.is_zero_one_to_one == crate::sql_entities::zero_one_to_one(
        s.columns@,
        fk.source_columns@,
        t.columns@,
        fk.target_columns@,
    )
}

/// `out` holds the foreign keys that `plan` lists, resolved, in its order.
pub open spec fn resolved_as_planned(
    out: Seq<ForeignKey>,
    tables: Seq<Table>,
    fks: Seq<FkRow>,
    plan: Seq<(int, int)>,
) -> bool {
    &&& out.len() == plan.len()
    &&& forall|i: int|
        0 <= i < plan.len() ==> 0 <= (#[trigger] plan[i]).0 < tables.len() && 0 <= plan[i].1
            < fks.len()
    &&& forall|i: int|
        0 <= i < plan.len() ==> fk_resolved(#[trigger] out[i], tables, plan[i].0, fks[plan[i].1])
}

fn select_ordinals(t: &Table, ords: &Vec<i16>) -> (r: Vec<i16>)
    ensures
        r@ == selected_ordinals(t.columns@, ords@),
{
    let mut r: Vec<i16> = Vec::new();
    let mut i: usize = 0;
    while i < t.columns.len()
        invariant
            i <= t.columns@.len(),
            r@ == selected_ordinals(t.columns@.take(i as int), ords@),
        decreases t.columns@.len() - i,
    {
        assert(t.columns@.take(i as int + 1).drop_last() =~= t.columns@.take(i as int));
        if contains_ordinal(ords, t.columns[i].col_num) {
            r.push(t.columns[i].col_num);
        }
        assert(r@ =~= selected_ordinals(t.columns@.take(i as int + 1), ords@));
        i = i + 1;
    }
    assert(t.columns@.take(t.columns@.len() as int) =~= t.columns@);
    r
}

fn position_of_table(tables: &Vec<Table>, name: &str) -> (r: Option<usize>)
    ensures
        r matches Some(i) ==> find_table(tables@, name@) == Some(i as int) && i < tables@.len(),
        r is None ==> find_table(tables@, name@) is None,
{
    let mut i: usize = 0;
    while i < tables.len()
        invariant
            i <= tables@.len(),
            find_table(tables@.take(i as int), name@) is None,
        decreases tables@.len() - i,
    {
        assert(tables@.take(i as int + 1).drop_last() =~= tables@.take(i as int));
        if str_eq(tables[i].name.as_str(), name) {
            proof {
                lemma_find_table_prefix(tables@, i as int + 1, name@);
            }
            return Some(i);
        }
        i = i + 1;
    }
    assert(tables@.take(tables@.len() as int) =~= tables@);
    None
}

proof fn lemma_find_table_found(tables: Seq<Table>, name: Seq<char>)
    ensures
        find_table(tables, name) matches Some(i) ==> 0 <= i < tables.len() && tables[i].name@
            == name,
    decreases tables.len(),
{
    if tables.len() > 0 {
        lemma_find_table_found(tables.drop_last(), name);
    }
}

proof fn lemma_defs_for_bounds(fks: Seq<FkRow>, n: int, name: Seq<char>, k: int)
    requires
        0 <= n <= fks.len(),
    ensures
        forall|i: int|
            0 <= i < defs_for(fks, n, name, k).len() ==> (#[trigger] defs_for(fks, n, name, k)[i]).0
                == k && 0 <= defs_for(fks, n, name, k)[i].1 < n,
    decreases n,
{
    if n > 0 {
        lemma_defs_for_bounds(fks, n - 1, name, k);
        let prev = defs_for(fks, n - 1, name, k);
        let cur = defs_for(fks, n, name, k);
        assert forall|i: int| 0 <= i < cur.len() implies (#[trigger] cur[i]).0 == k && 0 <= cur[i].1
            < n by {
            if i < prev.len() {
                assert(cur[i] == prev[i]);
            }
        }
    }
}

proof fn lemma_find_table_prefix(tables: Seq<Table>, n: int, name: Seq<char>)
    requires
        0 <= n <= tables.len(),
        find_table(tables.take(n), name) is Some,
    ensures
        find_table(tables, name) == find_table(tables.take(n), name),
    decreases tables.len() - n,
{
    if n < tables.len() {
        assert(tables.take(n + 1).drop_last() =~= tables.take(n));
        lemma_find_table_prefix(tables, n + 1, name);
    } else {
        assert(tables.take(n) =~= tables);
    }
}

/// Resolves the foreign-key definitions of the loaded tables. Fails when a
/// definition points to a table that was not loaded.
pub fn get_fks(tables: &Vec<Table>, fks: &Vec<FkRow>) -> (r: Result<Vec<ForeignKey>, SqlantError>)
    ensures
        r is Ok <==> targets_found(tables@, fks@),
        r matches Ok(out) ==> resolved_as_planned(
            out@,
            tables@,
            fks@,
            fk_plan(tables@, fks@, tables@.len() as int),
        ),
        r matches Err(e) ==> e is PsqlErdLoader,
{
    let mut res: Vec<ForeignKey> = Vec::new();
    let mut k: usize = 0;
    while k < tables.len()
        invariant
            k <= tables@.len(),
            forall|k2: int, j: int|
                #![trigger tables@[k2], fks@[j]]
                0 <= k2 < k && 0 <= j < fks@.len() && tables@[k2].name@
                    == fks@[j].source_table_name@ ==> find_table(
                    tables@,
                    fks@[j].target_table_name@,
                ) is Some,
            resolved_as_planned(res@, tables@, fks@, fk_plan(tables@, fks@, k as int)),
        decreases tables@.len() - k,
    {
        let tbl = &tables[k];
        let ghost base = fk_plan(tables@, fks@, k as int);
        let mut j: usize = 0;
        assert(base + defs_for(fks@, 0, tbl.name@, k as int) =~= base);
        while j < fks.len()
            invariant
                k < tables@.len(),
                tbl == tables@[k as int],
                j <= fks@.len(),
                forall|k2: int, j2: int|
                    #![trigger tables@[k2], fks@[j2]]
                    (0 <= k2 < k || (k2 == k && j2 < j)) && 0 <= j2 < fks@.len()
                        && tables@[k2].name@ == fks@[j2].source_table_name@ ==> find_table(
                        tables@,
                        fks@[j2].target_table_name@,
                    ) is Some,
                resolved_as_planned(
                    res@,
                    tables@,
                    fks@,
                    base + defs_for(fks@, j as int, tbl.name@, k as int),
                ),
            decreases fks@.len() - j,
        {
            let def = &fks[j];
            let ghost plan = base + defs_for(fks@, j as int, tbl.name@, k as int);
            let ghost before = res@;
            proof {
                lemma_defs_for_bounds(fks@, j as int + 1, tbl.name@, k as int);
                lemma_find_table_found(tables@, def.target_table_name@);
            }
            if str_eq(def.source_table_name.as_str(), tbl.name.as_str()) {
                let target = position_of_table(tables, def.target_table_name.as_str());
                match target {
                    None => {
                        return Err(
                            SqlantError::PsqlErdLoader("Target table is not found".to_string()),
                        );
                    },
                    Some(t) => {
                        let source_columns = select_ordinals(tbl, &def.source_columns);
                        let target_columns = select_ordinals(&tables[t], &def.target_columns);
                        let fk = ForeignKey::new(tbl, source_columns, &tables[t], target_columns);
                        res.push(fk);
                        let ghost np = plan.push((k as int, j as int));
                        assert forall|i: int| 0 <= i < np.len() implies fk_resolved(
                            #[trigger] res@[i],
                            tables@,
                            np[i].0,
                            fks@[np[i].1],
                        ) by {
                            if i < plan.len() {
                                assert(res@[i] == before[i]);
                                assert(np[i] == plan[i]);
                            }
                        }
                        assert forall|i: int| 0 <= i < np.len() implies 0 <= (#[trigger] np[i]).0
                            < tables@.len() && 0 <= np[i].1 < fks@.len() by {
                            if i < plan.len() {
                                assert(np[i] == plan[i]);
                            }
                        }
                    },
                }
            }
            assert(base + defs_for(fks@, j as int + 1, tbl.name@, k as int) =~= plan + if fks@[j as int].source_table_name@ == tbl.name@ {
                seq![(k as int, j as int)]
            } else {
                Seq::empty()
            });
            j = j + 1;
        }
        assert(fk_plan(tables@, fks@, k as int + 1) == base + defs_for(
            fks@,
            fks@.len() as int,
            tbl.name@,
            k as int,
        ));
        k = k + 1;
    }
    Ok(res)
}

/// The type of relation `name`, as the first row naming it says.
pub open spec fn kind_of(rels: Seq<TableRow>, kinds: Seq<TableType>, name: Seq<char>) -> Option<
    TableType,
>
    decreases rels.len(),
{
    if rels.len() == 0 {
        None
    } else {
        match kind_of(rels.drop_last(), kinds, name) {
            Some(t) => Some(t),
            None => if rels.last().name@ == name {
                Some(kinds[rels.len() - 1])
            } else {
                None
            },
        }
    }
}

pub open spec fn as_view(t: Table, materialized: bool) -> SqlView {
    SqlView { name: t.name, materialized, columns: t.columns }
}

/// The relations of `tv` that are base tables, in their order.
pub open spec fn base_tables(tv: Seq<Table>, rels: Seq<TableRow>, kinds: Seq<TableType>) -> Seq<
    Table,
>
    decreases tv.len(),
{
    if tv.len() == 0 {
        Seq::empty()
    } else {
        base_tables(tv.drop_last(), rels, kinds) + if kind_of(rels, kinds, tv.last().name@) == Some(
            TableType::View,
        ) {
            Seq::empty()
        } else {
            seq![tv.last()]
        }
    }
}

/// The relations of `tv` that are views, as views, in their order.
pub open spec fn plain_views(tv: Seq<Table>, rels: Seq<TableRow>, kinds: Seq<TableType>) -> Seq<
    SqlView,
>
    decreases tv.len(),
{
    if tv.len() == 0 {
        Seq::empty()
    } else {
        plain_views(tv.drop_last(), rels, kinds) + if kind_of(rels, kinds, tv.last().name@) == Some(
            TableType::View,
        ) {
            seq![as_view(tv.last(), false)]
        } else {
            Seq::empty()
        }
    }
}

pub open spec fn materialized_views(mv: Seq<Table>) -> Seq<SqlView>
    decreases mv.len(),
{
    if mv.len() == 0 {
        Seq::empty()
    } else {
        materialized_views(mv.drop_last()).push(as_view(mv.last(), true))
    }
}

fn kind_of_relation(rels: &Vec<TableRow>, kinds: &Vec<TableType>, name: &str) -> (r: Option<
    TableType,
>)
    requires
        kinds@.len() == rels@.len(),
    ensures
        r == kind_of(rels@, kinds@, name@),
{
    let mut i: usize = 0;
    while i < rels.len()
        invariant
            i <= rels@.len(),
            kinds@.len() == rels@.len(),
            kind_of(rels@.take(i as int), kinds@, name@) is None,
        decreases rels@.len() - i,
    {
        assert(rels@.take(i as int + 1).drop_last() =~= rels@.take(i as int));
        if str_eq(rels[i].name.as_str(), name) {
            proof {
                lemma_kind_of_prefix(rels@, kinds@, i as int + 1, name@);
            }
            return Some(kinds[i]);
        }
        i = i + 1;
    }
    assert(rels@.take(rels@.len() as int) =~= rels@);
    None
}

proof fn lemma_kind_of_prefix(rels: Seq<TableRow>, kinds: Seq<TableType>, n: int, name: Seq<char>)
    requires
        0 <= n <= rels.len(),
        kind_of(rels.take(n), kinds, name) is Some,
    ensures
        kind_of(rels, kinds, name) == kind_of(rels.take(n), kinds, name),
    decreases rels.len() - n,
{
    if n < rels.len() {
        assert(rels.take(n + 1).drop_last() =~= rels.take(n));
        lemma_kind_of_prefix(rels, kinds, n + 1, name);
    } else {
        assert(rels.take(n) =~= rels);
    }
}

/// Moves the relations that the catalog lists as views out of the tables:
/// the materialized views come first, then the plain views in their order.
pub fn split_views(
    tables_and_views: Vec<Table>,
    rels: &Vec<TableRow>,
    kinds: &Vec<TableType>,
    mat_views: Vec<Table>,
) -> (r: (Vec<Table>, Vec<SqlView>))
    requires
        kinds@.len() == rels@.len(),
    ensures
        r.0@ == base_tables(tables_and_views@, rels@, kinds@),
        r.1@ == materialized_views(mat_views@) + plain_views(tables_and_views@, rels@, kinds@),
{
    let ghost mv0 = mat_views@;
    let ghost tv0 = tables_and_views@;
    let mut mat_views = mat_views;
    let mut tv = tables_and_views;
    let mut views: Vec<SqlView> = Vec::new();
    let mut i: usize = 0;
    let n = mat_views.len();
    assert(mv0.take(0) =~= Seq::<Table>::empty());
    while mat_views.len() > 0
        invariant
            n == mv0.len(),
            i + mat_views@.len() == mv0.len(),
            mat_views@ == mv0.skip(i as int),
            views@ == materialized_views(mv0.take(i as int)),
        decreases mat_views@.len(),
    {
        let t = mat_views.remove(0);
        views.push(SqlView { name: t.name, materialized: true, columns: t.columns });
        assert(mv0.take(i as int + 1).drop_last() =~= mv0.take(i as int));
        assert(mat_views@ =~= mv0.skip(i as int + 1));
        i = i + 1;
    }
    assert(mv0.take(i as int) =~= mv0);
    let ghost head = views@;
    let mut tables: Vec<Table> = Vec::new();
    let mut i: usize = 0;
    let n = tv.len();
    assert(tv0.take(0) =~= Seq::<Table>::empty());
    assert(head + plain_views(tv0.take(0), rels@, kinds@) =~= head);
    while tv.len() > 0
        invariant
            kinds@.len() == rels@.len(),
            n == tv0.len(),
            i + tv@.len() == tv0.len(),
            tv@ == tv0.skip(i as int),
            tables@ == base_tables(tv0.take(i as int), rels@, kinds@),
            views@ == head + plain_views(tv0.take(i as int), rels@, kinds@),
        decreases tv@.len(),
    {
        let t = tv.remove(0);
        assert(tv0.take(i as int + 1).drop_last() =~= tv0.take(i as int));
        assert(tv@ =~= tv0.skip(i as int + 1));
        if kind_of_relation(rels, kinds, t.name.as_str()) == Some(TableType::View) {
            views.push(SqlView { name: t.name, materialized: false, columns: t.columns });
        } else {
            tables.push(t);
        }
        assert(views@ =~= head + plain_views(tv0.take(i as int + 1), rels@, kinds@));
        i = i + 1;
    }
    assert(tv0.take(i as int) =~= tv0);
    (tables, views)
}

/// Whether a column row has an enumerated type.
pub open spec fn is_enum_row(row: ColumnRow) -> bool {
    row.typtype == 101
}

fn contains_enum(enums: &Vec<SqlEnum>, name: &str) -> (r: bool)
    ensures
        r == enum_names(enums@).contains(name@),
{
    let mut i: usize = 0;
    while i < enums.len()
        invariant
            i <= enums@.len(),
            forall|k: int| 0 <= k < i ==> enums@[k].name@ != name@,
        decreases enums@.len() - i,
    {
        if str_eq(enums[i].name.as_str(), name) {
            assert(enum_names(enums@)[i as int] == name@);
            return true;
        }
        i = i + 1;
    }
    false
}

/// Inserts an enumerated type at its place in a list sorted by name.
pub(crate) fn insert_enum(enums: &mut Vec<SqlEnum>, e: SqlEnum)
    requires
        strictly_sorted(enum_names(old(enums)@)),
        enum_names(old(enums)@).no_duplicates(),
        !enum_names(old(enums)@).contains(e.name@),
    ensures
        strictly_sorted(enum_names(final(enums)@)),
        enum_names(final(enums)@).no_duplicates(),
        enum_names(final(enums)@).to_set() == enum_names(old(enums)@).to_set().insert(e.name@),
        final(enums)@.contains(e),
        forall|i: int|
            0 <= i < final(enums)@.len() ==> final(enums)@[i] == e || old(enums)@.contains(
                #[trigger] final(enums)@[i],
            ),
{
    let mut p: usize = 0;
    while p < enums.len() && str_lt(enums[p].name.as_str(), e.name.as_str())
        invariant
            p <= enums@.len(),
            p > 0 ==> chars_lt(enums@[p - 1].name@, e.name@),
        decreases enums@.len() - p,
    {
        p = p + 1;
    }
    let ghost before = enums@;
    let ghost name = e.name@;
    proof {
        if p < enums@.len() {
            assert(enum_names(enums@)[p as int] == enums@[p as int].name@);
            lemma_chars_lt_total(enums@[p as int].name@, name);
        }
        lemma_sorted_insert(enum_names(enums@), p as int, name, name_less());
        lemma_insert_contains(enum_names(before), p as int, name);
    }
    enums.insert(p, e);
    assert(enums@[p as int] == e);
    assert(enum_names(enums@) =~= enum_names(before).insert(p as int, name));
    assert(enum_names(enums@).to_set() =~= enum_names(before).to_set().insert(name));
    assert forall|i: int| 0 <= i < enums@.len() implies enums@[i] == e || before.contains(
        #[trigger] enums@[i],
    ) by {
        if i < p {
            assert(enums@[i] == before[i]);
        } else if i > p {
            assert(enums@[i] == before[i - 1]);
        }
    }
}

/// Every row's type category is a character.
pub open spec fn types_ok(rows: Seq<ColumnRow>) -> bool {
    forall|k: int| 0 <= k < rows.len() ==> (#[trigger] rows[k]).typtype >= 0
}

/// Every enumerated type of a row is among `loaded`.
pub open spec fn all_loaded(rows: Seq<ColumnRow>, loaded: Set<Seq<char>>) -> bool {
    forall|k: int|
        0 <= k < rows.len() && is_enum_row(#[trigger] rows[k]) ==> loaded.contains(
            rows[k].datatype@,
        )
}

/// Row `i` is the first row whose enumerated type is not among `loaded`, and
/// every row before it has a character as its type category.
pub open spec fn is_first_unloaded(rows: Seq<ColumnRow>, loaded: Set<Seq<char>>, i: int) -> bool {
    &&& 0 <= i < rows.len()
    &&& is_enum_row(rows[i])
    &&& !loaded.contains(rows[i].datatype@)
    &&& forall|k: int|
        0 <= k < i ==> (#[trigger] rows[k]).typtype >= 0 && (is_enum_row(rows[k])
            ==> loaded.contains(rows[k].datatype@))
}

/// Some row has a type category that is not a character, and no row before
/// it has an enumerated type outside `loaded`.
pub open spec fn fails_on_category(rows: Seq<ColumnRow>, loaded: Set<Seq<char>>) -> bool {
    exists|j: int|
        0 <= j < rows.len() && (#[trigger] rows[j]).typtype < 0 && forall|k: int|
            0 <= k < j ==> !(is_enum_row(#[trigger] rows[k]) && !loaded.contains(
                rows[k].datatype@,
            ))
}

/// A row whose enumerated type is not loaded, with only settled rows before
/// it, leaves no failing type category before it.
pub(crate) proof fn lemma_first_unloaded_excludes_failure(
    rows: Seq<ColumnRow>,
    loaded: Set<Seq<char>>,
    i: int,
)
    requires
        is_first_unloaded(rows, loaded, i),
    ensures
        !fails_on_category(rows, loaded),
        !all_loaded(rows, loaded),
{
    if fails_on_category(rows, loaded) {
        let j = choose|j: int|
            0 <= j < rows.len() && (#[trigger] rows[j]).typtype < 0 && forall|k: int|
                0 <= k < j ==> !(is_enum_row(#[trigger] rows[k]) && !loaded.contains(
                    rows[k].datatype@,
                ));
        if j < i {
            assert(rows[j].typtype >= 0);
        } else if j > i {
            assert(!(is_enum_row(rows[i]) && !loaded.contains(rows[i].datatype@)));
        }
    }
    assert(is_enum_row(rows[i]));
}

/// When the relations built from a batch resolve every foreign key of theirs,
/// every such key points into the batch.
pub(crate) proof fn lemma_targets_found_among(
    tv: Seq<Table>,
    names: Seq<String>,
    rows: Seq<ColumnRow>,
    pks: Seq<PkRow>,
    fks: Seq<FkRow>,
)
    requires
        tables_built(tv, names, rows, pks, fks),
        targets_found(tv, fks),
    ensures
        targets_among(names, fks),
{
    assert forall|j: int|
        0 <= j < fks.len() && names_of(names).contains(
            (#[trigger] fks[j]).source_table_name@,
        ) implies names_of(names).contains(fks[j].target_table_name@) by {
        let src = fks[j].source_table_name@;
        assert(names_of(names).to_set().contains(src));
        assert(table_names(tv).to_set().contains(src));
        let k = choose|k: int| 0 <= k < table_names(tv).len() && table_names(tv)[k] == src;
        assert(tv[k].name@ == src);
        assert(find_table(tv, fks[j].target_table_name@) is Some);
        lemma_find_table_by_name(tv, fks[j].target_table_name@);
        assert(table_names(tv).to_set().contains(fks[j].target_table_name@));
        assert(names_of(names).to_set().contains(fks[j].target_table_name@));
    }
}

/// The first row whose enumerated type has no labels yet, scanning on from
/// `from` (the rows before it are known to be settled). Fails on a row whose
/// type category is not a character.
pub(crate) fn next_enum_row(rows: &Vec<ColumnRow>, from: usize, enums: &Vec<SqlEnum>) -> (r: Result<
    Option<usize>,
    SqlantError,
>)
    requires
        from <= rows@.len(),
        forall|k: int|
            0 <= k < from ==> (#[trigger] rows@[k]).typtype >= 0 && (is_enum_row(rows@[k])
                ==> enum_names(enums@).contains(rows@[k].datatype@)),
    ensures
        r matches Ok(Some(i)) ==> from <= i && is_first_unloaded(
            rows@,
            enum_names(enums@).to_set(),
            i as int,
        ),
        r matches Ok(None) ==> types_ok(rows@) && all_loaded(rows@, enum_names(enums@).to_set()),
        r matches Err(e) ==> e is PsqlErdLoader && fails_on_category(
            rows@,
            enum_names(enums@).to_set(),
        ),
{
    let ghost loaded = enum_names(enums@).to_set();
    let mut i: usize = from;
    while i < rows.len()
        invariant
            from <= i <= rows@.len(),
            loaded == enum_names(enums@).to_set(),
            forall|k: int|
                0 <= k < i ==> (#[trigger] rows@[k]).typtype >= 0 && (is_enum_row(rows@[k])
                    ==> loaded.contains(rows@[k].datatype@)),
        decreases rows@.len() - i,
    {
        let row = &rows[i];
        if row.typtype < 0 {
            assert(rows@[i as int].typtype < 0);
            assert(forall|k: int|
                0 <= k < i ==> !(is_enum_row(#[trigger] rows@[k]) && !loaded.contains(
                    rows@[k].datatype@,
                )));
            return Err(
                SqlantError::PsqlErdLoader(
                    "out of range integral type conversion attempted".to_string(),
                ),
            );
        }
        if row.typtype == 101 && !contains_enum(enums, row.datatype.as_str()) {
            return Ok(Some(i));
        }
        i = i + 1;
    }
    Ok(None)
}

/// A finished model: its tables agree with their composite-key flags, and
/// its enumerated types are sorted by name, one entry for each type whose
/// labels were asked for.
pub open spec fn model_done(erd: SqlERData, requested: Seq<Seq<char>>) -> bool {
    &&& erd.wf()
    &&& enum_names(erd.enums@).to_set() == requested.to_set()
}

pub(crate) proof fn lemma_base_tables_wf(tv: Seq<Table>, rels: Seq<TableRow>, kinds: Seq<TableType>)
    requires
        forall|k: int| 0 <= k < tv.len() ==> (#[trigger] tv[k]).wf(),
    ensures
        forall|k: int|
            0 <= k < base_tables(tv, rels, kinds).len() ==> (#[trigger] base_tables(
                tv,
                rels,
                kinds,
            )[k]).wf(),
    decreases tv.len(),
{
    if tv.len() > 0 {
        let prev = tv.drop_last();
        assert forall|k: int| 0 <= k < prev.len() implies (#[trigger] prev[k]).wf() by {
            assert(prev[k] == tv[k]);
        }
        lemma_base_tables_wf(prev, rels, kinds);
        let b = base_tables(tv, rels, kinds);
        let pb = base_tables(prev, rels, kinds);
        assert forall|k: int| 0 <= k < b.len() implies (#[trigger] b[k]).wf() by {
            if k < pb.len() {
                assert(b[k] == pb[k]);
            } else {
                assert(b[k] == tv.last());
            }
        }
    }
}

/// Every definition whose source is among `names` points to one of them.
pub open spec fn targets_among(names: Seq<String>, fks: Seq<FkRow>) -> bool {
    forall|j: int|
        0 <= j < fks.len() && names_of(names).contains((#[trigger] fks[j]).source_table_name@)
            ==> names_of(names).contains(fks[j].target_table_name@)
}

/// A batch of column rows that the loader accepts: every type category is
/// a character, every row belongs to a relation asked for, and, for the
/// tables and views, every foreign key of theirs points to one of them.
pub open spec fn batch_acceptable(
    rows: Seq<ColumnRow>,
    names: Seq<String>,
    fks: Seq<FkRow>,
    with_keys: bool,
) -> bool {
    &&& forall|i: int| 0 <= i < rows.len() ==> (#[trigger] rows[i]).typtype >= 0
    &&& rows_in_batch(rows, names)
    &&& with_keys ==> targets_among(names, fks)
}

pub(crate) proof fn lemma_find_table_by_name(tables: Seq<Table>, name: Seq<char>)
    ensures
        find_table(tables, name) is Some <==> table_names(tables).contains(name),
    decreases tables.len(),
{
    if tables.len() > 0 {
        let prev = tables.drop_last();
        lemma_find_table_by_name(prev, name);
        assert(table_names(tables) =~= table_names(prev).push(tables.last().name@));
        vstd::seq_lib::lemma_seq_contains_after_push(
            table_names(prev),
            tables.last().name@,
            name,
        );
    } else {
        assert(table_names(tables) =~= Seq::<Seq<char>>::empty());
    }
}

/// Every enumerated type that a row of `rows` has is among `enums`.
pub open spec fn enums_cover(rows: Seq<ColumnRow>, enums: Seq<SqlEnum>) -> bool {
    forall|k: int|
        0 <= k < rows.len() && is_enum_row(#[trigger] rows[k]) ==> enum_names(enums).contains(
            rows[k].datatype@,
        )
}

pub(crate) proof fn lemma_enums_cover_grow(rows: Seq<ColumnRow>, before: Seq<SqlEnum>, after: Seq<SqlEnum>)
    requires
        enums_cover(rows, before),
        enum_names(before).to_set().subset_of(enum_names(after).to_set()),
    ensures
        enums_cover(rows, after),
{
    assert forall|k: int| 0 <= k < rows.len() && is_enum_row(#[trigger] rows[k]) implies enum_names(
        after,
    ).contains(rows[k].datatype@) by {
        assert(enum_names(before).to_set().contains(rows[k].datatype@));
        assert(enum_names(after).to_set().contains(rows[k].datatype@));
    }
}

/// The model that the catalog's replies determine. `tv` are the tables and
/// views built from the first batch of column rows; the base tables among
/// them are the model's tables, their foreign keys are resolved in order,
/// the views are the materialized views built from the second batch followed
/// by the plain views, and every enumerated type of a column has its entry.
pub open spec fn model_from_catalog(
    erd: SqlERData,
    tv: Seq<Table>,
    pks: Seq<PkRow>,
    fks: Seq<FkRow>,
    rels: Seq<TableRow>,
    kinds: Seq<TableType>,
    first_batch: Seq<String>,
    first_rows: Seq<ColumnRow>,
    second_batch: Seq<String>,
    second_rows: Seq<ColumnRow>,
) -> bool {
    &&& tables_built(tv, first_batch, first_rows, pks, fks)
    &&& erd.tables@ == base_tables(tv, rels, kinds)
    &&& resolved_as_planned(erd.foreign_keys@, tv, fks, fk_plan(tv, fks, tv.len() as int))
    &&& exists|mv: Seq<Table>|
        #[trigger] tables_built(mv, second_batch, second_rows, pks, fks) && erd.views@
            == materialized_views(mv) + plain_views(tv, rels, kinds)
    &&& enums_cover(first_rows, erd.enums@)
    &&& enums_cover(second_rows, erd.enums@)
}

} // verus!
