//! The entity-relationship model: columns, tables, views, foreign keys and
//! enumerated types, as reconstructed from a catalog.
use vstd::prelude::*;

use crate::text::{chars_lt, str_eq, str_lt, strictly_sorted};

verus! {

/// A constraint that a column can carry. `Check`, `Default` and `Index` are
/// part of the model but no loader fills them in yet.
#[derive(Clone, Copy, Debug, PartialEq, Eq, Structural, Hash, PartialOrd, Ord)]
pub enum ColumnConstraints {
    NotNull,
    PrimaryKey,
    ForeignKey,
    Unique,
    Check,
    Default,
    Index,
}

/// A set of column constraints. Each constraint is either present or not, so
/// the set holds no duplicates and compares equal exactly when the same
/// constraints are present.
#[derive(Clone, Copy, Debug, PartialEq, Eq, Structural)]
pub struct ConstraintSet {
    not_null: bool,
    primary_key: bool,
    foreign_key: bool,
    unique: bool,
    check: bool,
    default: bool,
    index: bool,
}

impl ConstraintSet {
    pub closed spec fn has(&self, c: ColumnConstraints) -> bool {
        match c {
            ColumnConstraints::NotNull => self.not_null,
            ColumnConstraints::PrimaryKey => self.primary_key,
            ColumnConstraints::ForeignKey => self.foreign_key,
            ColumnConstraints::Unique => self.unique,
            ColumnConstraints::Check => self.check,
            ColumnConstraints::Default => self.default,
            ColumnConstraints::Index => self.index,
        }
    }

    /// The empty set.
    pub fn new() -> (r: ConstraintSet)
        ensures
            r@ == Set::<ColumnConstraints>::empty(),
    {
        let r = ConstraintSet {
            not_null: false,
            primary_key: false,
            foreign_key: false,
            unique: false,
            check: false,
            default: false,
            index: false,
        };
        assert(r@ =~= Set::<ColumnConstraints>::empty());
        r
    }

    pub fn contains(&self, c: ColumnConstraints) -> (r: bool)
        ensures
            r == self@.contains(c),
    {
        match c {
            ColumnConstraints::NotNull => self.not_null,
            ColumnConstraints::PrimaryKey => self.primary_key,
            ColumnConstraints::ForeignKey => self.foreign_key,
            ColumnConstraints::Unique => self.unique,
            ColumnConstraints::Check => self.check,
            ColumnConstraints::Default => self.default,
            ColumnConstraints::Index => self.index,
        }
    }

    pub fn insert(&mut self, c: ColumnConstraints)
        ensures
            final(self)@ == old(self)@.insert(c),
    {
        match c {
            ColumnConstraints::NotNull => self.not_null = true,
            ColumnConstraints::PrimaryKey => self.primary_key = true,
            ColumnConstraints::ForeignKey => self.foreign_key = true,
            ColumnConstraints::Unique => self.unique = true,
            ColumnConstraints::Check => self.check = true,
            ColumnConstraints::Default => self.default = true,
            ColumnConstraints::Index => self.index = true,
        }
        assert(self@ =~= old(self)@.insert(c));
    }

    /// The set of the constraints listed in `items`.
    pub fn from_slice(items: &[ColumnConstraints]) -> (r: ConstraintSet)
        ensures
            r@ == items@.to_set(),
    {
        let mut r = ConstraintSet::new();
        let mut i: usize = 0;
        while i < items.len()
            invariant
                i <= items@.len(),
                r@ == items@.take(i as int).to_set(),
            decreases items@.len() - i,
        {
            r.insert(items[i]);
            proof {
                Seq::lemma_to_set_insert_commutes(items@.take(i as int), items@[i as int]);
            }
            assert(items@.take(i as int + 1) =~= items@.take(i as int) + seq![items@[i as int]]);
            i = i + 1;
        }
        assert(items@.take(items@.len() as int) =~= items@);
        r
    }
}

impl View for ConstraintSet {
    type V = Set<ColumnConstraints>;

    open spec fn view(&self) -> Set<ColumnConstraints> {
        Set::new(|c: ColumnConstraints| self.has(c))
    }
}

/// One column of a table or view. `col_num` is the column's ordinal in its
/// relation and identifies it there.
#[derive(Debug, Clone)]
pub struct TableColumn {
    pub name: String,
    pub col_num: i16,
    pub datatype: String,
    pub constraints: ConstraintSet,
}

impl TableColumn {
    pub open spec fn spec_is_pk(&self) -> bool {
        self.constraints@.contains(ColumnConstraints::PrimaryKey)
    }

    pub open spec fn spec_is_fk(&self) -> bool {
        self.constraints@.contains(ColumnConstraints::ForeignKey)
    }

    pub open spec fn spec_is_nn(&self) -> bool {
        self.constraints@.contains(ColumnConstraints::NotNull)
    }

    /// Whether the column belongs to its table's primary key.
    pub fn is_pk(&self) -> (r: bool)
        ensures
            r == self.spec_is_pk(),
    {
        self.constraints.contains(ColumnConstraints::PrimaryKey)
    }

    /// Whether the column is a source column of a foreign key.
    pub fn is_fk(&self) -> (r: bool)
        ensures
            r == self.spec_is_fk(),
    {
        self.constraints.contains(ColumnConstraints::ForeignKey)
    }

    /// Whether the column is declared NOT NULL.
    pub fn is_nn(&self) -> (r: bool)
        ensures
            r == self.spec_is_nn(),
    {
        self.constraints.contains(ColumnConstraints::NotNull)
    }
}

/// The number of primary-key columns in `cols`.
pub open spec fn pk_count(cols: Seq<TableColumn>) -> nat
    decreases cols.len(),
{
    if cols.len() == 0 {
        0
    } else {
        pk_count(cols.drop_last()) + if cols.last().spec_is_pk() {
            1nat
        } else {
            0nat
        }
    }
}

pub proof fn lemma_pk_count_bound(cols: Seq<TableColumn>)
    ensures
        pk_count(cols) <= cols.len(),
    decreases cols.len(),
{
    if cols.len() > 0 {
        lemma_pk_count_bound(cols.drop_last());
    }
}

/// Whether some column of `cols` has ordinal `n` and is a primary-key column.
pub open spec fn is_pk_ordinal(cols: Seq<TableColumn>, n: i16) -> bool {
    exists|i: int| 0 <= i < cols.len() && cols[i].col_num == n && #[trigger] cols[i].spec_is_pk()
}

/// A base table with its columns in catalog order.
#[derive(Debug, Clone)]
pub struct Table {
    pub name: String,
    pub columns: Vec<TableColumn>,
    /// Whether more than one column belongs to the primary key. Always
    /// derived from `columns` by `Table::new`.
    pub has_composite_pk: bool,
}

impl Table {
    /// Whether the composite-key flag agrees with the columns.
    pub open spec fn wf(&self) -> bool {
        self.has_composite_pk == (pk_count(self.columns@) > 1)
    }

    pub fn new(name: String, columns: Vec<TableColumn>) -> (r: Table)
        ensures
            r.name == name,
            r.columns == columns,
            r.has_composite_pk == (pk_count(columns@) > 1),
    {
        let count = pk_column_count(&columns);
        Table { name, columns, has_composite_pk: count > 1 }
    }

    /// The column with ordinal `col_num`, if the table has one.
    pub fn column(&self, col_num: i16) -> (r: Option<&TableColumn>)
        ensures
            r is None ==> forall|i: int| 0 <= i < self.columns@.len() ==> self.columns@[i].col_num != col_num,
            r matches Some(c) ==> exists|i: int| 0 <= i < self.columns@.len() && self.columns@[i] == *c && c.col_num == col_num,
    {
        let mut i: usize = 0;
        while i < self.columns.len()
            invariant
                i <= self.columns@.len(),
                forall|j: int| 0 <= j < i ==> self.columns@[j].col_num != col_num,
            decreases self.columns@.len() - i,
        {
            if self.columns[i].col_num == col_num {
                return Some(&self.columns[i]);
            }
            i = i + 1;
        }
        None
    }
}

/// A view, plain or materialized, with its columns. It is a relation of its
/// own and never counted among the tables.
#[derive(Debug, Clone)]
pub struct SqlView {
    pub name: String,
    pub materialized: bool,
    pub columns: Vec<TableColumn>,
}

/// An enumerated type: its name and its labels in declaration order.
#[derive(Debug, Clone)]
pub struct SqlEnum {
    pub name: String,
    pub values: Vec<String>,
}

/// Whether every ordinal of `ords` names a primary-key column of `cols`.
pub open spec fn all_pk_ordinals(cols: Seq<TableColumn>, ords: Seq<i16>) -> bool {
    forall|i: int| 0 <= i < ords.len() ==> is_pk_ordinal(cols, #[trigger] ords[i])
}

/// The cardinality rule: a foreign key is zero-or-one to one when all its
/// source columns and all its target columns are primary-key columns and both
/// tables have primary keys of the same width.
pub open spec fn zero_one_to_one(
    source: Seq<TableColumn>,
    source_cols: Seq<i16>,
    target: Seq<TableColumn>,
    target_cols: Seq<i16>,
) -> bool {
    &&& all_pk_ordinals(source, source_cols)
    &&& all_pk_ordinals(target, target_cols)
    &&& pk_count(source) == pk_count(target)
}

/// A foreign key is many to one as soon as one side has a column outside its
/// table's primary key, or the two primary keys differ in width, whatever
/// holds of the other side.
pub proof fn lemma_one_side_keyed_is_many_to_one(
    source: Seq<TableColumn>,
    source_cols: Seq<i16>,
    target: Seq<TableColumn>,
    target_cols: Seq<i16>,
)
    requires
        !all_pk_ordinals(source, source_cols) || !all_pk_ordinals(target, target_cols)
            || pk_count(source) != pk_count(target),
    ensures
        !zero_one_to_one(source, source_cols, target, target_cols),
{
}

/// A foreign key between two tables. Tables are named and columns are given by
/// their ordinals, in the order in which they stand in their tables.
#[derive(Debug, Clone)]
pub struct ForeignKey {
    pub source_table: String,
    pub source_columns: Vec<i16>,
    pub target_table: String,
    pub target_columns: Vec<i16>,
    /// Whether the relationship is zero-or-one to exactly one; otherwise it
    /// is many to exactly one.
    pub is_zero_one_to_one: bool,
}

impl ForeignKey {
    /// Decides the cardinality of a foreign key from the key columns of both
    /// tables.
    pub fn is_zero_one_to_one(
        source_table: &Table,
        source_columns: &[i16],
        target_table: &Table,
        target_columns: &[i16],
    ) -> (r: bool)
        ensures
            r == zero_one_to_one(
                source_table.columns@,
                source_columns@,
                target_table.columns@,
                target_columns@,
            ),
    {
        if !all_key_columns(source_table, source_columns) {
            return false;
        }
        if !all_key_columns(target_table, target_columns) {
            return false;
        }
        pk_column_count(&source_table.columns) == pk_column_count(&target_table.columns)
    }

    pub fn new(
        source_table: &Table,
        source_columns: Vec<i16>,
        target_table: &Table,
        target_columns: Vec<i16>,
    ) -> (r: ForeignKey)
        ensures
            r.source_table == source_table.name,
            r.source_columns == source_columns,
            r.target_table == target_table.name,
            r.target_columns == target_columns,
            r.is_zero_one_to_one == zero_one_to_one(
                source_table.columns@,
                source_columns@,
                target_table.columns@,
                target_columns@,
            ),
    {
        let is_zero_one_to_one = Self::is_zero_one_to_one(
            source_table,
            source_columns.as_slice(),
            target_table,
            target_columns.as_slice(),
        );
        ForeignKey {
            source_table: source_table.name.clone(),
            source_columns,
            target_table: target_table.name.clone(),
            target_columns,
            is_zero_one_to_one,
        }
    }
}

fn is_key_column(table: &Table, col_num: i16) -> (r: bool)
    ensures
        r == is_pk_ordinal(table.columns@, col_num),
{
    let mut i: usize = 0;
    while i < table.columns.len()
        invariant
            i <= table.columns@.len(),
            forall|j: int|
                0 <= j < i ==> !(table.columns@[j].col_num == col_num
                    && #[trigger] table.columns@[j].spec_is_pk()),
        decreases table.columns@.len() - i,
    {
        if table.columns[i].col_num == col_num && table.columns[i].is_pk() {
            return true;
        }
        i = i + 1;
    }
    false
}

fn all_key_columns(table: &Table, ords: &[i16]) -> (r: bool)
    ensures
        r == all_pk_ordinals(table.columns@, ords@),
{
    let mut i: usize = 0;
    while i < ords.len()
        invariant
            i <= ords@.len(),
            forall|j: int| 0 <= j < i ==> is_pk_ordinal(table.columns@, #[trigger] ords@[j]),
        decreases ords@.len() - i,
    {
        if !is_key_column(table, ords[i]) {
            return false;
        }
        i = i + 1;
    }
    true
}

fn pk_column_count(columns: &Vec<TableColumn>) -> (r: usize)
    ensures
        r == pk_count(columns@),
{
    let mut count: usize = 0;
    let mut i: usize = 0;
    while i < columns.len()
        invariant
            i <= columns@.len(),
            count == pk_count(columns@.take(i as int)),
        decreases columns@.len() - i,
    {
        proof {
            lemma_pk_count_bound(columns@.take(i as int));
        }
        assert(columns@.take(i as int + 1).drop_last() =~= columns@.take(i as int));
        if columns[i].is_pk() {
            count = count + 1;
        }
        i = i + 1;
    }
    assert(columns@.take(columns@.len() as int) =~= columns@);
    count
}

/// The whole model: tables, views and enumerated types, each sorted by name,
/// and the foreign keys between the tables.
#[derive(Debug, Clone)]
pub struct SqlERData {
    pub tables: Vec<Table>,
    pub foreign_keys: Vec<ForeignKey>,
    pub enums: Vec<SqlEnum>,
    pub views: Vec<SqlView>,
}

/// The names of the enumerated types.
pub open spec fn enum_names(enums: Seq<SqlEnum>) -> Seq<Seq<char>> {
    enums.map_values(|e: SqlEnum| e.name@)
}

impl SqlERData {
    /// What a model guarantees: its enumerated types are sorted by name, one
    /// entry for each name, and every table's composite-key flag agrees with
    /// its columns.
    pub open spec fn wf(&self) -> bool {
        &&& strictly_sorted(enum_names(self.enums@))
        &&& enum_names(self.enums@).no_duplicates()
        &&& forall|k: int| 0 <= k < self.tables@.len() ==> (#[trigger] self.tables@[k]).wf()
    }

    /// Whether the model is well formed.
    pub fn is_well_formed(&self) -> (r: bool)
        ensures
            r == self.wf(),
    {
        let mut k: usize = 0;
        while k < self.tables.len()
            invariant
                k <= self.tables@.len(),
                forall|m: int| 0 <= m < k ==> (#[trigger] self.tables@[m]).wf(),
            decreases self.tables@.len() - k,
        {
            let t = &self.tables[k];
            if t.has_composite_pk != (pk_column_count(&t.columns) > 1) {
                return false;
            }
            k = k + 1;
        }
        let n = self.enums.len();
        let mut i: usize = 0;
        while i < n
            invariant
                n == self.enums@.len(),
                i <= n,
                forall|m: int|
                    0 <= m < self.tables@.len() ==> (#[trigger] self.tables@[m]).wf(),
                forall|a: int|
                    0 <= a < i && a < n - 1 ==> chars_lt(
                        enum_names(self.enums@)[a],
                        #[trigger] enum_names(self.enums@)[a + 1],
                    ),
                forall|a: int, b: int|
                    0 <= a < i && 0 <= b < n && a != b ==> enum_names(self.enums@)[a]
                        != enum_names(self.enums@)[b],
            decreases n - i,
        {
            let name = self.enums[i].name.as_str();
            if i + 1 < n && !str_lt(name, self.enums[i + 1].name.as_str()) {
                assert(enum_names(self.enums@)[i as int] == self.enums@[i as int].name@);
                assert(enum_names(self.enums@)[i as int + 1] == self.enums@[i as int + 1].name@);
                return false;
            }
            let mut j: usize = 0;
            while j < n
                invariant
                    n == self.enums@.len(),
                    i < n,
                    j <= n,
                    name@ == self.enums@[i as int].name@,
                    forall|b: int|
                        0 <= b < j && b != i ==> enum_names(self.enums@)[i as int] != enum_names(
                            self.enums@,
                        )[b],
                decreases n - j,
            {
                if j != i && str_eq(name, self.enums[j].name.as_str()) {
                    assert(enum_names(self.enums@)[i as int] == enum_names(self.enums@)[j as int]);
                    return false;
                }
                j = j + 1;
            }
            i = i + 1;
        }
        true
    }
}

} // verus!
