//! Loading a model from a PostgreSQL catalog.
//!
//! The loader decides which catalog query comes next and builds the model
//! from the rows that come back; the caller runs the queries. The order is
//! fixed: the schema is checked first, then the search path is set, the
//! primary and foreign keys of the schema are read, then the tables and views
//! with their columns, then the materialized views with theirs. The labels of
//! an enumerated type are asked for when a column of that type is first met.
use vstd::prelude::*;

use crate::catalog::{fk_keys, fks_sorted, sort_fk_defs, ColumnRow, FkRow, PkRow, TableRow, TableType};
use crate::error::SqlantError;
use crate::model_builder::{
    batch_acceptable, enums_cover, find_table, fk_plan, get_fks, insert_enum, is_enum_row,
    lemma_base_tables_wf, lemma_enums_cover_grow, lemma_find_table_by_name, load_tables, targets_found,
    model_done, model_from_catalog, next_enum_row, resolved_as_planned, split_views,
    table_names, tables_built, targets_among, all_loaded, fails_on_category, is_first_unloaded,
    types_ok, lemma_first_unloaded_excludes_failure, lemma_targets_found_among,
};
use crate::sql_entities::{enum_names, ForeignKey, SqlERData, SqlEnum, Table};
use crate::text::{names_of, strictly_sorted};

verus! {

/// How the enumerated types asked for change with action `a`: a label query
/// names a type never asked for before, and nothing else asks for one.
pub open spec fn enum_request(before: Seq<Seq<char>>, after: Seq<Seq<char>>, a: LoaderAction) -> bool {
    if let LoaderAction::Query(CatalogQuery::EnumLabels { enum_type, .. }) = a {
        !before.contains(enum_type@) && after == before.push(enum_type@)
    } else {
        after == before
    }
}

fn copy_names(names: &Vec<String>) -> (r: Vec<String>)
    ensures
        r@ == names@,
{
    let mut r: Vec<String> = Vec::new();
    let mut i: usize = 0;
    while i < names.len()
        invariant
            i <= names@.len(),
            r@ == names@.take(i as int),
        decreases names@.len() - i,
    {
        r.push(names[i].clone());
        assert(r@ =~= names@.take(i as int + 1));
        i = i + 1;
    }
    assert(names@.take(names@.len() as int) =~= names@);
    r
}

/// What the loader does with a batch of column rows, given the enumerated
/// types already `loaded`: it fails on a type category that is not a
/// character before any unloaded enumerated type; it asks for the labels of
/// the first row whose enumerated type is not loaded, with that row's type
/// and oid; and once every type is loaded it fails exactly when the batch is
/// not acceptable, and otherwise asks for the materialized views (first
/// batch) or hands over the model (second batch).
pub open spec fn column_outcome(
    a: LoaderAction,
    rows: Seq<ColumnRow>,
    loaded: Set<Seq<char>>,
    batch: Seq<String>,
    fks: Seq<FkRow>,
    first: bool,
    schema: Seq<char>,
) -> bool {
    &&& fails_on_category(rows, loaded) ==> (a matches LoaderAction::Fail(
        SqlantError::PsqlErdLoader(_),
    ))
    &&& (exists|i: int| is_first_unloaded(rows, loaded, i)) ==> (a matches LoaderAction::Query(
        CatalogQuery::EnumLabels { .. },
    ))
    &&& a matches LoaderAction::Query(CatalogQuery::EnumLabels { enum_type, type_oid })
        ==> exists|i: int|
        #[trigger] is_first_unloaded(rows, loaded, i) && enum_type@ == rows[i].datatype@
            && type_oid == rows[i].type_oid
    &&& types_ok(rows) && all_loaded(rows, loaded) ==> {
        &&& a is Fail <==> !batch_acceptable(rows, batch, fks, first)
        &&& !(a is Fail) && first ==> (a matches LoaderAction::Query(
            CatalogQuery::MaterializedViews { schema: s },
        ) && s@ == schema)
        &&& !(a is Fail) && !first ==> a is Done
    }
}

/// Where a load stands.
#[derive(Clone, Copy, Debug, PartialEq, Eq, Structural)]
pub enum LoadPhase {
    Start,
    SchemaCheck,
    SearchPath,
    PrimaryKeys,
    ForeignKeys,
    Relations,
    RelationColumns,
    MaterializedViews,
    MaterializedViewColumns,
    Finished,
}

/// A query that the loader asks its caller to run.
#[derive(Debug, Clone)]
pub enum CatalogQuery {
    /// Whether the schema exists (one row with one boolean).
    SchemaExists { schema: String },
    /// Make the schema the search path, so that relation names come unqualified.
    SetSearchPath { schema: String },
    /// The primary keys of the schema.
    PrimaryKeys { schema: String },
    /// The foreign keys of the schema.
    ForeignKeys { schema: String },
    /// The base tables and views of the schema, by name.
    Relations { schema: String },
    /// The live columns of the named relations.
    Columns { relations: Vec<String> },
    /// The labels of an enumerated type, in their order.
    EnumLabels { enum_type: String, type_oid: u32 },
    /// The materialized views of the schema, by name.
    MaterializedViews { schema: String },
}

/// What a query returned.
#[derive(Debug, Clone)]
pub enum CatalogReply {
    /// `None` when the probe returned no row at all.
    SchemaExists(Option<bool>),
    SearchPathSet,
    PrimaryKeys(Vec<PkRow>),
    ForeignKeys(Vec<FkRow>),
    Relations(Vec<TableRow>),
    Columns(Vec<ColumnRow>),
    EnumLabels(Vec<String>),
    MaterializedViews(Vec<String>),
}

/// What the loader does next: ask for a query, hand over the model, or stop.
#[derive(Debug, Clone)]
pub enum LoaderAction {
    Query(CatalogQuery),
    Done(SqlERData),
    Fail(SqlantError),
}

/// Loads the model of one schema. Each call of `step` takes the reply to the
/// last query asked for and says what comes next. What it keeps between calls
/// belongs to this one load.
pub struct PostgreSqlERDLoader {
    schema_name: String,
    phase: LoadPhase,
    pks: Vec<PkRow>,
    fks: Vec<FkRow>,
    relations: Vec<TableRow>,
    kinds: Vec<TableType>,
    batch: Vec<String>,
    rows: Vec<ColumnRow>,
    scan: usize,
    pending_enum: Option<String>,
    enums: Vec<SqlEnum>,
    tables_and_views: Vec<Table>,
    foreign_keys: Vec<ForeignKey>,
    requested: Ghost<Seq<Seq<char>>>,
    first_batch: Ghost<Seq<String>>,
    first_rows: Ghost<Seq<ColumnRow>>,
    labels: Ghost<Map<Seq<char>, Seq<String>>>,
}

impl PostgreSqlERDLoader {
    pub closed spec fn schema(&self) -> Seq<char> {
        self.schema_name@
    }

    pub closed spec fn phase(&self) -> LoadPhase {
        self.phase
    }

    /// The enumerated types whose labels were asked for, in order.
    pub closed spec fn requested_enums(&self) -> Seq<Seq<char>> {
        self.requested@
    }

    /// The enumerated types whose labels have arrived.
    pub closed spec fn loaded_enums(&self) -> Seq<Seq<char>> {
        enum_names(self.enums@)
    }

    /// The relations whose columns were last asked for.
    pub closed spec fn batch(&self) -> Seq<String> {
        self.batch@
    }

    /// The column rows being read.
    pub closed spec fn current_rows(&self) -> Seq<ColumnRow> {
        self.rows@
    }

    /// The foreign-key definitions of the schema, sorted, each once.
    pub closed spec fn fk_defs(&self) -> Seq<FkRow> {
        self.fks@
    }

    pub closed spec fn primary_keys(&self) -> Seq<PkRow> {
        self.pks@
    }

    pub closed spec fn relations(&self) -> Seq<TableRow> {
        self.relations@
    }

    pub closed spec fn relation_kinds(&self) -> Seq<TableType> {
        self.kinds@
    }

    /// The tables and views built from the first batch.
    pub closed spec fn loaded_relations(&self) -> Seq<Table> {
        self.tables_and_views@
    }

    /// The relations and column rows of the first batch.
    pub closed spec fn first_batch(&self) -> Seq<String> {
        self.first_batch@
    }

    pub closed spec fn first_rows(&self) -> Seq<ColumnRow> {
        self.first_rows@
    }

    /// The labels replied for each enumerated type.
    pub closed spec fn labels_received(&self) -> Map<Seq<char>, Seq<String>> {
        self.labels@
    }

    /// The enumerated type whose labels are awaited.
    pub closed spec fn awaited_enum(&self) -> Seq<char> {
        match self.pending_enum {
            Some(p) => p@,
            None => Seq::empty(),
        }
    }

    /// Whether the loader awaits the labels of an enumerated type.
    pub closed spec fn awaits_labels(&self) -> bool {
        self.pending_enum is Some
    }

    pub closed spec fn wf(&self) -> bool {
        &&& self.kinds@.len() == self.relations@.len()
        &&& self.scan <= self.rows@.len()
        &&& strictly_sorted(enum_names(self.enums@))
        &&& enum_names(self.enums@).no_duplicates()
        &&& self.requested@.no_duplicates()
        &&& self.phase != LoadPhase::Finished ==> match self.pending_enum {
            None => self.requested@.to_set() == enum_names(self.enums@).to_set(),
            Some(p) => {
                &&& !enum_names(self.enums@).contains(p@)
                &&& self.requested@.to_set() == enum_names(self.enums@).to_set().insert(p@)
                &&& self.scan < self.rows@.len()
                &&& self.rows@[self.scan as int].datatype@ == p@
            },
        }
        &&& forall|k: int|
            0 <= k < self.scan ==> (#[trigger] self.rows@[k]).typtype >= 0 && (is_enum_row(
                self.rows@[k],
            ) ==> enum_names(self.enums@).contains(self.rows@[k].datatype@))
        &&& forall|i: int|
            0 <= i < self.enums@.len() ==> self.labels@.contains_key(
                (#[trigger] self.enums@[i]).name@,
            ) && self.labels@[self.enums@[i].name@] == self.enums@[i].values@
        &&& forall|k: int|
            0 <= k < self.tables_and_views@.len() ==> (#[trigger] self.tables_and_views@[k]).wf()
        &&& self.pending_enum is Some ==> self.phase == LoadPhase::RelationColumns || self.phase
            == LoadPhase::MaterializedViewColumns || self.phase == LoadPhase::Finished
        &&& (self.phase == LoadPhase::MaterializedViews || self.phase
            == LoadPhase::MaterializedViewColumns) ==> {
            &&& tables_built(
                self.tables_and_views@,
                self.first_batch@,
                self.first_rows@,
                self.pks@,
                self.fks@,
            )
            &&& resolved_as_planned(
                self.foreign_keys@,
                self.tables_and_views@,
                self.fks@,
                fk_plan(self.tables_and_views@, self.fks@, self.tables_and_views@.len() as int),
            )
            &&& enums_cover(self.first_rows@, self.enums@)
        }
    }

    /// A loader for `schema_name`, before its first query.
    pub fn new(schema_name: String) -> (r: PostgreSqlERDLoader)
        ensures
            r.wf(),
            r.schema() == schema_name@,
            r.phase() == LoadPhase::Start,
            r.requested_enums() == Seq::<Seq<char>>::empty(),
            r.labels_received() == Map::<Seq<char>, Seq<String>>::empty(),
    {
        let r = PostgreSqlERDLoader {
            schema_name,
            phase: LoadPhase::Start,
            pks: Vec::new(),
            fks: Vec::new(),
            relations: Vec::new(),
            kinds: Vec::new(),
            batch: Vec::new(),
            rows: Vec::new(),
            scan: 0,
            pending_enum: None,
            enums: Vec::new(),
            tables_and_views: Vec::new(),
            foreign_keys: Vec::new(),
            requested: Ghost(Seq::empty()),
            first_batch: Ghost(Seq::empty()),
            first_rows: Ghost(Seq::empty()),
            labels: Ghost(Map::empty()),
        };
        assert(r.requested@.to_set() =~= enum_names(r.enums@).to_set());
        r
    }

    /// The first query: whether the schema exists. It comes before any other.
    pub fn start(&mut self) -> (a: LoaderAction)
        requires
            old(self).wf(),
            old(self).phase() == LoadPhase::Start,
        ensures
            final(self).wf(),
            final(self).schema() == old(self).schema(),
            final(self).requested_enums() == old(self).requested_enums(),
            final(self).phase() == LoadPhase::SchemaCheck,
            a matches LoaderAction::Query(CatalogQuery::SchemaExists { schema }) && schema@
                == old(self).schema(),
    {
        self.phase = LoadPhase::SchemaCheck;
        LoaderAction::Query(CatalogQuery::SchemaExists { schema: self.schema_name.clone() })
    }

    fn fail(&mut self, e: SqlantError) -> (a: LoaderAction)
        requires
            old(self).wf(),
        ensures
            final(self).wf(),
            final(self).schema() == old(self).schema(),
            final(self).requested_enums() == old(self).requested_enums(),
            final(self).phase() == LoadPhase::Finished,
            a == LoaderAction::Fail(e),
            final(self).pks == old(self).pks,
            final(self).fks == old(self).fks,
            final(self).relations == old(self).relations,
            final(self).kinds == old(self).kinds,
            final(self).batch == old(self).batch,
            final(self).rows == old(self).rows,
            final(self).labels == old(self).labels,
            final(self).first_batch == old(self).first_batch,
            final(self).first_rows == old(self).first_rows,
            final(self).tables_and_views == old(self).tables_and_views,
            final(self).pending_enum == old(self).pending_enum,
    {
        self.phase = LoadPhase::Finished;
        LoaderAction::Fail(e)
    }

    /// Scans the current batch of column rows on from where it stopped: asks
    /// for the labels of the next enumerated type not yet loaded, or, at the
    /// end of the batch, builds its relations and moves on.
    fn advance(&mut self) -> (a: LoaderAction)
        requires
            old(self).wf(),
            old(self).pending_enum is None,
            old(self).phase == LoadPhase::RelationColumns || old(self).phase
                == LoadPhase::MaterializedViewColumns,
        ensures
            final(self).wf(),
            final(self).schema() == old(self).schema(),
            enum_request(old(self).requested_enums(), final(self).requested_enums(), a),
            a is Done ==> old(self).phase == LoadPhase::MaterializedViewColumns,
            a matches LoaderAction::Query(CatalogQuery::EnumLabels { enum_type, .. }) ==> (
            final(self).phase == old(self).phase && (final(self).pending_enum matches Some(p)
                && p@ == enum_type@)),
            a matches LoaderAction::Query(CatalogQuery::MaterializedViews { .. }) ==> (final(self).phase == LoadPhase::MaterializedViews && final(self).pending_enum is None),
            a is Query ==> (a matches LoaderAction::Query(CatalogQuery::EnumLabels { .. })
                || a matches LoaderAction::Query(CatalogQuery::MaterializedViews { .. })),
            a is Fail || a is Done ==> final(self).phase() == LoadPhase::Finished,
            a matches LoaderAction::Done(erd) ==> model_done(erd, old(self).requested_enums()),
            batch_acceptable(
                old(self).rows@,
                old(self).batch@,
                old(self).fks@,
                old(self).phase == LoadPhase::RelationColumns,
            ) ==> !(a is Fail),
            column_outcome(
                a,
                old(self).rows@,
                enum_names(old(self).enums@).to_set(),
                old(self).batch@,
                old(self).fks@,
                old(self).phase == LoadPhase::RelationColumns,
                old(self).schema_name@,
            ),
            final(self).pks == old(self).pks,
            final(self).fks == old(self).fks,
            final(self).relations == old(self).relations,
            final(self).kinds == old(self).kinds,
            final(self).batch == old(self).batch,
            final(self).rows == old(self).rows,
            final(self).labels == old(self).labels,
            a matches LoaderAction::Query(CatalogQuery::MaterializedViews { .. }) ==> {
                &&& final(self).first_batch@ == old(self).batch@
                &&& final(self).first_rows@ == old(self).rows@
                &&& tables_built(
                    final(self).tables_and_views@,
                    old(self).batch@,
                    old(self).rows@,
                    old(self).pks@,
                    old(self).fks@,
                )
            },
            !(a is Done) && !(a matches LoaderAction::Query(CatalogQuery::MaterializedViews { .. }))
                ==> {
                &&& final(self).first_batch == old(self).first_batch
                &&& final(self).first_rows == old(self).first_rows
                &&& final(self).tables_and_views == old(self).tables_and_views
            },
            a matches LoaderAction::Done(erd) ==> forall|i: int|
                0 <= i < erd.enums@.len() ==> old(self).labels@.contains_key(
                    (#[trigger] erd.enums@[i]).name@,
                ) && old(self).labels@[erd.enums@[i].name@] == erd.enums@[i].values@,
            a matches LoaderAction::Done(erd) ==> model_from_catalog(
                erd,
                old(self).tables_and_views@,
                old(self).pks@,
                old(self).fks@,
                old(self).relations@,
                old(self).kinds@,
                old(self).first_batch@,
                old(self).first_rows@,
                old(self).batch@,
                old(self).rows@,
            ),
    {
        let ghost loaded = enum_names(self.enums@).to_set();
        match next_enum_row(&self.rows, self.scan, &self.enums) {
            Err(e) => {
                proof {
                    if exists|i: int| is_first_unloaded(self.rows@, loaded, i) {
                        let i = choose|i: int| is_first_unloaded(self.rows@, loaded, i);
                        lemma_first_unloaded_excludes_failure(self.rows@, loaded, i);
                    }
                    let j = choose|j: int|
                        0 <= j < self.rows@.len() && (#[trigger] self.rows@[j]).typtype < 0
                            && forall|k: int|
                            0 <= k < j ==> !(is_enum_row(#[trigger] self.rows@[k])
                                && !loaded.contains(self.rows@[k].datatype@));
                    assert(self.rows@[j].typtype < 0);
                }
                self.fail(e)
            },
            Ok(Some(i)) => {
                proof {
                    lemma_first_unloaded_excludes_failure(self.rows@, loaded, i as int);
                }
                let name = self.rows[i].datatype.clone();
                let type_oid = self.rows[i].type_oid;
                proof {
                    assert(!self.requested@.to_set().contains(name@));
                }
                self.scan = i;
                self.requested = Ghost(self.requested@.push(name@));
                self.pending_enum = Some(name.clone());
                proof {
                    broadcast use vstd::seq_lib::lemma_seq_contains_after_push;

                    assert(self.requested@.to_set() =~= enum_names(self.enums@).to_set().insert(
                        name@,
                    ));
                }
                LoaderAction::Query(CatalogQuery::EnumLabels { enum_type: name, type_oid })
            },
            Ok(None) => {
                self.scan = self.rows.len();
                if self.phase == LoadPhase::RelationColumns {
                    match load_tables(&self.batch, &self.rows, &self.pks, &self.fks) {
                        Err(e) => self.fail(e),
                        Ok(tv) => {
                            proof {
                                if targets_found(tv@, self.fks@) {
                                    lemma_targets_found_among(
                                        tv@,
                                        self.batch@,
                                        self.rows@,
                                        self.pks@,
                                        self.fks@,
                                    );
                                }
                                if targets_among(self.batch@, self.fks@) {
                                    assert forall|k: int, j: int|
                                        #![trigger tv@[k], self.fks@[j]]
                                        0 <= k < tv@.len() && 0 <= j < self.fks@.len() && tv@[k].name@
                                            == self.fks@[j].source_table_name@ implies find_table(
                                        tv@,
                                        self.fks@[j].target_table_name@,
                                    ) is Some by {
                                        assert(table_names(tv@)[k] == tv@[k].name@);
                                        assert(table_names(tv@).to_set().contains(tv@[k].name@));
                                        assert(names_of(self.batch@).to_set().contains(
                                            self.fks@[j].source_table_name@,
                                        ));
                                        assert(names_of(self.batch@).contains(
                                            self.fks@[j].target_table_name@,
                                        ));
                                        assert(table_names(tv@).to_set().contains(
                                            self.fks@[j].target_table_name@,
                                        ));
                                        lemma_find_table_by_name(
                                            tv@,
                                            self.fks@[j].target_table_name@,
                                        );
                                    }
                                }
                            }
                            match get_fks(
                            &tv,
                            &self.fks,
                        ) {
                            Err(e) => self.fail(e),
                            Ok(foreign_keys) => {
                                self.tables_and_views = tv;
                                self.foreign_keys = foreign_keys;
                                self.first_batch = Ghost(self.batch@);
                                self.first_rows = Ghost(self.rows@);
                                self.phase = LoadPhase::MaterializedViews;
                                LoaderAction::Query(
                                    CatalogQuery::MaterializedViews {
                                        schema: self.schema_name.clone(),
                                    },
                                )
                            },
                        }
                        },
                    }
                } else {
                    match load_tables(&self.batch, &self.rows, &self.pks, &self.fks) {
                        Err(e) => self.fail(e),
                        Ok(mat_views) => {
                            let ghost mv = mat_views@;
                            assert(enums_cover(self.rows@, self.enums@));
                            let mut tv: Vec<Table> = Vec::new();
                            std::mem::swap(&mut tv, &mut self.tables_and_views);
                            proof {
                                lemma_base_tables_wf(tv@, self.relations@, self.kinds@);
                            }
                            let (tables, views) = split_views(
                                tv,
                                &self.relations,
                                &self.kinds,
                                mat_views,
                            );
                            let mut enums: Vec<SqlEnum> = Vec::new();
                            std::mem::swap(&mut enums, &mut self.enums);
                            let mut foreign_keys: Vec<ForeignKey> = Vec::new();
                            std::mem::swap(&mut foreign_keys, &mut self.foreign_keys);
                            self.phase = LoadPhase::Finished;
                            self.scan = 0;
                            self.enums = Vec::new();
                            let erd = SqlERData { tables, foreign_keys, enums, views };
                            assert(tables_built(
                                mv,
                                old(self).batch@,
                                old(self).rows@,
                                old(self).pks@,
                                old(self).fks@,
                            ));
                            LoaderAction::Done(erd)
                        },
                    }
                }
            },
        }
    }

    /// Takes the reply to the last query asked for and says what comes next.
    /// A reply that does not answer that query ends the load with an error,
    /// and a finished load only answers with an error.
    pub fn step(&mut self, reply: CatalogReply) -> (a: LoaderAction)
        requires
            old(self).wf(),
        ensures
            final(self).wf(),
            final(self).schema() == old(self).schema(),
            enum_request(old(self).requested_enums(), final(self).requested_enums(), a),
            a is Fail || a is Done ==> final(self).phase() == LoadPhase::Finished,
            a matches LoaderAction::Done(erd) ==> model_done(erd, final(self).requested_enums()),
            a matches LoaderAction::Done(erd) ==> model_from_catalog(
                erd,
                old(self).loaded_relations(),
                old(self).primary_keys(),
                old(self).fk_defs(),
                old(self).relations(),
                old(self).relation_kinds(),
                old(self).first_batch(),
                old(self).first_rows(),
                old(self).batch(),
                if reply is Columns {
                    reply->Columns_0@
                } else {
                    old(self).current_rows()
                },
            ),
            old(self).phase() == LoadPhase::Start || old(self).phase() == LoadPhase::Finished
                ==> a is Fail,
            old(self).phase() == LoadPhase::SchemaCheck ==> match reply {
                CatalogReply::SchemaExists(Some(true)) => a matches LoaderAction::Query(
                    CatalogQuery::SetSearchPath { schema },
                ) && schema@ == old(self).schema(),
                CatalogReply::SchemaExists(Some(false)) => a matches LoaderAction::Fail(
                    SqlantError::SchemaNotFound(s),
                ) && s@ == old(self).schema(),
                _ => a matches LoaderAction::Fail(SqlantError::PsqlErdLoader(_)),
            },
            old(self).phase() == LoadPhase::SearchPath && reply is SearchPathSet ==> (a matches LoaderAction::Query(
                CatalogQuery::PrimaryKeys { schema },
            ) && schema@ == old(self).schema()),
            old(self).phase() == LoadPhase::PrimaryKeys && reply is PrimaryKeys ==> (a matches LoaderAction::Query(
                CatalogQuery::ForeignKeys { schema },
            ) && schema@ == old(self).schema()),
            old(self).phase() == LoadPhase::ForeignKeys && reply is ForeignKeys ==> (a matches LoaderAction::Query(
                CatalogQuery::Relations { schema },
            ) && schema@ == old(self).schema()),
            old(self).phase() == LoadPhase::Relations ==> (reply matches CatalogReply::Relations(rows) ==> (
            a is Query <==> forall|i: int|
                0 <= i < rows@.len() ==> TableType::spec_from_name(
                    #[trigger] rows@[i].table_type@,
                ) is Some) && (a matches LoaderAction::Query(q) ==> (q matches CatalogQuery::Columns { relations } && relations@.len()
                == rows@.len() && forall|i: int|
                0 <= i < rows@.len() ==> #[trigger] relations@[i] == rows@[i].name))),
            old(self).phase() == LoadPhase::MaterializedViews ==> (reply matches CatalogReply::MaterializedViews(
                names,
            ) ==> (a matches LoaderAction::Query(CatalogQuery::Columns { relations }) && relations@
                == names@)),
            a is Done ==> old(self).phase() == LoadPhase::MaterializedViewColumns,
            // The phase each reply moves the load to, and whether labels are awaited.
            old(self).phase() == LoadPhase::SchemaCheck && a is Query ==> final(self).phase()
                == LoadPhase::SearchPath,
            old(self).phase() == LoadPhase::SearchPath && a is Query ==> final(self).phase()
                == LoadPhase::PrimaryKeys,
            old(self).phase() == LoadPhase::PrimaryKeys && a is Query ==> final(self).phase()
                == LoadPhase::ForeignKeys,
            old(self).phase() == LoadPhase::ForeignKeys && a is Query ==> final(self).phase()
                == LoadPhase::Relations,
            old(self).phase() == LoadPhase::Relations && a is Query ==> final(self).phase()
                == LoadPhase::RelationColumns,
            old(self).phase() == LoadPhase::MaterializedViews && a is Query ==> final(self).phase()
                == LoadPhase::MaterializedViewColumns,
            a matches LoaderAction::Query(CatalogQuery::MaterializedViews { .. }) ==> final(self).phase() == LoadPhase::MaterializedViews,
            a matches LoaderAction::Query(CatalogQuery::EnumLabels { enum_type, .. }) ==> (final(self).phase() == old(self).phase() && final(self).awaits_labels() && final(self).awaited_enum() == enum_type@),
            a is Query && !(a matches LoaderAction::Query(CatalogQuery::EnumLabels { .. }))
                ==> !final(self).awaits_labels(),
            (old(self).phase() == LoadPhase::RelationColumns || old(self).phase()
                == LoadPhase::MaterializedViewColumns) && a is Query ==> (final(self).phase()
                == old(self).phase() || a matches LoaderAction::Query(
                CatalogQuery::MaterializedViews { .. },
            )),
            (old(self).phase() == LoadPhase::RelationColumns || old(self).phase()
                == LoadPhase::MaterializedViewColumns) && !old(self).awaits_labels() ==> (
            reply matches CatalogReply::Columns(rows) ==> column_outcome(
                a,
                rows@,
                old(self).loaded_enums().to_set(),
                old(self).batch(),
                old(self).fk_defs(),
                old(self).phase() == LoadPhase::RelationColumns,
                old(self).schema(),
            )),
            old(self).phase() != LoadPhase::Finished && old(self).awaits_labels() && reply is EnumLabels
                ==> column_outcome(
                a,
                old(self).current_rows(),
                old(self).loaded_enums().to_set().insert(old(self).awaited_enum()),
                old(self).batch(),
                old(self).fk_defs(),
                old(self).phase() == LoadPhase::RelationColumns,
                old(self).schema(),
            ),
            // What each reply leaves behind, and what stays as it was.
            old(self).phase() == LoadPhase::PrimaryKeys ==> (reply matches CatalogReply::PrimaryKeys(
                rows,
            ) ==> final(self).primary_keys() == rows@),
            !(old(self).phase() == LoadPhase::PrimaryKeys && reply is PrimaryKeys) ==> final(self).primary_keys() == old(self).primary_keys(),
            old(self).phase() == LoadPhase::ForeignKeys ==> (reply matches CatalogReply::ForeignKeys(
                rows,
            ) ==> {
                &&& fks_sorted(final(self).fk_defs())
                &&& fk_keys(final(self).fk_defs()).no_duplicates()
                &&& fk_keys(final(self).fk_defs()).to_set() == fk_keys(rows@).to_set()
            }),
            !(old(self).phase() == LoadPhase::ForeignKeys && reply is ForeignKeys) ==> final(self).fk_defs() == old(self).fk_defs(),
            old(self).phase() == LoadPhase::Relations && a is Query ==> (reply matches CatalogReply::Relations(rows)
                ==> {
                &&& final(self).relations() == rows@
                &&& final(self).relation_kinds().len() == rows@.len()
                &&& forall|i: int|
                    0 <= i < rows@.len() ==> TableType::spec_from_name(
                        #[trigger] rows@[i].table_type@,
                    ) == Some(final(self).relation_kinds()[i])
                &&& final(self).batch().len() == rows@.len()
                &&& forall|i: int| 0 <= i < rows@.len() ==> #[trigger] final(self).batch()[i] == rows@[i].name
            }),
            !(old(self).phase() == LoadPhase::Relations && reply is Relations) ==> {
                &&& final(self).relations() == old(self).relations()
                &&& final(self).relation_kinds() == old(self).relation_kinds()
            },
            old(self).phase() == LoadPhase::MaterializedViews ==> (
                reply matches CatalogReply::MaterializedViews(names) ==> final(self).batch()
                == names@),
            !(old(self).phase() == LoadPhase::Relations && reply is Relations) && !(old(self).phase()
                == LoadPhase::MaterializedViews && reply is MaterializedViews) ==> final(self).batch()
                == old(self).batch(),
            (old(self).phase() == LoadPhase::RelationColumns || old(self).phase()
                == LoadPhase::MaterializedViewColumns) && !old(self).awaits_labels()
                ==> (reply matches CatalogReply::Columns(rows) ==> final(self).current_rows() == rows@),
            !((old(self).phase() == LoadPhase::RelationColumns || old(self).phase()
                == LoadPhase::MaterializedViewColumns) && !old(self).awaits_labels()
                && reply is Columns) ==> final(self).current_rows() == old(self).current_rows(),
            old(self).phase() != LoadPhase::Finished && old(self).awaits_labels()
                ==> (reply matches CatalogReply::EnumLabels(labels) ==> final(self).labels_received()
                == old(self).labels_received().insert(old(self).awaited_enum(), labels@)),
            !(old(self).phase() != LoadPhase::Finished && old(self).awaits_labels()
                && reply is EnumLabels) ==> final(self).labels_received() == old(self).labels_received(),
            a matches LoaderAction::Query(CatalogQuery::MaterializedViews { .. }) ==> {
                &&& final(self).first_batch() == old(self).batch()
                &&& final(self).first_rows() == final(self).current_rows()
                &&& tables_built(
                    final(self).loaded_relations(),
                    old(self).batch(),
                    final(self).current_rows(),
                    old(self).primary_keys(),
                    old(self).fk_defs(),
                )
            },
            !(a is Done) && !(a matches LoaderAction::Query(CatalogQuery::MaterializedViews { .. }))
                ==> {
                &&& final(self).first_batch() == old(self).first_batch()
                &&& final(self).first_rows() == old(self).first_rows()
                &&& final(self).loaded_relations() == old(self).loaded_relations()
            },
            a matches LoaderAction::Done(erd) ==> forall|i: int|
                0 <= i < erd.enums@.len() ==> final(self).labels_received().contains_key(
                    (#[trigger] erd.enums@[i]).name@,
                ) && final(self).labels_received()[erd.enums@[i].name@] == erd.enums@[i].values@,
    {
        if self.phase == LoadPhase::Start || self.phase == LoadPhase::Finished {
            return self.fail(SqlantError::PsqlErdLoader("no query is awaiting a reply".to_string()));
        }
        match reply {
            CatalogReply::SchemaExists(exists) => {
                if self.phase != LoadPhase::SchemaCheck {
                    return self.unexpected_reply();
                }
                match exists {
                    Some(true) => {
                        self.phase = LoadPhase::SearchPath;
                        LoaderAction::Query(
                            CatalogQuery::SetSearchPath { schema: self.schema_name.clone() },
                        )
                    },
                    Some(false) => {
                        let name = self.schema_name.clone();
                        self.fail(SqlantError::SchemaNotFound(name))
                    },
                    None => self.fail(
                        SqlantError::PsqlErdLoader(
                            "check_is_schema_exists query doesn't return any row".to_string(),
                        ),
                    ),
                }
            },
            CatalogReply::SearchPathSet => {
                if self.phase != LoadPhase::SearchPath {
                    return self.unexpected_reply();
                }
                self.phase = LoadPhase::PrimaryKeys;
                LoaderAction::Query(CatalogQuery::PrimaryKeys { schema: self.schema_name.clone() })
            },
            CatalogReply::PrimaryKeys(rows) => {
                if self.phase != LoadPhase::PrimaryKeys {
                    return self.unexpected_reply();
                }
                self.pks = rows;
                self.phase = LoadPhase::ForeignKeys;
                LoaderAction::Query(CatalogQuery::ForeignKeys { schema: self.schema_name.clone() })
            },
            CatalogReply::ForeignKeys(rows) => {
                if self.phase != LoadPhase::ForeignKeys {
                    return self.unexpected_reply();
                }
                self.fks = sort_fk_defs(rows);
                self.phase = LoadPhase::Relations;
                LoaderAction::Query(CatalogQuery::Relations { schema: self.schema_name.clone() })
            },
            CatalogReply::Relations(rows) => {
                if self.phase != LoadPhase::Relations {
                    return self.unexpected_reply();
                }
                self.relations_reply(rows)
            },
            CatalogReply::Columns(rows) => {
                if !(self.phase == LoadPhase::RelationColumns || self.phase
                    == LoadPhase::MaterializedViewColumns) || self.pending_enum.is_some() {
                    return self.unexpected_reply();
                }
                self.rows = rows;
                self.scan = 0;
                self.advance()
            },
            CatalogReply::EnumLabels(labels) => {
                match self.pending_enum.take() {
                    None => self.unexpected_reply(),
                    Some(name) => {
                        let ghost old_names = enum_names(self.enums@);
                        let ghost old_enums = self.enums@;
                        let ghost old_labels = self.labels@;
                        self.labels = Ghost(self.labels@.insert(name@, labels@));
                        let ghost e = SqlEnum { name, values: labels };
                        insert_enum(&mut self.enums, SqlEnum { name, values: labels });
                        proof {
                            assert forall|i: int| 0 <= i < self.enums@.len() implies self.labels@.contains_key(
                                (#[trigger] self.enums@[i]).name@,
                            ) && self.labels@[self.enums@[i].name@] == self.enums@[i].values@ by {
                                let x = self.enums@[i];
                                if x != e {
                                    let j = choose|j: int| 0 <= j < old_enums.len() && old_enums[j] == x;
                                    assert(old_names[j] == x.name@);
                                    assert(old_labels.contains_key(old_enums[j].name@));
                                }
                            }
                            let new_names = enum_names(self.enums@);
                            assert(old_names.to_set().subset_of(new_names.to_set()));
                            if self.phase == LoadPhase::MaterializedViewColumns {
                                lemma_enums_cover_grow(self.first_rows@, old_enums, self.enums@);
                            }
                            assert forall|k: int|
                                0 <= k < self.scan && is_enum_row(
                                    #[trigger] self.rows@[k],
                                ) implies new_names.contains(self.rows@[k].datatype@) by {
                                assert(old_names.to_set().contains(self.rows@[k].datatype@));
                                assert(new_names.to_set().contains(self.rows@[k].datatype@));
                            }
                        }
                        self.advance()
                    },
                }
            },
            CatalogReply::MaterializedViews(names) => {
                if self.phase != LoadPhase::MaterializedViews {
                    return self.unexpected_reply();
                }
                let relations = copy_names(&names);
                self.batch = names;
                self.scan = 0;
                self.phase = LoadPhase::MaterializedViewColumns;
                LoaderAction::Query(CatalogQuery::Columns { relations })
            },
        }
    }

    fn unexpected_reply(&mut self) -> (a: LoaderAction)
        requires
            old(self).wf(),
        ensures
            final(self).wf(),
            final(self).schema() == old(self).schema(),
            final(self).requested_enums() == old(self).requested_enums(),
            final(self).phase() == LoadPhase::Finished,
            a matches LoaderAction::Fail(SqlantError::PsqlErdLoader(_)),
            final(self).pks == old(self).pks,
            final(self).fks == old(self).fks,
            final(self).relations == old(self).relations,
            final(self).kinds == old(self).kinds,
            final(self).batch == old(self).batch,
            final(self).rows == old(self).rows,
            final(self).labels == old(self).labels,
            final(self).first_batch == old(self).first_batch,
            final(self).first_rows == old(self).first_rows,
            final(self).tables_and_views == old(self).tables_and_views,
            final(self).pending_enum == old(self).pending_enum,
    {
        self.fail(SqlantError::PsqlErdLoader("the reply does not answer the query".to_string()))
    }

    fn relations_reply(&mut self, rows: Vec<TableRow>) -> (a: LoaderAction)
        requires
            old(self).wf(),
            old(self).phase == LoadPhase::Relations,
        ensures
            final(self).wf(),
            final(self).schema() == old(self).schema(),
            final(self).requested_enums() == old(self).requested_enums(),
            a is Fail ==> final(self).phase() == LoadPhase::Finished,
            a is Query <==> forall|i: int|
                0 <= i < rows@.len() ==> TableType::spec_from_name(
                    #[trigger] rows@[i].table_type@,
                ) is Some,
            a is Query || a is Fail,
            a is Query ==> final(self).phase == LoadPhase::RelationColumns && final(self).pending_enum
                is None,
            a matches LoaderAction::Query(q) ==> (q matches CatalogQuery::Columns { relations } && relations@.len()
                == rows@.len() && forall|i: int|
                0 <= i < rows@.len() ==> #[trigger] relations@[i] == rows@[i].name),
            final(self).pks == old(self).pks,
            final(self).fks == old(self).fks,
            final(self).rows == old(self).rows,
            final(self).labels == old(self).labels,
            final(self).first_batch == old(self).first_batch,
            final(self).first_rows == old(self).first_rows,
            final(self).tables_and_views == old(self).tables_and_views,
            a is Fail ==> final(self).relations == old(self).relations && final(self).kinds == old(self).kinds
                && final(self).batch == old(self).batch,
            a is Query ==> {
                &&& final(self).relations@ == rows@
                &&& final(self).kinds@.len() == rows@.len()
                &&& forall|i: int|
                    0 <= i < rows@.len() ==> TableType::spec_from_name(
                        #[trigger] rows@[i].table_type@,
                    ) == Some(final(self).kinds@[i])
                &&& final(self).batch@.len() == rows@.len()
                &&& forall|i: int| 0 <= i < rows@.len() ==> #[trigger] final(self).batch@[i] == rows@[i].name
            },
    {
        let mut kinds: Vec<TableType> = Vec::new();
        let mut batch: Vec<String> = Vec::new();
        let mut relations: Vec<String> = Vec::new();
        let mut i: usize = 0;
        let ghost s0 = *self;
        while i < rows.len()
            invariant
                *self == s0,
                s0 == *old(self),
                s0.wf(),
                i <= rows@.len(),
                kinds@.len() == i,
                batch@.len() == i,
                relations@.len() == i,
                forall|k: int| 0 <= k < i ==> #[trigger] batch@[k] == rows@[k].name,
                forall|k: int| 0 <= k < i ==> #[trigger] relations@[k] == rows@[k].name,
                forall|k: int|
                    0 <= k < i ==> TableType::spec_from_name(#[trigger] rows@[k].table_type@)
                        == Some(kinds@[k]),
            decreases rows@.len() - i,
        {
            match TableType::from_name(rows[i].table_type.as_str()) {
                None => {
                    let mut msg = "Unknown table type: ".to_string();
                    msg.append(rows[i].table_type.as_str());
                    return self.fail(SqlantError::PsqlErdLoader(msg));
                },
                Some(k) => {
                    kinds.push(k);
                    batch.push(rows[i].name.clone());
                    relations.push(rows[i].name.clone());
                },
            }
            i = i + 1;
        }
        self.relations = rows;
        self.kinds = kinds;
        self.batch = batch;
        self.scan = 0;
        self.phase = LoadPhase::RelationColumns;
        LoaderAction::Query(CatalogQuery::Columns { relations })
    }

    /// The labels of an enumerated type are asked for at most once in a load,
    /// and, until the model is handed over, the types whose labels arrived
    /// are each loaded once and are exactly those asked for but the one
    /// whose labels are awaited.
    pub proof fn lemma_enum_labels_asked_once(&self)
        requires
            self.wf(),
        ensures
            self.requested_enums().no_duplicates(),
            self.loaded_enums().no_duplicates(),
            self.phase() != LoadPhase::Finished ==> forall|n: Seq<char>|
                #[trigger] self.loaded_enums().contains(n) ==> self.requested_enums().contains(n),
    {
        if self.phase != LoadPhase::Finished {
            assert forall|n: Seq<char>| #[trigger]
                self.loaded_enums().contains(n) implies self.requested_enums().contains(n) by {
                assert(enum_names(self.enums@).to_set().contains(n));
                assert(self.requested@.to_set().contains(n));
            }
        }
    }
}


} // verus!
