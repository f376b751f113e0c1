use sqlant::catalog::{ColumnRow, FkRow, PkRow, TableRow};
use sqlant::psql_erd_loader::{CatalogQuery, CatalogReply, LoaderAction, PostgreSqlERDLoader};
use sqlant::sql_entities::ColumnConstraints::{ForeignKey, NotNull, PrimaryKey, Unique};
use sqlant::sql_entities::{ColumnConstraints, ConstraintSet, SqlERData, Table, TableColumn};
use sqlant::SqlantError;
use std::collections::BTreeMap;

const BIGINT_OID: u32 = 20;
const TEXT_OID: u32 = 25;
const PRODUCT_CATEGORY_OID: u32 = 16500;

struct Catalog {
    schemas: Vec<String>,
    pks: Vec<PkRow>,
    fks: Vec<FkRow>,
    relations: Vec<TableRow>,
    columns: Vec<ColumnRow>,
    enum_labels: Vec<(u32, Vec<String>)>,
    mat_views: Vec<String>,
}

struct Run {
    result: Result<SqlERData, SqlantError>,
    queries: Vec<CatalogQuery>,
}

fn strings(items: &[&str]) -> Vec<String> {
    items.iter().map(|s| s.to_string()).collect()
}

fn col(table: &str, name: &str, num: i16, datatype: &str, not_null: bool) -> ColumnRow {
    let type_oid = if datatype == "text" { TEXT_OID } else { BIGINT_OID };
    ColumnRow {
        col_name: name.to_string(),
        col_num: num,
        datatype: datatype.to_string(),
        not_null,
        table_name: table.to_string(),
        type_oid,
        typtype: b'b' as i8,
    }
}

fn enum_col(table: &str, name: &str, num: i16, datatype: &str, oid: u32) -> ColumnRow {
    ColumnRow {
        col_name: name.to_string(),
        col_num: num,
        datatype: datatype.to_string(),
        not_null: true,
        table_name: table.to_string(),
        type_oid: oid,
        typtype: b'e' as i8,
    }
}

fn pk(table: &str, cols: &[i16]) -> PkRow {
    PkRow { table_name: table.to_string(), columns: cols.to_vec() }
}

fn fk(source: &str, source_cols: &[i16], target: &str, target_cols: &[i16]) -> FkRow {
    FkRow {
        source_table_name: source.to_string(),
        source_columns: source_cols.to_vec(),
        target_table_name: target.to_string(),
        target_columns: target_cols.to_vec(),
    }
}

fn relation(name: &str, table_type: &str) -> TableRow {
    TableRow { name: name.to_string(), table_type: table_type.to_string() }
}

fn answer(catalog: &Catalog, q: &CatalogQuery) -> CatalogReply {
    match q {
        CatalogQuery::SchemaExists { schema } => {
            CatalogReply::SchemaExists(Some(catalog.schemas.contains(schema)))
        }
        CatalogQuery::SetSearchPath { .. } => CatalogReply::SearchPathSet,
        CatalogQuery::PrimaryKeys { .. } => CatalogReply::PrimaryKeys(catalog.pks.clone()),
        CatalogQuery::ForeignKeys { .. } => CatalogReply::ForeignKeys(catalog.fks.clone()),
        CatalogQuery::Relations { .. } => {
            let mut rows = catalog.relations.clone();
            rows.sort_by(|a, b| a.name.cmp(&b.name));
            CatalogReply::Relations(rows)
        }
        CatalogQuery::Columns { relations } => {
            let mut rows: Vec<ColumnRow> = catalog
                .columns
                .iter()
                .filter(|c| relations.contains(&c.table_name))
                .cloned()
                .collect();
            rows.sort_by(|a, b| (&a.table_name, &a.col_name).cmp(&(&b.table_name, &b.col_name)));
            CatalogReply::Columns(rows)
        }
        CatalogQuery::EnumLabels { type_oid, .. } => {
            let labels = catalog
                .enum_labels
                .iter()
                .find(|(oid, _)| oid == type_oid)
                .map(|(_, l)| l.clone())
                .unwrap_or_default();
            CatalogReply::EnumLabels(labels)
        }
        CatalogQuery::MaterializedViews { .. } => {
            CatalogReply::MaterializedViews(catalog.mat_views.clone())
        }
    }
}

fn load(catalog: &Catalog, schema: &str) -> Run {
    let mut loader = PostgreSqlERDLoader::new(schema.to_string());
    let mut action = loader.start();
    let mut queries = vec![];
    loop {
        match action {
            LoaderAction::Done(erd) => return Run { result: Ok(erd), queries },
            LoaderAction::Fail(e) => return Run { result: Err(e), queries },
            LoaderAction::Query(q) => {
                let reply = answer(catalog, &q);
                queries.push(q);
                action = loader.step(reply);
            }
        }
    }
}

/// The shop schema of the test database: eight tables, seven foreign keys.
/// With `enum_category` the product category is an enumerated type.
fn shop_catalog(enum_category: bool) -> Catalog {
    let category = if enum_category {
        enum_col("product", "category", 5, "product_category", PRODUCT_CATEGORY_OID)
    } else {
        col("product", "category", 5, "text", true)
    };
    Catalog {
        schemas: strings(&["public"]),
        pks: vec![
            pk("customer", &[1]),
            pk("customer_order", &[1]),
            pk("order_detail", &[1, 2]),
            pk("order_detail_approval", &[1, 2]),
            pk("product", &[1]),
            pk("sku", &[1]),
            pk("vendor", &[1]),
            pk("vendor_address", &[1]),
        ],
        fks: vec![
            fk("customer_order", &[2], "customer", &[1]),
            fk("order_detail", &[2], "customer_order", &[1]),
            fk("order_detail", &[3], "sku", &[1]),
            fk("order_detail_approval", &[1, 2], "order_detail", &[1, 2]),
            fk("product", &[2], "vendor", &[1]),
            fk("sku", &[2], "product", &[1]),
            fk("vendor_address", &[1], "vendor", &[1]),
        ],
        relations: vec![
            relation("customer", "BASE TABLE"),
            relation("customer_order", "BASE TABLE"),
            relation("order_detail", "BASE TABLE"),
            relation("order_detail_approval", "BASE TABLE"),
            relation("product", "BASE TABLE"),
            relation("sku", "BASE TABLE"),
            relation("vendor", "BASE TABLE"),
            relation("vendor_address", "BASE TABLE"),
        ],
        columns: vec![
            col("customer", "id", 1, "bigint", true),
            col("customer", "name", 2, "text", true),
            col("customer_order", "id", 1, "bigint", true),
            col("customer_order", "customer_id", 2, "bigint", true),
            col("order_detail", "id", 1, "bigint", true),
            col("order_detail", "customer_order_id", 2, "bigint", true),
            col("order_detail", "sku_id", 3, "bigint", true),
            col("order_detail_approval", "order_detail_id", 1, "bigint", true),
            col("order_detail_approval", "customer_order_id", 2, "bigint", true),
            col("order_detail_approval", "operator_id", 3, "bigint", true),
            col("order_detail_approval", "approved_at", 4, "timestamp with time zone", true),
            col("product", "id", 1, "bigint", true),
            col("product", "vendor_id", 2, "bigint", true),
            col("product", "name", 3, "text", true),
            col("product", "country", 4, "text", true),
            category,
            col("sku", "id", 1, "bigint", true),
            col("sku", "product_id", 2, "bigint", true),
            col("vendor", "id", 1, "bigint", true),
            col("vendor", "name", 2, "text", true),
            col("vendor_address", "vendor_id", 1, "bigint", true),
            col("vendor_address", "address", 2, "text", true),
        ],
        enum_labels: vec![(PRODUCT_CATEGORY_OID, strings(&["electronics", "jewelry", "home"]))],
        mat_views: vec![],
    }
}

/// The custom schema: customers and their orders.
fn custom_schema_catalog() -> Catalog {
    Catalog {
        schemas: strings(&["public", "test_schema"]),
        pks: vec![pk("customers", &[1]), pk("orders", &[1])],
        fks: vec![fk("orders", &[3], "customers", &[1])],
        relations: vec![relation("customers", "BASE TABLE"), relation("orders", "BASE TABLE")],
        columns: vec![
            col("customers", "customer_id", 1, "integer", true),
            col("customers", "customer_name", 2, "character varying", false),
            col("orders", "order_id", 1, "integer", true),
            col("orders", "order_description", 2, "character varying", false),
            col("orders", "customer_id", 3, "integer", false),
        ],
        enum_labels: vec![],
        mat_views: vec![],
    }
}

fn load_erd(catalog: &Catalog, schema: &str) -> SqlERData {
    load(catalog, schema).result.unwrap()
}

fn find_table<'a>(erd: &'a SqlERData, name: &str) -> &'a Table {
    erd.tables.iter().find(|t| t.name == name).unwrap()
}

fn find_column<'a>(table: &'a Table, name: &str) -> &'a TableColumn {
    table.columns.iter().find(|c| c.name == name).unwrap()
}

fn column_names(erd: &SqlERData, table: &str, ords: &[i16]) -> Vec<String> {
    let t = find_table(erd, table);
    ords.iter().map(|n| t.column(*n).unwrap().name.clone()).collect()
}

fn check_columns(erd: &SqlERData, tables: Vec<(&str, Vec<(&str, &str, Vec<ColumnConstraints>)>)>, exact: bool) {
    for (table_name, cols) in tables {
        let table = find_table(erd, table_name);
        if exact {
            assert_eq!(cols.len(), table.columns.len());
        }
        for (exp_col_name, exp_col_type, exp_constraints) in cols {
            let col = find_column(table, exp_col_name);
            assert_eq!(col.constraints, ConstraintSet::from_slice(&exp_constraints));
            assert_eq!(col.datatype, exp_col_type);
        }
    }
}

fn check_fk(
    erd: &SqlERData,
    source_table_name: &str,
    target_table_name: &str,
    expected_source_columns: Vec<&str>,
    expected_target_columns: Vec<&str>,
) {
    let fk = erd
        .foreign_keys
        .iter()
        .find(|fk| fk.source_table == source_table_name && fk.target_table == target_table_name)
        .unwrap();
    assert_eq!(fk.target_table, target_table_name);
    assert_eq!(expected_source_columns.len(), fk.source_columns.len());
    assert_eq!(expected_target_columns.len(), fk.target_columns.len());
    for name in column_names(erd, &fk.source_table, &fk.source_columns) {
        assert!(expected_source_columns.contains(&name.as_str()));
    }
    for name in column_names(erd, &fk.target_table, &fk.target_columns) {
        assert!(expected_target_columns.contains(&name.as_str()));
    }
}

fn shop_fks(erd: &SqlERData) {
    check_fk(
        erd,
        "order_detail_approval",
        "order_detail",
        vec!["order_detail_id", "customer_order_id"],
        vec!["id", "customer_order_id"],
    );
    check_fk(erd, "order_detail", "customer_order", vec!["customer_order_id"], vec!["id"]);
    check_fk(erd, "order_detail", "sku", vec!["sku_id"], vec!["id"]);
    check_fk(erd, "customer_order", "customer", vec!["customer_id"], vec!["id"]);
    check_fk(erd, "sku", "product", vec!["product_id"], vec!["id"]);
    check_fk(erd, "product", "vendor", vec!["vendor_id"], vec!["id"]);
    check_fk(erd, "vendor_address", "vendor", vec!["vendor_id"], vec!["id"]);
}

fn shop_zero_one_to_one(erd: &SqlERData) {
    for fk in &erd.foreign_keys {
        if fk.source_table == "vendor_address" || fk.source_table == "order_detail_approval" {
            assert!(fk.is_zero_one_to_one);
        } else {
            assert!(!fk.is_zero_one_to_one);
        }
    }
}

fn shop_composite_pk(erd: &SqlERData) {
    for tbl in &erd.tables {
        if tbl.name == "order_detail_approval" || tbl.name == "order_detail" {
            assert!(tbl.has_composite_pk);
        } else {
            assert!(!tbl.has_composite_pk);
        }
    }
}

#[test]
fn psql_er_parser_test_columns() {
    let erd = load_erd(&shop_catalog(false), "public");
    check_columns(
        &erd,
        vec![
            (
                "order_detail_approval",
                vec![
                    ("customer_order_id", "bigint", vec![PrimaryKey, ForeignKey, NotNull, Unique]),
                    ("order_detail_id", "bigint", vec![PrimaryKey, ForeignKey, NotNull, Unique]),
                    ("operator_id", "bigint", vec![NotNull]),
                    ("approved_at", "timestamp with time zone", vec![NotNull]),
                ],
            ),
            (
                "product",
                vec![
                    ("id", "bigint", vec![PrimaryKey, NotNull, Unique]),
                    ("vendor_id", "bigint", vec![ForeignKey, NotNull]),
                    ("name", "text", vec![NotNull]),
                    ("country", "text", vec![NotNull]),
                    ("category", "text", vec![NotNull]),
                ],
            ),
        ],
        false,
    );
}

#[test]
fn psql_er_parser_test_fks() {
    let erd = load_erd(&shop_catalog(false), "public");
    shop_fks(&erd);
}

#[test]
fn psql_er_parser_test_tables_data() {
    let erd = load_erd(&shop_catalog(false), "public");
    assert_eq!(erd.tables.len(), 8);
    assert_eq!(erd.foreign_keys.len(), 7);
}

#[test]
fn psql_er_parser_test_is_zero_one_to_one() {
    let erd = load_erd(&shop_catalog(false), "public");
    shop_zero_one_to_one(&erd);
}

#[test]
fn psql_er_parser_test_composite_pk() {
    let erd = load_erd(&shop_catalog(false), "public");
    shop_composite_pk(&erd);
}

#[test]
fn custom_schema_columns() {
    let erd = load_erd(&custom_schema_catalog(), "test_schema");
    let tables = vec![
        (
            "customers",
            vec![
                ("customer_id", "integer", vec![PrimaryKey, NotNull, Unique]),
                ("customer_name", "character varying", vec![]),
            ],
        ),
        (
            "orders",
            vec![
                ("order_id", "integer", vec![PrimaryKey, NotNull, Unique]),
                ("order_description", "character varying", vec![]),
                ("customer_id", "integer", vec![ForeignKey]),
            ],
        ),
    ];
    assert_eq!(tables.len(), erd.tables.len());
    check_columns(&erd, tables, true);
}

#[test]
fn custom_schema_fks() {
    let erd = load_erd(&custom_schema_catalog(), "test_schema");
    check_fk(&erd, "orders", "customers", vec!["customer_id"], vec!["customer_id"]);
}

#[test]
fn sql_loader_custom_schema_test_tables_data() {
    let erd = load_erd(&custom_schema_catalog(), "test_schema");
    assert_eq!(erd.tables.len(), 2);
    assert_eq!(erd.foreign_keys.len(), 1);
}

#[test]
fn enums() {
    let erd = load_erd(&shop_catalog(true), "public");
    let mut expected_hash_map = BTreeMap::new();
    expected_hash_map.insert(
        "product_category".to_string(),
        vec!["electronics".to_string(), "jewelry".to_string(), "home".to_string()],
    );
    let loaded: BTreeMap<String, Vec<String>> =
        erd.enums.iter().map(|e| (e.name.clone(), e.values.clone())).collect();
    assert_eq!(loaded, expected_hash_map);
}

#[test]
fn sql_loader_test_columns() {
    let erd = load_erd(&shop_catalog(true), "public");
    check_columns(
        &erd,
        vec![
            (
                "order_detail_approval",
                vec![
                    ("customer_order_id", "bigint", vec![PrimaryKey, ForeignKey, NotNull, Unique]),
                    ("order_detail_id", "bigint", vec![PrimaryKey, ForeignKey, NotNull, Unique]),
                    ("operator_id", "bigint", vec![NotNull]),
                    ("approved_at", "timestamp with time zone", vec![NotNull]),
                ],
            ),
            (
                "product",
                vec![
                    ("id", "bigint", vec![PrimaryKey, NotNull, Unique]),
                    ("vendor_id", "bigint", vec![ForeignKey, NotNull]),
                    ("name", "text", vec![NotNull]),
                    ("country", "text", vec![NotNull]),
                    ("category", "product_category", vec![NotNull]),
                ],
            ),
        ],
        true,
    );
}

#[test]
fn sql_loader_test_fks() {
    let erd = load_erd(&shop_catalog(true), "public");
    shop_fks(&erd);
}

#[test]
fn sql_loader_test_tables_data() {
    let erd = load_erd(&shop_catalog(true), "public");
    assert_eq!(erd.tables.len(), 8);
    assert_eq!(erd.foreign_keys.len(), 7);
}

#[test]
fn sql_loader_test_is_zero_one_to_one() {
    let erd = load_erd(&shop_catalog(true), "public");
    shop_zero_one_to_one(&erd);
}

#[test]
fn sql_loader_test_composite_pk() {
    let erd = load_erd(&shop_catalog(true), "public");
    shop_composite_pk(&erd);
}

fn count_queries(run: &Run, pred: &dyn Fn(&CatalogQuery) -> bool) -> usize {
    run.queries.iter().filter(|q| pred(q)).count()
}

#[test]
fn scenario_customers_and_orders() {
    let erd = load_erd(&custom_schema_catalog(), "test_schema");
    assert_eq!(erd.tables.len(), 2);
    assert_eq!(erd.foreign_keys.len(), 1);
    let orders = find_table(&erd, "orders");
    assert_eq!(find_column(orders, "customer_id").constraints, ConstraintSet::from_slice(&[ForeignKey]));
    let fk = &erd.foreign_keys[0];
    assert_eq!(fk.source_table, "orders");
    assert_eq!(fk.target_table, "customers");
    assert_eq!(fk.source_columns, vec![3]);
    assert_eq!(fk.target_columns, vec![1]);
    assert!(!fk.is_zero_one_to_one);
    assert!(erd.enums.is_empty());
    assert!(erd.views.is_empty());
}

#[test]
fn scenario_composite_key_approval() {
    let erd = load_erd(&shop_catalog(false), "public");
    assert!(find_table(&erd, "order_detail_approval").has_composite_pk);
    assert!(find_table(&erd, "order_detail").has_composite_pk);
    let fk = erd
        .foreign_keys
        .iter()
        .find(|f| f.source_table == "order_detail_approval")
        .unwrap();
    assert_eq!(fk.target_table, "order_detail");
    // Columns stand in their tables' order (by name, as the catalog lists them).
    assert_eq!(fk.source_columns, vec![2, 1]);
    assert_eq!(fk.target_columns, vec![2, 1]);
    assert!(fk.is_zero_one_to_one);
}

#[test]
fn scenario_missing_schema() {
    let run = load(&custom_schema_catalog(), "no_such_schema");
    match run.result {
        Err(SqlantError::SchemaNotFound(name)) => assert_eq!(name, "no_such_schema"),
        other => panic!("unexpected result {:?}", other),
    }
    assert_eq!(run.queries.len(), 1);
    assert!(matches!(&run.queries[0], CatalogQuery::SchemaExists { schema } if schema == "no_such_schema"));
}

#[test]
fn schema_probe_without_rows_fails() {
    let mut loader = PostgreSqlERDLoader::new("public".to_string());
    loader.start();
    let a = loader.step(CatalogReply::SchemaExists(None));
    assert!(matches!(a, LoaderAction::Fail(SqlantError::PsqlErdLoader(_))));
    let again = loader.step(CatalogReply::SearchPathSet);
    assert!(matches!(again, LoaderAction::Fail(_)));
}

#[test]
fn queries_come_in_order() {
    let run = load(&shop_catalog(true), "public");
    assert!(run.result.is_ok());
    let kinds: Vec<&str> = run
        .queries
        .iter()
        .map(|q| match q {
            CatalogQuery::SchemaExists { .. } => "exists",
            CatalogQuery::SetSearchPath { .. } => "search_path",
            CatalogQuery::PrimaryKeys { .. } => "pks",
            CatalogQuery::ForeignKeys { .. } => "fks",
            CatalogQuery::Relations { .. } => "relations",
            CatalogQuery::Columns { .. } => "columns",
            CatalogQuery::EnumLabels { .. } => "labels",
            CatalogQuery::MaterializedViews { .. } => "matviews",
        })
        .collect();
    assert_eq!(
        kinds,
        vec!["exists", "search_path", "pks", "fks", "relations", "columns", "labels", "matviews", "columns"]
    );
}

#[test]
fn enum_labels_fetched_once_per_type() {
    let mut catalog = shop_catalog(true);
    catalog.columns.push(enum_col("sku", "category", 3, "product_category", PRODUCT_CATEGORY_OID));
    catalog.columns.push(enum_col("vendor", "main_category", 3, "product_category", PRODUCT_CATEGORY_OID));
    catalog.columns.push(enum_col("vendor", "mood", 4, "mood", 16600));
    catalog.enum_labels.push((16600, strings(&["sad", "ok"])));
    let run = load(&catalog, "public");
    let erd = run.result.as_ref().unwrap();
    let asked = |name: &str| {
        count_queries(&run, &|q| matches!(q, CatalogQuery::EnumLabels { enum_type, .. } if enum_type == name))
    };
    assert_eq!(asked("product_category"), 1);
    assert_eq!(asked("mood"), 1);
    let names: Vec<&str> = erd.enums.iter().map(|e| e.name.as_str()).collect();
    assert_eq!(names, vec!["mood", "product_category"]);
    assert_eq!(erd.enums[0].values, strings(&["sad", "ok"]));
}

#[test]
fn views_are_moved_out_of_tables() {
    let mut catalog = custom_schema_catalog();
    catalog.relations.push(relation("order_totals", "VIEW"));
    catalog.columns.push(col("order_totals", "total", 1, "bigint", false));
    catalog.mat_views.push("big_orders".to_string());
    catalog.columns.push(col("big_orders", "order_id", 1, "integer", false));
    let erd = load_erd(&catalog, "test_schema");
    let table_names: Vec<&str> = erd.tables.iter().map(|t| t.name.as_str()).collect();
    assert_eq!(table_names, vec!["customers", "orders"]);
    assert_eq!(erd.views.len(), 2);
    assert_eq!(erd.views[0].name, "big_orders");
    assert!(erd.views[0].materialized);
    assert_eq!(erd.views[0].columns.len(), 1);
    assert_eq!(erd.views[1].name, "order_totals");
    assert!(!erd.views[1].materialized);
    assert_eq!(erd.views[1].columns[0].name, "total");
}

#[test]
fn tables_are_sorted_by_name() {
    let mut catalog = custom_schema_catalog();
    catalog.relations.push(relation("Zebra", "BASE TABLE"));
    catalog.relations.push(relation("aardvark", "BASE TABLE"));
    let erd = load_erd(&catalog, "test_schema");
    let names: Vec<&str> = erd.tables.iter().map(|t| t.name.as_str()).collect();
    assert_eq!(names, vec!["Zebra", "aardvark", "customers", "orders"]);
    assert!(erd.tables[0].columns.is_empty());
}

#[test]
fn missing_target_table_fails() {
    let mut catalog = custom_schema_catalog();
    catalog.fks.push(fk("orders", &[2], "ghosts", &[1]));
    let run = load(&catalog, "test_schema");
    match run.result {
        Err(SqlantError::PsqlErdLoader(msg)) => assert_eq!(msg, "Target table is not found"),
        other => panic!("unexpected result {:?}", other),
    }
}

#[test]
fn unknown_relation_type_fails() {
    let mut catalog = custom_schema_catalog();
    catalog.relations.push(relation("remote", "FOREIGN"));
    let run = load(&catalog, "test_schema");
    match run.result {
        Err(SqlantError::PsqlErdLoader(msg)) => assert_eq!(msg, "Unknown table type: FOREIGN"),
        other => panic!("unexpected result {:?}", other),
    }
}

#[test]
fn column_of_unknown_relation_fails() {
    let mut loader = PostgreSqlERDLoader::new("s".to_string());
    loader.start();
    loader.step(CatalogReply::SchemaExists(Some(true)));
    loader.step(CatalogReply::SearchPathSet);
    loader.step(CatalogReply::PrimaryKeys(vec![]));
    loader.step(CatalogReply::ForeignKeys(vec![]));
    let a = loader.step(CatalogReply::Relations(vec![relation("a", "BASE TABLE")]));
    match a {
        LoaderAction::Query(CatalogQuery::Columns { relations }) => assert_eq!(relations, strings(&["a"])),
        other => panic!("unexpected action {:?}", other),
    }
    let a = loader.step(CatalogReply::Columns(vec![col("b", "x", 1, "bigint", false)]));
    match a {
        LoaderAction::Fail(SqlantError::PsqlErdLoader(msg)) => assert_eq!(msg, "Failed to get mut columns"),
        other => panic!("unexpected action {:?}", other),
    }
}

#[test]
fn bad_type_category_fails() {
    let mut catalog = custom_schema_catalog();
    catalog.columns[0].typtype = -3;
    let run = load(&catalog, "test_schema");
    assert!(matches!(run.result, Err(SqlantError::PsqlErdLoader(_))));
}

#[test]
fn reply_to_another_query_fails() {
    let mut loader = PostgreSqlERDLoader::new("public".to_string());
    match loader.start() {
        LoaderAction::Query(CatalogQuery::SchemaExists { schema }) => assert_eq!(schema, "public"),
        other => panic!("unexpected action {:?}", other),
    }
    let a = loader.step(CatalogReply::PrimaryKeys(vec![]));
    assert!(matches!(a, LoaderAction::Fail(SqlantError::PsqlErdLoader(_))));
}

#[test]
fn primary_key_implies_not_null_and_unique() {
    let mut catalog = custom_schema_catalog();
    // The catalog reports the key column as nullable; the key decides.
    catalog.columns[0].not_null = false;
    let erd = load_erd(&catalog, "test_schema");
    let c = find_column(find_table(&erd, "customers"), "customer_id");
    assert_eq!(c.constraints, ConstraintSet::from_slice(&[PrimaryKey, NotNull, Unique]));
}

#[test]
fn fk_columns_follow_table_order() {
    for def in [[1, 2], [2, 1]] {
        let mut catalog = shop_catalog(false);
        catalog.fks[3] = fk("order_detail_approval", &def, "order_detail", &def);
        let erd = load_erd(&catalog, "public");
        let fk = erd.foreign_keys.iter().find(|f| f.source_table == "order_detail_approval").unwrap();
        assert_eq!(fk.source_columns, vec![2, 1]);
        assert_eq!(
            column_names(&erd, "order_detail_approval", &fk.source_columns),
            strings(&["customer_order_id", "order_detail_id"])
        );
        assert_eq!(
            column_names(&erd, "order_detail", &fk.target_columns),
            strings(&["customer_order_id", "id"])
        );
    }
}

#[test]
fn foreign_keys_are_a_sorted_set() {
    let mut catalog = custom_schema_catalog();
    catalog.columns.push(col("orders", "referrer_id", 4, "integer", false));
    catalog.fks = vec![
        fk("orders", &[4], "customers", &[1]),
        fk("orders", &[3], "customers", &[1]),
        fk("orders", &[4], "customers", &[1]),
        fk("customers", &[2], "orders", &[1]),
    ];
    let erd = load_erd(&catalog, "test_schema");
    let lines: Vec<(String, Vec<i16>)> =
        erd.foreign_keys.iter().map(|f| (f.source_table.clone(), f.source_columns.clone())).collect();
    assert_eq!(
        lines,
        vec![
            ("customers".to_string(), vec![2]),
            ("orders".to_string(), vec![3]),
            ("orders".to_string(), vec![4]),
        ]
    );
    let referrer = find_column(find_table(&erd, "orders"), "referrer_id");
    assert_eq!(referrer.constraints, ConstraintSet::from_slice(&[ForeignKey]));
}

#[test]
fn relation_listed_twice_is_one_table() {
    let mut catalog = custom_schema_catalog();
    catalog.relations.push(relation("orders", "BASE TABLE"));
    let erd = load_erd(&catalog, "test_schema");
    assert_eq!(erd.tables.len(), 2);
    assert_eq!(find_table(&erd, "orders").columns.len(), 3);
}

#[test]
fn empty_schema_gives_empty_model() {
    let catalog = Catalog {
        schemas: strings(&["empty"]),
        pks: vec![],
        fks: vec![],
        relations: vec![],
        columns: vec![],
        enum_labels: vec![],
        mat_views: vec![],
    };
    let erd = load_erd(&catalog, "empty");
    assert!(erd.tables.is_empty());
    assert!(erd.foreign_keys.is_empty());
    assert!(erd.enums.is_empty());
    assert!(erd.views.is_empty());
}

#[test]
fn bad_type_category_after_enum_asks_labels_first() {
    let mut catalog = shop_catalog(true);
    // product.category (enum) sorts before product.country.
    for c in catalog.columns.iter_mut() {
        if c.table_name == "product" && c.col_name == "country" {
            c.typtype = -1;
        }
    }
    let run = load(&catalog, "public");
    assert!(matches!(run.result, Err(SqlantError::PsqlErdLoader(_))));
    assert_eq!(
        count_queries(&run, &|q| matches!(q, CatalogQuery::EnumLabels { type_oid, .. } if *type_oid == PRODUCT_CATEGORY_OID)),
        1
    );
}

#[test]
fn loaded_model_is_well_formed() {
    let erd = load_erd(&shop_catalog(true), "public");
    assert!(erd.is_well_formed());
}
