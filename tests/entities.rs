use sqlant::sql_entities::ColumnConstraints::{Check, ForeignKey as Fk, Index, NotNull, PrimaryKey, Unique};
use sqlant::sql_entities::{ColumnConstraints, ConstraintSet, ForeignKey, SqlERData, SqlEnum, Table, TableColumn};

fn column(name: &str, num: i16, constraints: &[ColumnConstraints]) -> TableColumn {
    TableColumn {
        name: name.to_string(),
        col_num: num,
        datatype: "bigint".to_string(),
        constraints: ConstraintSet::from_slice(constraints),
    }
}

#[test]
fn constraint_set_is_a_set() {
    let a = ConstraintSet::from_slice(&[PrimaryKey, NotNull, PrimaryKey, Unique]);
    let b = ConstraintSet::from_slice(&[Unique, NotNull, PrimaryKey]);
    assert_eq!(a, b);
    assert!(a.contains(PrimaryKey));
    assert!(!a.contains(Fk));
    let mut c = ConstraintSet::new();
    assert!(!c.contains(Index));
    c.insert(Check);
    c.insert(Check);
    assert!(c.contains(Check));
    assert_ne!(c, ConstraintSet::new());
}

#[test]
fn column_predicates() {
    let c = column("id", 1, &[PrimaryKey, NotNull]);
    assert!(c.is_pk() && c.is_nn() && !c.is_fk());
    let f = column("ref", 2, &[Fk]);
    assert!(f.is_fk() && !f.is_pk() && !f.is_nn());
}

#[test]
fn composite_key_flag() {
    assert!(!Table::new("t".to_string(), vec![]).has_composite_pk);
    let single = Table::new("t".to_string(), vec![column("a", 1, &[PrimaryKey]), column("b", 2, &[])]);
    assert!(!single.has_composite_pk);
    let double = Table::new(
        "t".to_string(),
        vec![column("a", 1, &[PrimaryKey]), column("b", 2, &[Fk]), column("c", 3, &[PrimaryKey])],
    );
    assert!(double.has_composite_pk);
    assert_eq!(double.columns.len(), 3);
    assert_eq!(double.name, "t");
}

#[test]
fn table_column_lookup() {
    let t = Table::new("t".to_string(), vec![column("a", 1, &[]), column("b", 5, &[])]);
    assert_eq!(t.column(5).unwrap().name, "b");
    assert!(t.column(2).is_none());
}

#[test]
fn cardinality_rules() {
    let one = Table::new("one".to_string(), vec![column("id", 1, &[PrimaryKey]), column("x", 2, &[])]);
    let other = Table::new("other".to_string(), vec![column("id", 1, &[PrimaryKey, Fk])]);
    let two = Table::new(
        "two".to_string(),
        vec![column("a", 1, &[PrimaryKey]), column("b", 2, &[PrimaryKey])],
    );
    // Both sides keyed, same width.
    assert!(ForeignKey::is_zero_one_to_one(&other, &[1], &one, &[1]));
    // Source column outside the key.
    assert!(!ForeignKey::is_zero_one_to_one(&one, &[2], &other, &[1]));
    // Target column outside the key.
    assert!(!ForeignKey::is_zero_one_to_one(&other, &[1], &one, &[2]));
    // Both keyed, widths differ.
    assert!(!ForeignKey::is_zero_one_to_one(&two, &[1], &one, &[1]));
    let fk = ForeignKey::new(&two, vec![1, 2], &two, vec![1, 2]);
    assert!(fk.is_zero_one_to_one);
    assert_eq!(fk.source_table, "two");
    assert_eq!(fk.target_table, "two");
    assert_eq!(fk.source_columns, vec![1, 2]);
    let fk = ForeignKey::new(&one, vec![2], &other, vec![1]);
    assert!(!fk.is_zero_one_to_one);
}

#[test]
fn model_well_formedness() {
    let e = |n: &str| SqlEnum { name: n.to_string(), values: vec![] };
    let mut erd = SqlERData { tables: vec![], foreign_keys: vec![], enums: vec![e("a"), e("b")], views: vec![] };
    assert!(erd.is_well_formed());
    erd.enums = vec![e("b"), e("a")];
    assert!(!erd.is_well_formed());
    erd.enums = vec![e("a"), e("a")];
    assert!(!erd.is_well_formed());
    erd.enums = vec![];
    let mut t = Table::new("t".to_string(), vec![column("a", 1, &[PrimaryKey]), column("b", 2, &[PrimaryKey])]);
    t.has_composite_pk = false;
    erd.tables = vec![t];
    assert!(!erd.is_well_formed());
}
