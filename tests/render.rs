use serde_json::Value;
use sqlant::mermaid_generator::MermaidGenerator;
use sqlant::plantuml_generator::{PlantUmlDefaultGenerator, PUML_LIB_INCLUDE, PUML_LIB_INLINE};
use sqlant::sql_entities::ColumnConstraints::{ForeignKey as Fk, NotNull, PrimaryKey, Unique};
use sqlant::sql_entities::{
    ColumnConstraints, ConstraintSet, ForeignKey, SqlERData, SqlEnum, Table, TableColumn,
};
use sqlant::{get_generator, Direction, GeneratorConfigOptions, GeneratorType, ViewGenerator};
use tinytemplate::{format_unescaped, TinyTemplate};

static PUML_TEMPLATE: &str = "@startuml\n\n\
    hide circle\n\
    skinparam linetype ortho\n\n\
    {puml_lib}\n\n\
    {{ for ent in entities}}{ent}\n{{ endfor }}\n\
    {{ for fk in foreign_keys}}{fk}\n{{ endfor }}\n\
    {{ for e in enums}}{e}\n{{ endfor }}{legend}\n@enduml";
static PUML_ENTITY_TEMPLATE: &str = "table({name}) \\{\n{pks}  ---\n{fks}{nns}{others}}\n";
static PUML_COLUMN_TEMPLATE: &str = "  column({col.name}, \"{col.datatype}\"{{ if is_pk }}, $pk=true{{ endif }}{{ if is_pk }}, $fk=true{{ endif }}{{if is_nn}}, $nn=true{{ endif }})\n";
static PUML_REL_TEMPLATE: &str =
    "{source_table_name} {{ if is_zero_one_to_one }}|o--||{{else}}}o--||{{ endif }} {target_table_name}\n";
static PUML_ENUM_TEMPLATE: &str =
    "enum({name}, \"{{ for v in values}}{{if @last}}{v}{{else}}{v}, {{ endif }}{{ endfor }}\")\n";

static MERMAID_TEMPLATE: &str = r#"erDiagram
{{ if direction }}direction {direction}{{ endif }}
{{ for ent in entities}}{ent}{{ endfor }}
{{ for en in enums}}{en}{{ endfor }}
{{ for fk in foreign_keys}}{fk}{{ endfor }}
"#;
static MERMAID_ENTITY_TEMPLATE: &str = "{name} \\{\n{pks}{fks}{others}}\n";
static MERMAID_COLUMN_TEMPLATE: &str = "    {col.datatype} {col.name}{{ if is_pk_or_fk }} {{ endif }}{{ if is_pk }}PK,{{ endif }}{{ if is_fk }}FK{{ endif }}";
static MERMAID_REL_TEMPLATE: &str = "{source_table_name} {{ if is_zero_one_to_one }}|o--||{{else}}}o--||{{ endif }} {target_table_name}: \"\"\n";
static MERMAID_ENUM_TEMPLATE: &str =
    "\"{name} (ENUM)\" \\{\n{{ for v in values}}    {v} _\n{{ endfor }}}";

fn obj(fields: Vec<(&str, Value)>) -> Value {
    let mut m = serde_json::Map::new();
    for (k, v) in fields {
        m.insert(k.to_string(), v);
    }
    Value::Object(m)
}

fn s(v: &str) -> Value {
    Value::String(v.to_string())
}

fn strs(v: &[String]) -> Value {
    Value::Array(v.iter().map(|x| s(x)).collect())
}

fn column(name: &str, num: i16, datatype: &str, constraints: &[ColumnConstraints]) -> TableColumn {
    TableColumn {
        name: name.to_string(),
        col_num: num,
        datatype: datatype.to_string(),
        constraints: ConstraintSet::from_slice(constraints),
    }
}

fn sample_model() -> SqlERData {
    let customers = Table::new(
        "customers".to_string(),
        vec![
            column("customer_id", 1, "integer", &[PrimaryKey, NotNull, Unique]),
            column("customer_name", 2, "character varying", &[]),
        ],
    );
    let orders = Table::new(
        "orders".to_string(),
        vec![
            column("order_description", 2, "character varying", &[]),
            column("customer_id", 3, "integer", &[Fk]),
            column("status", 4, "order status", &[NotNull]),
            column("order_id", 1, "integer", &[PrimaryKey, NotNull, Unique]),
        ],
    );
    let profiles = Table::new(
        "profiles".to_string(),
        vec![
            column("customer_id", 1, "integer", &[PrimaryKey, Fk, NotNull, Unique]),
            column("bio", 2, "text", &[]),
        ],
    );
    let fk1 = ForeignKey::new(&orders, vec![3], &customers, vec![1]);
    let fk2 = ForeignKey::new(&profiles, vec![1], &customers, vec![1]);
    SqlERData {
        tables: vec![customers, orders, profiles],
        foreign_keys: vec![fk1, fk2],
        enums: vec![
            SqlEnum { name: "empty".to_string(), values: vec![] },
            SqlEnum {
                name: "order status".to_string(),
                values: vec!["new".to_string(), "paid".to_string(), "shipped".to_string()],
            },
        ],
        views: vec![],
    }
}

fn options(not_null: bool, draw_enums: bool, draw_legend: bool, inline: bool, direction: Option<Direction>) -> GeneratorConfigOptions {
    GeneratorConfigOptions {
        not_null,
        draw_enums,
        draw_legend,
        inline_puml_lib: inline,
        conceptual_diagram: false,
        direction,
    }
}

fn fk_context(fk: &ForeignKey) -> Value {
    obj(vec![
        ("source_table_name", s(&fk.source_table)),
        ("target_table_name", s(&fk.target_table)),
        ("is_zero_one_to_one", Value::Bool(fk.is_zero_one_to_one)),
    ])
}

fn puml_with_templates(erd: &SqlERData, opts: &GeneratorConfigOptions) -> String {
    let mut tt = TinyTemplate::new();
    tt.add_template("puml", PUML_TEMPLATE).unwrap();
    tt.add_template("column", PUML_COLUMN_TEMPLATE).unwrap();
    tt.add_template("ent", PUML_ENTITY_TEMPLATE).unwrap();
    tt.add_template("rel", PUML_REL_TEMPLATE).unwrap();
    tt.add_template("enum", PUML_ENUM_TEMPLATE).unwrap();
    tt.set_default_formatter(&format_unescaped);
    let mut entities = vec![];
    for t in &erd.tables {
        let render = |keep: &dyn Fn(&TableColumn) -> bool| -> String {
            let mut out = String::new();
            for c in t.columns.iter().filter(|c| keep(c)) {
                let ctx = obj(vec![
                    ("col", obj(vec![("name", s(&c.name)), ("datatype", s(&c.datatype))])),
                    ("is_pk", Value::Bool(c.is_pk())),
                    ("is_fk", Value::Bool(c.is_fk())),
                    ("is_nn", Value::Bool(c.is_nn())),
                ]);
                out += &tt.render("column", &ctx).unwrap();
            }
            out
        };
        let pks = render(&|c| c.is_pk());
        let fks = render(&|c| c.is_fk() && !c.is_pk());
        let nns = render(&|c| c.is_nn() && !c.is_pk() && !c.is_fk());
        let others = render(&|c| !c.is_nn() && !c.is_pk() && !c.is_fk());
        let ctx = obj(vec![
            ("name", s(&t.name)),
            ("pks", s(&pks)),
            ("fks", s(&fks)),
            ("nns", s(&nns)),
            ("others", s(&others)),
        ]);
        entities.push(s(&tt.render("ent", &ctx).unwrap()));
    }
    let fks: Vec<Value> =
        erd.foreign_keys.iter().map(|fk| s(&tt.render("rel", &fk_context(fk)).unwrap())).collect();
    let enums: Vec<Value> = if opts.draw_enums {
        erd.enums
            .iter()
            .map(|e| {
                let ctx = obj(vec![("name", s(&e.name)), ("values", strs(&e.values))]);
                s(&tt.render("enum", &ctx).unwrap())
            })
            .collect()
    } else {
        vec![]
    };
    let legend = if opts.draw_legend { s("add_legend()") } else { Value::Null };
    let lib = if opts.inline_puml_lib { PUML_LIB_INLINE } else { PUML_LIB_INCLUDE };
    let ctx = obj(vec![
        ("puml_lib", s(lib)),
        ("entities", Value::Array(entities)),
        ("foreign_keys", Value::Array(fks)),
        ("enums", Value::Array(enums)),
        ("legend", legend),
    ]);
    tt.render("puml", &ctx).unwrap()
}

fn mermaid_with_templates(erd: &SqlERData, opts: &GeneratorConfigOptions) -> String {
    let mut tt = TinyTemplate::new();
    tt.add_template("mermaid", MERMAID_TEMPLATE).unwrap();
    tt.add_template("column", MERMAID_COLUMN_TEMPLATE).unwrap();
    tt.add_template("ent", MERMAID_ENTITY_TEMPLATE).unwrap();
    tt.add_template("rel", MERMAID_REL_TEMPLATE).unwrap();
    tt.add_template("enum", MERMAID_ENUM_TEMPLATE).unwrap();
    tt.set_default_formatter(&format_unescaped);
    let mut entities = vec![];
    for t in &erd.tables {
        let render = |keep: &dyn Fn(&TableColumn) -> bool| -> String {
            let mut out = String::new();
            for c in t.columns.iter().filter(|c| keep(c)) {
                let ctx = obj(vec![
                    (
                        "col",
                        obj(vec![("name", s(&c.name)), ("datatype", s(&c.datatype.replace(' ', "_")))]),
                    ),
                    ("is_pk", Value::Bool(c.is_pk())),
                    ("is_fk", Value::Bool(c.is_fk())),
                    ("is_pk_or_fk", Value::Bool(c.is_pk() || c.is_fk())),
                ]);
                let mut line: String =
                    tt.render("column", &ctx).unwrap().trim_end_matches([',']).into();
                if opts.not_null && c.is_nn() {
                    line += " \"NN\"";
                }
                out += &line;
                out += "\n";
            }
            out
        };
        let pks = render(&|c| c.is_pk());
        let fks = render(&|c| !c.is_pk() && c.is_fk());
        let others = render(&|c| !c.is_pk() && !c.is_fk());
        let ctx = obj(vec![
            ("name", s(&t.name)),
            ("pks", s(&pks)),
            ("fks", s(&fks)),
            ("others", s(&others)),
        ]);
        entities.push(s(&tt.render("ent", &ctx).unwrap()));
    }
    let fks: Vec<Value> =
        erd.foreign_keys.iter().map(|fk| s(&tt.render("rel", &fk_context(fk)).unwrap())).collect();
    let enums: Vec<Value> = if opts.draw_enums {
        erd.enums
            .iter()
            .map(|e| {
                let ctx = obj(vec![("name", s(&e.name)), ("values", strs(&e.values))]);
                s(&tt.render("enum", &ctx).unwrap())
            })
            .collect()
    } else {
        vec![]
    };
    let direction = match opts.direction {
        None => Value::Null,
        Some(Direction::TB) => s("TB"),
        Some(Direction::BT) => s("BT"),
        Some(Direction::LR) => s("LR"),
        Some(Direction::RL) => s("RL"),
    };
    let ctx = obj(vec![
        ("direction", direction),
        ("entities", Value::Array(entities)),
        ("enums", Value::Array(enums)),
        ("foreign_keys", Value::Array(fks)),
    ]);
    tt.render("mermaid", &ctx).unwrap()
}

fn all_options() -> Vec<GeneratorConfigOptions> {
    let mut v = vec![];
    for bits in 0..16u32 {
        let dir = match bits % 5 {
            0 => None,
            1 => Some(Direction::TB),
            2 => Some(Direction::BT),
            3 => Some(Direction::LR),
            _ => Some(Direction::RL),
        };
        v.push(options(bits & 1 != 0, bits & 2 != 0, bits & 4 != 0, bits & 8 != 0, dir));
    }
    v
}

#[test]
fn plantuml_matches_template_rendering() {
    let erd = sample_model();
    let g = PlantUmlDefaultGenerator::new().unwrap();
    for opts in all_options() {
        assert_eq!(g.generate(&erd, &opts).unwrap(), puml_with_templates(&erd, &opts));
    }
}

#[test]
fn mermaid_matches_template_rendering() {
    let erd = sample_model();
    let g = MermaidGenerator::new().unwrap();
    for opts in all_options() {
        assert_eq!(g.generate(&erd, &opts).unwrap(), mermaid_with_templates(&erd, &opts));
    }
}

#[test]
fn empty_model_renders_skeleton() {
    let erd = SqlERData { tables: vec![], foreign_keys: vec![], enums: vec![], views: vec![] };
    let opts = options(false, true, false, false, None);
    let puml = PlantUmlDefaultGenerator::new().unwrap().generate(&erd, &opts).unwrap();
    assert_eq!(
        puml,
        format!(
            "@startuml\n\nhide circle\nskinparam linetype ortho\n\n{}\n\n\n\n\n@enduml",
            PUML_LIB_INCLUDE
        )
    );
    let mermaid = MermaidGenerator::new().unwrap().generate(&erd, &opts).unwrap();
    assert_eq!(mermaid, "erDiagram\n\n\n\n\n");
    assert_eq!(puml_with_templates(&erd, &opts), puml);
    assert_eq!(mermaid_with_templates(&erd, &opts), mermaid);
}

#[test]
fn plantuml_entity_groups_columns() {
    let erd = sample_model();
    let opts = options(false, false, false, false, None);
    let text = PlantUmlDefaultGenerator::new().unwrap().generate(&erd, &opts).unwrap();
    let expected = "table(orders) {\n  column(order_id, \"integer\", $pk=true, $fk=true, $nn=true)\n  ---\n  column(customer_id, \"integer\")\n  column(status, \"order status\", $nn=true)\n  column(order_description, \"character varying\")\n}\n";
    assert!(text.contains(expected));
    assert!(text.contains("orders }o--|| customers\n\n"));
    assert!(text.contains("profiles |o--|| customers\n\n"));
    assert!(!text.contains("enum("));
    assert!(!text.contains("add_legend()"));
}

#[test]
fn plantuml_enums_legend_and_inline_library() {
    let erd = sample_model();
    let opts = options(false, true, true, true, None);
    let text = PlantUmlDefaultGenerator::new().unwrap().generate(&erd, &opts).unwrap();
    assert!(text.contains("enum(empty, \"\")\n\n"));
    assert!(text.contains("enum(order status, \"new, paid, shipped\")\n\n"));
    assert!(text.ends_with("add_legend()\n@enduml"));
    assert!(text.contains("!function column($name, $type, $pk=false, $fk=false, $nn=false)"));
    assert!(!text.contains("!include"));
}

#[test]
fn mermaid_entity_and_marks() {
    let erd = sample_model();
    let opts = options(true, true, false, false, Some(Direction::LR));
    let text = MermaidGenerator::new().unwrap().generate(&erd, &opts).unwrap();
    assert!(text.starts_with("erDiagram\ndirection LR\n"));
    let expected = "orders {\n    integer order_id PK \"NN\"\n    integer customer_id FK\n    character_varying order_description\n    order_status status \"NN\"\n}\n";
    assert!(text.contains(expected));
    assert!(text.contains("    integer customer_id PK,FK \"NN\"\n"));
    assert!(text.contains("\"order status (ENUM)\" {\n    new _\n    paid _\n    shipped _\n}"));
    assert!(text.contains("orders }o--|| customers: \"\"\n"));
    assert!(text.contains("profiles |o--|| customers: \"\"\n"));
    // The shared model keeps its datatype.
    assert_eq!(erd.tables[1].columns[2].datatype, "order status");
}

#[test]
fn mermaid_without_not_null_marks_or_enums() {
    let erd = sample_model();
    let opts = options(false, false, false, false, None);
    let text = MermaidGenerator::new().unwrap().generate(&erd, &opts).unwrap();
    assert!(text.starts_with("erDiagram\n\ncustomers {\n    integer customer_id PK\n"));
    assert!(!text.contains("NN"));
    assert!(!text.contains("(ENUM)"));
}

#[test]
fn mermaid_trims_trailing_commas() {
    let t = Table::new("t".to_string(), vec![column("odd,,", 1, "int", &[])]);
    let erd = SqlERData { tables: vec![t], foreign_keys: vec![], enums: vec![], views: vec![] };
    let opts = options(false, false, false, false, None);
    let text = MermaidGenerator::new().unwrap().generate(&erd, &opts).unwrap();
    assert!(text.contains("t {\n    int odd\n}\n"));
    assert_eq!(text, mermaid_with_templates(&erd, &opts));
}

#[test]
fn rendering_twice_gives_same_text() {
    let erd = sample_model();
    for kind in [GeneratorType::PlantUML, GeneratorType::Mermaid] {
        let g = get_generator(kind).unwrap();
        for opts in all_options() {
            let first = g.generate(&erd, &opts).unwrap();
            let second = g.generate(&erd, &opts).unwrap();
            assert_eq!(first, second);
        }
    }
}

#[test]
fn generator_selection() {
    let erd = sample_model();
    let opts = options(false, false, false, false, None);
    let p = get_generator(GeneratorType::PlantUML).unwrap().generate(&erd, &opts).unwrap();
    let m = get_generator(GeneratorType::Mermaid).unwrap().generate(&erd, &opts).unwrap();
    assert!(p.starts_with("@startuml"));
    assert!(m.starts_with("erDiagram"));
    assert_eq!(GeneratorType::from_name("plantuml"), Some(GeneratorType::PlantUML));
    assert_eq!(GeneratorType::from_name("mermaid"), Some(GeneratorType::Mermaid));
    assert_eq!(GeneratorType::from_name("Mermaid"), None);
    assert_eq!(GeneratorType::from_name(""), None);
    assert_eq!(GeneratorType::PlantUML.name(), "plantuml");
    assert_eq!(GeneratorType::Mermaid.name(), "mermaid");
}

#[test]
fn direction_names() {
    assert_eq!(Direction::from_name("TB"), Some(Direction::TB));
    assert_eq!(Direction::from_name("BT"), Some(Direction::BT));
    assert_eq!(Direction::from_name("LR"), Some(Direction::LR));
    assert_eq!(Direction::from_name("RL"), Some(Direction::RL));
    assert_eq!(Direction::from_name("tb"), None);
    assert_eq!(Direction::from_name("TBX"), None);
}
