//! The PlantUML notation: one `table(...)` block per table built from the
//! helper functions of the sqlant PlantUML library, one line per foreign key,
//! and optionally the enumerated types and a legend.
use vstd::prelude::*;

use crate::diagram::{
    append_edge_token, append_joined, column_group, edge_token, joined, spec_column_group,
    ColumnGroup,
};
use crate::sql_entities::{ForeignKey, SqlERData, SqlEnum, Table, TableColumn};
use crate::{GeneratorConfigOptions, SqlantError, ViewGenerator};

verus! {

/// Reference to the helper library, drawn when it is not inlined.
pub const PUML_LIB_INCLUDE: &'static str = "!include https://raw.githubusercontent.com/kurotych/sqlant/b2e5db9ed8659f281208a687a344b34ff38129cd/puml-lib/db_ent.puml";

/// The helper library itself, drawn when it is inlined.
pub const PUML_LIB_INLINE: &'static str = r#"
!function column($name, $type, $pk=false, $fk=false, $nn=false)
  !local $prefix = ""

  !if ($pk == true)
    !$prefix = "<color:#d99d1c><&key></color>"
  !elseif($nn == true)
    !$prefix = "*"
  !endif

  !if ($fk == true)
    !$prefix = $prefix + "<color:#aaaaaa><&key></color>"
  !endif

  !return $prefix + '<b>""' + $name + '""</b>' + ': ' + '//""' + $type + '"" //'
!endfunction

!function table($name)
  !return 'entity "**' + $name + '**"' + " as " + $name
!endfunction

!procedure enum($name, $variants)
  !$list = %splitstr($variants, ",")

  object "**$name** <color:purple>**(E)**</color>" as $name {
    !foreach $item in $list
      $item
    !endfor
  }
!endprocedure

!procedure add_legend()
  legend right
   <#GhostWhite,#GhostWhite>|   |= __Legend__ |
   |<b><color:#b8861b><&key></color></b>| Primary Key |
   |<color:#aaaaaa><&key></color>| Foreign Key |
   | &#8226; | Mandatory field (Not Null) |
   | <color:purple>**(E)**</color> | Enum |
  endlegend
!endprocedure
"#;

/// One column: `  column(name, "type", $pk=true, $fk=true, $nn=true)` with
/// each flag present only when it holds: `$pk` and `$fk` both for a
/// primary-key column, `$nn` for a NOT NULL one.
pub open spec fn puml_column(c: TableColumn) -> Seq<char> {
    "  column("@ + c.name@ + ", \""@ + c.datatype@ + "\""@ + (if c.spec_is_pk() {
        ", $pk=true"@
    } else {
        Seq::empty()
    }) + (if c.spec_is_pk() {
        ", $fk=true"@
    } else {
        Seq::empty()
    }) + (if c.spec_is_nn() {
        ", $nn=true"@
    } else {
        Seq::empty()
    }) + ")\n"@
}

/// The columns of `cols` that fall in group `g`, in their order.
pub open spec fn puml_group(cols: Seq<TableColumn>, g: ColumnGroup) -> Seq<char>
    decreases cols.len(),
{
    if cols.len() == 0 {
        Seq::empty()
    } else {
        puml_group(cols.drop_last(), g) + if spec_column_group(cols.last(), true) == g {
            puml_column(cols.last())
        } else {
            Seq::empty()
        }
    }
}

/// One table block; the key columns stand above the separator.
pub open spec fn puml_entity(t: Table) -> Seq<char> {
    "table("@ + t.name@ + ") {\n"@ + puml_group(t.columns@, ColumnGroup::PrimaryKey) + "  ---\n"@
        + puml_group(t.columns@, ColumnGroup::ForeignKey) + puml_group(
        t.columns@,
        ColumnGroup::NotNull,
    ) + puml_group(t.columns@, ColumnGroup::Other) + "}\n"@
}

pub open spec fn puml_entities(tables: Seq<Table>) -> Seq<char>
    decreases tables.len(),
{
    if tables.len() == 0 {
        Seq::empty()
    } else {
        puml_entities(tables.drop_last()) + puml_entity(tables.last()) + "\n"@
    }
}

/// One relationship line.
pub open spec fn puml_fk(fk: ForeignKey) -> Seq<char> {
    fk.source_table@ + " "@ + edge_token(fk.is_zero_one_to_one) + " "@ + fk.target_table@ + "\n"@
}

pub open spec fn puml_fks(fks: Seq<ForeignKey>) -> Seq<char>
    decreases fks.len(),
{
    if fks.len() == 0 {
        Seq::empty()
    } else {
        puml_fks(fks.drop_last()) + puml_fk(fks.last()) + "\n"@
    }
}

/// One enumerated type with its labels separated by commas.
pub open spec fn puml_enum(e: SqlEnum) -> Seq<char> {
    "enum("@ + e.name@ + ", \""@ + joined(e.values@, ", "@) + "\")\n"@
}

pub open spec fn puml_enums(enums: Seq<SqlEnum>) -> Seq<char>
    decreases enums.len(),
{
    if enums.len() == 0 {
        Seq::empty()
    } else {
        puml_enums(enums.drop_last()) + puml_enum(enums.last()) + "\n"@
    }
}

/// The whole PlantUML document for a model and options.
pub open spec fn puml_document(erd: SqlERData, opts: GeneratorConfigOptions) -> Seq<char> {
    "@startuml\n\nhide circle\nskinparam linetype ortho\n\n"@ + (if opts.inline_puml_lib {
        PUML_LIB_INLINE@
    } else {
        PUML_LIB_INCLUDE@
    }) + "\n\n"@ + puml_entities(erd.tables@) + "\n"@ + puml_fks(erd.foreign_keys@) + "\n"@ + (
    if opts.draw_enums {
        puml_enums(erd.enums@)
    } else {
        Seq::empty()
    }) + (if opts.draw_legend {
        "add_legend()"@
    } else {
        Seq::empty()
    }) + "\n@enduml"@
}

/// Renders models in the PlantUML notation.
#[derive(Clone, Copy, Debug)]
pub struct PlantUmlDefaultGenerator {}

impl PlantUmlDefaultGenerator {
    pub fn new() -> (r: Result<PlantUmlDefaultGenerator, SqlantError>)
        ensures
            r is Ok,
    {
        Ok(PlantUmlDefaultGenerator {  })
    }

    fn column_render(out: &mut String, c: &TableColumn)
        ensures
            final(out)@ == old(out)@ + puml_column(*c),
    {
        let ghost start = out@;
        out.append("  column(");
        out.append(c.name.as_str());
        out.append(", \"");
        out.append(c.datatype.as_str());
        out.append("\"");
        if c.is_pk() {
            out.append(", $pk=true");
        }
        if c.is_pk() {
            out.append(", $fk=true");
        }
        if c.is_nn() {
            out.append(", $nn=true");
        }
        out.append(")\n");
        assert(out@ =~= start + puml_column(*c));
    }

    fn group_render(out: &mut String, cols: &Vec<TableColumn>, g: ColumnGroup)
        ensures
            final(out)@ == old(out)@ + puml_group(cols@, g),
    {
        let ghost start = out@;
        let mut i: usize = 0;
        assert(cols@.take(0) =~= Seq::<TableColumn>::empty());
        while i < cols.len()
            invariant
                i <= cols@.len(),
                out@ == start + puml_group(cols@.take(i as int), g),
            decreases cols@.len() - i,
        {
            if column_group(&cols[i], true) == g {
                Self::column_render(out, &cols[i]);
            }
            assert(cols@.take(i as int + 1).drop_last() =~= cols@.take(i as int));
            assert(out@ =~= start + puml_group(cols@.take(i as int + 1), g));
            i = i + 1;
        }
        assert(cols@.take(cols@.len() as int) =~= cols@);
    }

    fn entity_render(out: &mut String, tbl: &Table)
        ensures
            final(out)@ == old(out)@ + puml_entity(*tbl),
    {
        let ghost start = out@;
        out.append("table(");
        out.append(tbl.name.as_str());
        out.append(") {\n");
        Self::group_render(out, &tbl.columns, ColumnGroup::PrimaryKey);
        out.append("  ---\n");
        Self::group_render(out, &tbl.columns, ColumnGroup::ForeignKey);
        Self::group_render(out, &tbl.columns, ColumnGroup::NotNull);
        Self::group_render(out, &tbl.columns, ColumnGroup::Other);
        out.append("}\n");
        assert(out@ =~= start + puml_entity(*tbl));
    }

    fn fk_render(out: &mut String, fk: &ForeignKey)
        ensures
            final(out)@ == old(out)@ + puml_fk(*fk),
    {
        let ghost start = out@;
        out.append(fk.source_table.as_str());
        out.append(" ");
        append_edge_token(out, fk.is_zero_one_to_one);
        out.append(" ");
        out.append(fk.target_table.as_str());
        out.append("\n");
        assert(out@ =~= start + puml_fk(*fk));
    }

    fn enum_render(out: &mut String, e: &SqlEnum)
        ensures
            final(out)@ == old(out)@ + puml_enum(*e),
    {
        let ghost start = out@;
        out.append("enum(");
        out.append(e.name.as_str());
        out.append(", \"");
        append_joined(out, &e.values, ", ");
        out.append("\")\n");
        assert(out@ =~= start + puml_enum(*e));
    }
}

impl ViewGenerator for PlantUmlDefaultGenerator {
    open spec fn document(&self, erd: SqlERData, opts: GeneratorConfigOptions) -> Seq<char> {
        puml_document(erd, opts)
    }

    /// Renders `sql_erd` as a PlantUML document.
    fn generate(&self, sql_erd: &SqlERData, opts: &GeneratorConfigOptions) -> (r: Result<
        String,
        SqlantError,
    >)
        ensures
            r matches Ok(s) && s@ == self.document(*sql_erd, *opts),
    {
        let mut out = String::new();
        out.append("@startuml\n\nhide circle\nskinparam linetype ortho\n\n");
        if opts.inline_puml_lib {
            out.append(PUML_LIB_INLINE);
        } else {
            out.append(PUML_LIB_INCLUDE);
        }
        out.append("\n\n");
        let ghost head = out@;
        let mut i: usize = 0;
        assert(sql_erd.tables@.take(0) =~= Seq::<Table>::empty());
        while i < sql_erd.tables.len()
            invariant
                i <= sql_erd.tables@.len(),
                out@ == head + puml_entities(sql_erd.tables@.take(i as int)),
            decreases sql_erd.tables@.len() - i,
        {
            Self::entity_render(&mut out, &sql_erd.tables[i]);
            out.append("\n");
            assert(sql_erd.tables@.take(i as int + 1).drop_last() =~= sql_erd.tables@.take(
                i as int,
            ));
            assert(out@ =~= head + puml_entities(sql_erd.tables@.take(i as int + 1)));
            i = i + 1;
        }
        assert(sql_erd.tables@.take(sql_erd.tables@.len() as int) =~= sql_erd.tables@);
        out.append("\n");
        let ghost head = out@;
        let mut i: usize = 0;
        assert(sql_erd.foreign_keys@.take(0) =~= Seq::<ForeignKey>::empty());
        while i < sql_erd.foreign_keys.len()
            invariant
                i <= sql_erd.foreign_keys@.len(),
                out@ == head + puml_fks(sql_erd.foreign_keys@.take(i as int)),
            decreases sql_erd.foreign_keys@.len() - i,
        {
            Self::fk_render(&mut out, &sql_erd.foreign_keys[i]);
            out.append("\n");
            assert(sql_erd.foreign_keys@.take(i as int + 1).drop_last()
                =~= sql_erd.foreign_keys@.take(i as int));
            assert(out@ =~= head + puml_fks(sql_erd.foreign_keys@.take(i as int + 1)));
            i = i + 1;
        }
        assert(sql_erd.foreign_keys@.take(sql_erd.foreign_keys@.len() as int)
            =~= sql_erd.foreign_keys@);
        out.append("\n");
        let ghost head = out@;
        if opts.draw_enums {
            let mut i: usize = 0;
            assert(sql_erd.enums@.take(0) =~= Seq::<SqlEnum>::empty());
            while i < sql_erd.enums.len()
                invariant
                    i <= sql_erd.enums@.len(),
                    out@ == head + puml_enums(sql_erd.enums@.take(i as int)),
                decreases sql_erd.enums@.len() - i,
            {
                Self::enum_render(&mut out, &sql_erd.enums[i]);
                out.append("\n");
                assert(sql_erd.enums@.take(i as int + 1).drop_last() =~= sql_erd.enums@.take(
                    i as int,
                ));
                assert(out@ =~= head + puml_enums(sql_erd.enums@.take(i as int + 1)));
                i = i + 1;
            }
            assert(sql_erd.enums@.take(sql_erd.enums@.len() as int) =~= sql_erd.enums@);
        } else {
            assert(out@ =~= head + Seq::<char>::empty());
        }
        let ghost head = out@;
        if opts.draw_legend {
            out.append("add_legend()");
        } else {
            assert(out@ =~= head + Seq::<char>::empty());
        }
        out.append("\n@enduml");
        assert(out@ =~= puml_document(*sql_erd, *opts));
        Ok(out)
    }
}

} // verus!
