//! The Mermaid `erDiagram` notation: one block per table, optionally one per
//! enumerated type, and one line per foreign key.
use vstd::prelude::*;

use crate::diagram::{append_edge_token, column_group, edge_token, spec_column_group, ColumnGroup};
use crate::sql_entities::{ForeignKey, SqlERData, SqlEnum, Table, TableColumn};
use crate::{Direction, GeneratorConfigOptions, SqlantError, ViewGenerator};

verus! {

/// A datatype as Mermaid accepts it: every space becomes an underscore.
pub open spec fn mermaid_datatype(s: Seq<char>) -> Seq<char>
    decreases s.len(),
{
    if s.len() == 0 {
        Seq::empty()
    } else {
        mermaid_datatype(s.drop_last()).push(
            if s.last() == ' ' {
                '_'
            } else {
                s.last()
            },
        )
    }
}

/// `s` without the commas at its end.
pub open spec fn trim_commas(s: Seq<char>) -> Seq<char>
    decreases s.len(),
{
    if s.len() > 0 && s.last() == ',' {
        trim_commas(s.drop_last())
    } else {
        s
    }
}

/// A column line before the trailing commas are cut: the datatype written as
/// `datatype`, the name, and the key marks `PK,` and `FK`.
pub open spec fn mermaid_column_marks(c: TableColumn, datatype: Seq<char>) -> Seq<char> {
    "    "@ + datatype + " "@ + c.name@ + (if c.spec_is_pk()
        || c.spec_is_fk() {
        " "@
    } else {
        Seq::empty()
    }) + (if c.spec_is_pk() {
        "PK,"@
    } else {
        Seq::empty()
    }) + (if c.spec_is_fk() {
        "FK"@
    } else {
        Seq::empty()
    })
}

/// One column line with the datatype written as `datatype`; `not_null` asks
/// for the NOT NULL mark.
pub open spec fn mermaid_line(c: TableColumn, datatype: Seq<char>, not_null: bool) -> Seq<char> {
    trim_commas(mermaid_column_marks(c, datatype)) + (if not_null && c.spec_is_nn() {
        " \"NN\""@
    } else {
        Seq::empty()
    }) + "\n"@
}

/// The datatype of `c` as written: as given, or with `normalize` in the form
/// that Mermaid accepts.
pub open spec fn written_datatype(c: TableColumn, normalize: bool) -> Seq<char> {
    if normalize {
        mermaid_datatype(c.datatype@)
    } else {
        c.datatype@
    }
}

/// One column line, its datatype written as given.
pub open spec fn mermaid_column(c: TableColumn, not_null: bool) -> Seq<char> {
    mermaid_line(c, c.datatype@, not_null)
}

/// The columns of `cols` in group `g` (Mermaid has no NOT NULL group).
pub open spec fn mermaid_group(
    cols: Seq<TableColumn>,
    g: ColumnGroup,
    not_null: bool,
    normalize: bool,
) -> Seq<char>
    decreases cols.len(),
{
    if cols.len() == 0 {
        Seq::empty()
    } else {
        mermaid_group(cols.drop_last(), g, not_null, normalize) + if spec_column_group(
            cols.last(),
            false,
        ) == g {
            mermaid_line(cols.last(), written_datatype(cols.last(), normalize), not_null)
        } else {
            Seq::empty()
        }
    }
}

pub open spec fn mermaid_entity(t: Table, not_null: bool, normalize: bool) -> Seq<char> {
    t.name@ + " {\n"@ + mermaid_group(t.columns@, ColumnGroup::PrimaryKey, not_null, normalize)
        + mermaid_group(t.columns@, ColumnGroup::ForeignKey, not_null, normalize) + mermaid_group(
        t.columns@,
        ColumnGroup::Other,
        not_null,
        normalize,
    ) + "}\n"@
}

pub open spec fn mermaid_entities(tables: Seq<Table>, not_null: bool, normalize: bool) -> Seq<
    char,
>
    decreases tables.len(),
{
    if tables.len() == 0 {
        Seq::empty()
    } else {
        mermaid_entities(tables.drop_last(), not_null, normalize) + mermaid_entity(
            tables.last(),
            not_null,
            normalize,
        )
    }
}

/// `copy` is `c` with its datatype in the form that Mermaid accepts.
pub open spec fn normalized_column(c: TableColumn, copy: TableColumn) -> bool {
    &&& copy.name == c.name
    &&& copy.col_num == c.col_num
    &&& copy.constraints == c.constraints
    &&& copy.datatype@ == mermaid_datatype(c.datatype@)
}

/// `copy` is `t` with every datatype in the form that Mermaid accepts.
pub open spec fn normalized_table(t: Table, copy: Table) -> bool {
    &&& copy.name == t.name
    &&& copy.columns@.len() == t.columns@.len()
    &&& forall|j: int|
        0 <= j < t.columns@.len() ==> normalized_column(
            #[trigger] t.columns@[j],
            copy.columns@[j],
        )
}

proof fn lemma_normalized_group(
    cols: Seq<TableColumn>,
    copy: Seq<TableColumn>,
    g: ColumnGroup,
    not_null: bool,
)
    requires
        copy.len() == cols.len(),
        forall|j: int| 0 <= j < cols.len() ==> normalized_column(#[trigger] cols[j], copy[j]),
    ensures
        mermaid_group(copy, g, not_null, false) == mermaid_group(cols, g, not_null, true),
    decreases cols.len(),
{
    if cols.len() > 0 {
        let pc = cols.drop_last();
        let pk = copy.drop_last();
        assert forall|j: int| 0 <= j < pc.len() implies normalized_column(
            #[trigger] pc[j],
            pk[j],
        ) by {
            assert(normalized_column(cols[j], copy[j]));
        }
        lemma_normalized_group(pc, pk, g, not_null);
        assert(normalized_column(cols[cols.len() - 1], copy[copy.len() - 1]));
        assert(mermaid_column_marks(copy.last(), copy.last().datatype@) == mermaid_column_marks(
            cols.last(),
            mermaid_datatype(cols.last().datatype@),
        ));
    }
}

proof fn lemma_normalized_entity(t: Table, copy: Table, not_null: bool)
    requires
        normalized_table(t, copy),
    ensures
        mermaid_entity(copy, not_null, false) == mermaid_entity(t, not_null, true),
{
    lemma_normalized_group(t.columns@, copy.columns@, ColumnGroup::PrimaryKey, not_null);
    lemma_normalized_group(t.columns@, copy.columns@, ColumnGroup::ForeignKey, not_null);
    lemma_normalized_group(t.columns@, copy.columns@, ColumnGroup::Other, not_null);
}

pub open spec fn mermaid_labels(values: Seq<String>) -> Seq<char>
    decreases values.len(),
{
    if values.len() == 0 {
        Seq::empty()
    } else {
        mermaid_labels(values.drop_last()) + "    "@ + values.last()@ + " _\n"@
    }
}

/// One enumerated type, one label per line.
pub open spec fn mermaid_enum(e: SqlEnum) -> Seq<char> {
    "\""@ + e.name@ + " (ENUM)\" {\n"@ + mermaid_labels(e.values@) + "}"@
}

pub open spec fn mermaid_enums(enums: Seq<SqlEnum>) -> Seq<char>
    decreases enums.len(),
{
    if enums.len() == 0 {
        Seq::empty()
    } else {
        mermaid_enums(enums.drop_last()) + mermaid_enum(enums.last())
    }
}

/// One relationship line.
pub open spec fn mermaid_fk(fk: ForeignKey) -> Seq<char> {
    fk.source_table@ + " "@ + edge_token(fk.is_zero_one_to_one) + " "@ + fk.target_table@
        + ": \"\"\n"@
}

pub open spec fn mermaid_fks(fks: Seq<ForeignKey>) -> Seq<char>
    decreases fks.len(),
{
    if fks.len() == 0 {
        Seq::empty()
    } else {
        mermaid_fks(fks.drop_last()) + mermaid_fk(fks.last())
    }
}

pub open spec fn direction_name(d: Direction) -> Seq<char> {
    match d {
        Direction::TB => "TB"@,
        Direction::BT => "BT"@,
        Direction::LR => "LR"@,
        Direction::RL => "RL"@,
    }
}

/// The whole Mermaid document for a model and options.
pub open spec fn mermaid_document(erd: SqlERData, opts: GeneratorConfigOptions) -> Seq<char> {
    "erDiagram\n"@ + (match opts.direction {
        Some(d) => "direction "@ + direction_name(d),
        None => Seq::empty(),
    }) + "\n"@ + mermaid_entities(erd.tables@, opts.not_null, true) + "\n"@ + (if opts.draw_enums {
        mermaid_enums(erd.enums@)
    } else {
        Seq::empty()
    }) + "\n"@ + mermaid_fks(erd.foreign_keys@) + "\n"@
}

/// Renders models in the Mermaid notation.
#[derive(Clone, Copy, Debug)]
pub struct MermaidGenerator {}

impl MermaidGenerator {
    pub fn new() -> (r: Result<MermaidGenerator, SqlantError>)
        ensures
            r is Ok,
    {
        Ok(MermaidGenerator {  })
    }

    /// Appends `s` with its spaces replaced by underscores.
    fn append_datatype(out: &mut String, s: &str)
        ensures
            final(out)@ == old(out)@ + mermaid_datatype(s@),
    {
        let ghost start = out@;
        let n = s.unicode_len();
        let mut i: usize = 0;
        assert(s@.take(0) =~= Seq::<char>::empty());
        while i < n
            invariant
                n == s@.len(),
                i <= n,
                out@ == start + mermaid_datatype(s@.take(i as int)),
            decreases n - i,
        {
            proof {
                reveal_strlit("_");
            }
            if s.get_char(i) == ' ' {
                out.append("_");
            } else {
                out.append(s.substring_char(i, i + 1));
            }
            assert(s@.take(i as int + 1).drop_last() =~= s@.take(i as int));
            assert(out@ =~= start + mermaid_datatype(s@.take(i as int + 1)));
            i = i + 1;
        }
        assert(s@.take(n as int) =~= s@);
    }

    /// A private copy of the tables with every datatype in the form that
    /// Mermaid accepts; the shared model is left as it is.
    fn preprocess(tables: &Vec<Table>) -> (r: Vec<Table>)
        ensures
            r@.len() == tables@.len(),
            forall|i: int| 0 <= i < tables@.len() ==> normalized_table(#[trigger] tables@[i], r@[i]),
    {
        let mut r: Vec<Table> = Vec::new();
        let mut i: usize = 0;
        while i < tables.len()
            invariant
                i <= tables@.len(),
                r@.len() == i,
                forall|k: int| 0 <= k < i ==> normalized_table(#[trigger] tables@[k], r@[k]),
            decreases tables@.len() - i,
        {
            let t = &tables[i];
            let mut columns: Vec<TableColumn> = Vec::new();
            let mut j: usize = 0;
            while j < t.columns.len()
                invariant
                    j <= t.columns@.len(),
                    columns@.len() == j,
                    forall|k: int|
                        0 <= k < j ==> normalized_column(#[trigger] t.columns@[k], columns@[k]),
                decreases t.columns@.len() - j,
            {
                let c = &t.columns[j];
                let mut datatype = String::new();
                Self::append_datatype(&mut datatype, c.datatype.as_str());
                columns.push(
                    TableColumn {
                        name: c.name.clone(),
                        col_num: c.col_num,
                        datatype,
                        constraints: c.constraints,
                    },
                );
                j = j + 1;
            }
            r.push(
                Table { name: t.name.clone(), columns, has_composite_pk: t.has_composite_pk },
            );
            i = i + 1;
        }
        r
    }

    fn trim_trailing_commas(s: &str) -> (r: String)
        ensures
            r@ == trim_commas(s@),
    {
        let n = s.unicode_len();
        let mut k: usize = n;
        assert(s@.take(n as int) =~= s@);
        while k > 0 && s.get_char(k - 1) == ','
            invariant
                n == s@.len(),
                k <= n,
                trim_commas(s@) == trim_commas(s@.take(k as int)),
            decreases k,
        {
            assert(s@.take(k as int).drop_last() =~= s@.take(k as int - 1));
            k = k - 1;
        }
        s.substring_char(0, k).to_owned()
    }

    fn column_render(out: &mut String, c: &TableColumn, not_null: bool)
        ensures
            final(out)@ == old(out)@ + mermaid_column(*c, not_null),
    {
        let mut line = String::new();
        line.append("    ");
        line.append(c.datatype.as_str());
        line.append(" ");
        line.append(c.name.as_str());
        if c.is_pk() || c.is_fk() {
            line.append(" ");
        }
        if c.is_pk() {
            line.append("PK,");
        }
        if c.is_fk() {
            line.append("FK");
        }
        assert(line@ =~= mermaid_column_marks(*c, c.datatype@));
        let ghost start = out@;
        let trimmed = Self::trim_trailing_commas(line.as_str());
        out.append(trimmed.as_str());
        if not_null && c.is_nn() {
            out.append(" \"NN\"");
        }
        out.append("\n");
        assert(out@ =~= start + mermaid_column(*c, not_null));
    }

    fn group_render(out: &mut String, cols: &Vec<TableColumn>, g: ColumnGroup, not_null: bool)
        ensures
            final(out)@ == old(out)@ + mermaid_group(cols@, g, not_null, false),
    {
        let ghost start = out@;
        let mut i: usize = 0;
        assert(cols@.take(0) =~= Seq::<TableColumn>::empty());
        while i < cols.len()
            invariant
                i <= cols@.len(),
                out@ == start + mermaid_group(cols@.take(i as int), g, not_null, false),
            decreases cols@.len() - i,
        {
            if column_group(&cols[i], false) == g {
                Self::column_render(out, &cols[i], not_null);
            }
            assert(cols@.take(i as int + 1).drop_last() =~= cols@.take(i as int));
            assert(out@ =~= start + mermaid_group(cols@.take(i as int + 1), g, not_null, false));
            i = i + 1;
        }
        assert(cols@.take(cols@.len() as int) =~= cols@);
    }

    fn entity_render(out: &mut String, tbl: &Table, not_null: bool)
        ensures
            final(out)@ == old(out)@ + mermaid_entity(*tbl, not_null, false),
    {
        let ghost start = out@;
        out.append(tbl.name.as_str());
        out.append(" {\n");
        Self::group_render(out, &tbl.columns, ColumnGroup::PrimaryKey, not_null);
        Self::group_render(out, &tbl.columns, ColumnGroup::ForeignKey, not_null);
        Self::group_render(out, &tbl.columns, ColumnGroup::Other, not_null);
        out.append("}\n");
        assert(out@ =~= start + mermaid_entity(*tbl, not_null, false));
    }

    fn enum_render(out: &mut String, e: &SqlEnum)
        ensures
            final(out)@ == old(out)@ + mermaid_enum(*e),
    {
        let ghost start = out@;
        out.append("\"");
        out.append(e.name.as_str());
        out.append(" (ENUM)\" {\n");
        let ghost head = out@;
        let mut i: usize = 0;
        assert(e.values@.take(0) =~= Seq::<String>::empty());
        while i < e.values.len()
            invariant
                i <= e.values@.len(),
                out@ == head + mermaid_labels(e.values@.take(i as int)),
            decreases e.values@.len() - i,
        {
            out.append("    ");
            out.append(e.values[i].as_str());
            out.append(" _\n");
            assert(e.values@.take(i as int + 1).drop_last() =~= e.values@.take(i as int));
            assert(out@ =~= head + mermaid_labels(e.values@.take(i as int + 1)));
            i = i + 1;
        }
        assert(e.values@.take(e.values@.len() as int) =~= e.values@);
        out.append("}");
        assert(out@ =~= start + mermaid_enum(*e));
    }

    fn fk_render(out: &mut String, fk: &ForeignKey)
        ensures
            final(out)@ == old(out)@ + mermaid_fk(*fk),
    {
        let ghost start = out@;
        out.append(fk.source_table.as_str());
        out.append(" ");
        append_edge_token(out, fk.is_zero_one_to_one);
        out.append(" ");
        out.append(fk.target_table.as_str());
        out.append(": \"\"\n");
        assert(out@ =~= start + mermaid_fk(*fk));
    }

    fn direction_render(out: &mut String, d: Direction)
        ensures
            final(out)@ == old(out)@ + direction_name(d),
    {
        match d {
            Direction::TB => out.append("TB"),
            Direction::BT => out.append("BT"),
            Direction::LR => out.append("LR"),
            Direction::RL => out.append("RL"),
        }
    }
}

impl ViewGenerator for MermaidGenerator {
    open spec fn document(&self, erd: SqlERData, opts: GeneratorConfigOptions) -> Seq<char> {
        mermaid_document(erd, opts)
    }

    /// Renders `sql_erd` as a Mermaid document.
    fn generate(&self, sql_erd: &SqlERData, opts: &GeneratorConfigOptions) -> (r: Result<
        String,
        SqlantError,
    >)
        ensures
            r matches Ok(s) && s@ == self.document(*sql_erd, *opts),
    {
        let mut out = String::new();
        out.append("erDiagram\n");
        let ghost head = out@;
        match opts.direction {
            Some(d) => {
                out.append("direction ");
                Self::direction_render(&mut out, d);
            },
            None => {
                assert(out@ =~= head + Seq::<char>::empty());
            },
        }
        out.append("\n");
        let ghost head = out@;
        let tables = Self::preprocess(&sql_erd.tables);
        let mut i: usize = 0;
        assert(sql_erd.tables@.take(0) =~= Seq::<Table>::empty());
        while i < tables.len()
            invariant
                i <= tables@.len(),
                tables@.len() == sql_erd.tables@.len(),
                forall|k: int|
                    0 <= k < tables@.len() ==> normalized_table(
                        #[trigger] sql_erd.tables@[k],
                        tables@[k],
                    ),
                out@ == head + mermaid_entities(
                    sql_erd.tables@.take(i as int),
                    opts.not_null,
                    true,
                ),
            decreases tables@.len() - i,
        {
            Self::entity_render(&mut out, &tables[i], opts.not_null);
            proof {
                lemma_normalized_entity(sql_erd.tables@[i as int], tables@[i as int], opts.not_null);
            }
            assert(sql_erd.tables@.take(i as int + 1).drop_last() =~= sql_erd.tables@.take(
                i as int,
            ));
            assert(out@ =~= head + mermaid_entities(
                sql_erd.tables@.take(i as int + 1),
                opts.not_null,
                true,
            ));
            i = i + 1;
        }
        assert(sql_erd.tables@.take(sql_erd.tables@.len() as int) =~= sql_erd.tables@);
        out.append("\n");
        let ghost head = out@;
        if opts.draw_enums {
            let mut i: usize = 0;
            assert(sql_erd.enums@.take(0) =~= Seq::<SqlEnum>::empty());
            while i < sql_erd.enums.len()
                invariant
                    i <= sql_erd.enums@.len(),
                    out@ == head + mermaid_enums(sql_erd.enums@.take(i as int)),
                decreases sql_erd.enums@.len() - i,
            {
                Self::enum_render(&mut out, &sql_erd.enums[i]);
                assert(sql_erd.enums@.take(i as int + 1).drop_last() =~= sql_erd.enums@.take(
                    i as int,
                ));
                assert(out@ =~= head + mermaid_enums(sql_erd.enums@.take(i as int + 1)));
                i = i + 1;
            }
            assert(sql_erd.enums@.take(sql_erd.enums@.len() as int) =~= sql_erd.enums@);
        } else {
            assert(out@ =~= head + Seq::<char>::empty());
        }
        out.append("\n");
        let ghost head = out@;
        let mut i: usize = 0;
        assert(sql_erd.foreign_keys@.take(0) =~= Seq::<ForeignKey>::empty());
        while i < sql_erd.foreign_keys.len()
            invariant
                i <= sql_erd.foreign_keys@.len(),
                out@ == head + mermaid_fks(sql_erd.foreign_keys@.take(i as int)),
            decreases sql_erd.foreign_keys@.len() - i,
        {
            Self::fk_render(&mut out, &sql_erd.foreign_keys[i]);
            assert(sql_erd.foreign_keys@.take(i as int + 1).drop_last()
                =~= sql_erd.foreign_keys@.take(i as int));
            assert(out@ =~= head + mermaid_fks(sql_erd.foreign_keys@.take(i as int + 1)));
            i = i + 1;
        }
        assert(sql_erd.foreign_keys@.take(sql_erd.foreign_keys@.len() as int)
            =~= sql_erd.foreign_keys@);
        out.append("\n");
        assert(out@ =~= mermaid_document(*sql_erd, *opts));
        Ok(out)
    }
}

} // verus!
