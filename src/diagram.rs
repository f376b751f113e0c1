//! What the two diagram notations share: the grouping of a table's columns,
//! the relationship edge tokens and list joining.
use vstd::prelude::*;

use crate::sql_entities::TableColumn;

verus! {

/// The group a column is drawn in. Groups are drawn in this order, so that
/// key and relationship columns come first whatever the catalog order was.
#[derive(Clone, Copy, Debug, PartialEq, Eq, Structural)]
pub enum ColumnGroup {
    /// Primary-key columns.
    PrimaryKey,
    /// Foreign-key columns that are not primary-key columns.
    ForeignKey,
    /// NOT NULL columns that are neither; only where the notation has this group.
    NotNull,
    /// Everything else.
    Other,
}

pub open spec fn spec_column_group(c: TableColumn, not_null_group: bool) -> ColumnGroup {
    if c.spec_is_pk() {
        ColumnGroup::PrimaryKey
    } else if c.spec_is_fk() {
        ColumnGroup::ForeignKey
    } else if not_null_group && c.spec_is_nn() {
        ColumnGroup::NotNull
    } else {
        ColumnGroup::Other
    }
}

/// The group of `c`; `not_null_group` says whether the notation sets NOT NULL
/// columns apart.
pub fn column_group(c: &TableColumn, not_null_group: bool) -> (r: ColumnGroup)
    ensures
        r == spec_column_group(*c, not_null_group),
{
    if c.is_pk() {
        ColumnGroup::PrimaryKey
    } else if c.is_fk() {
        ColumnGroup::ForeignKey
    } else if not_null_group && c.is_nn() {
        ColumnGroup::NotNull
    } else {
        ColumnGroup::Other
    }
}

/// The edge token of a relationship: zero-or-one to exactly one, or many to
/// exactly one.
pub open spec fn edge_token(zero_one_to_one: bool) -> Seq<char> {
    if zero_one_to_one {
        "|o--||"@
    } else {
        "}o--||"@
    }
}

pub fn append_edge_token(out: &mut String, zero_one_to_one: bool)
    ensures
        final(out)@ == old(out)@ + edge_token(zero_one_to_one),
{
    if zero_one_to_one {
        out.append("|o--||");
    } else {
        out.append("}o--||");
    }
}

/// The strings of `items` separated by `sep`.
pub open spec fn joined(items: Seq<String>, sep: Seq<char>) -> Seq<char>
    decreases items.len(),
{
    if items.len() == 0 {
        Seq::empty()
    } else if items.len() == 1 {
        items[0]@
    } else {
        joined(items.drop_last(), sep) + sep + items.last()@
    }
}

pub fn append_joined(out: &mut String, items: &Vec<String>, sep: &str)
    ensures
        final(out)@ == old(out)@ + joined(items@, sep@),
{
    let ghost start = out@;
    let mut i: usize = 0;
    assert(items@.take(0) =~= Seq::<String>::empty());
    while i < items.len()
        invariant
            i <= items@.len(),
            out@ == start + joined(items@.take(i as int), sep@),
        decreases items@.len() - i,
    {
        if i > 0 {
            out.append(sep);
        }
        out.append(items[i].as_str());
        assert(items@.take(i as int + 1).drop_last() =~= items@.take(i as int));
        if i == 0 {
            assert(items@.take(1) =~= seq![items@[0]]);
        }
        assert(out@ =~= start + joined(items@.take(i as int + 1), sep@));
        i = i + 1;
    }
    assert(items@.take(items@.len() as int) =~= items@);
}

} // verus!
