//! Configuration documents: what they hold, and the edits that are made to them.
use toml_edit::{DocumentMut, Item, Table};
use vstd::prelude::*;

use crate::text::joined;

verus! {

/// What an item of a document is.
pub enum TomlView {
    /// A place that holds nothing.
    Nothing,
    /// A table and its items.
    Section(Map<Seq<char>, TomlView>),
    /// A truth value.
    Flag(bool),
    /// Anything else.
    Other(Item),
}

/// An editable document.
#[verifier::external_type_specification]
#[verifier::external_body]
pub struct ExDocumentMut(toml_edit::DocumentMut);

/// An item of a document.
#[verifier::external_type_specification]
#[verifier::external_body]
pub struct ExItem(toml_edit::Item);

/// A table of a document.
#[verifier::external_type_specification]
#[verifier::external_body]
pub struct ExTable(toml_edit::Table);

/// What an item is.
pub uninterp spec fn item_view(item: Item) -> TomlView;

/// The items of a table.
pub uninterp spec fn table_view(table: Table) -> Map<Seq<char>, TomlView>;

/// The root item of a document.
pub uninterp spec fn document_view(document: DocumentMut) -> TomlView;

/// The text of a document, with its comments and layout.
pub uninterp spec fn document_text(document: DocumentMut) -> Seq<char>;

/// What a text holds as a document: the items of its root table, or what is said of the error.
pub uninterp spec fn parsed_toml(text: Seq<char>) -> Result<Map<Seq<char>, TomlView>, Seq<char>>;

/// The item of a table under a key, if the table holds anything there.
pub open spec fn entry(table: Map<Seq<char>, TomlView>, key: Seq<char>) -> Option<TomlView> {
    if table.contains_key(key) && !(table[key] is Nothing) {
        Some(table[key])
    } else {
        None
    }
}

/// `Table::get` finds the item under a key, unless the place holds nothing.
pub assume_specification<'a>[ toml_edit::Table::get ](table: &'a toml_edit::Table, key: &str) -> (item:
    Option<&'a toml_edit::Item>)
    ensures
        match item {
            Some(item) => entry(table_view(*table), key@) == Some(item_view(*item)),
            None => entry(table_view(*table), key@) is None,
        },
;

/// `Table::get_mut` finds the item under a key for a change; the other items stay.
pub assume_specification<'a>[ toml_edit::Table::get_mut ](
    table: &'a mut toml_edit::Table,
    key: &str,
) -> (item: Option<&'a mut toml_edit::Item>)
    ensures
        match item {
            Some(item) => entry(table_view(*old(table)), key@) == Some(item_view(*item))
                && table_view(*final(table)) == table_view(*old(table)).insert(
                key@,
                item_view(*final(item)),
            ),
            None => entry(table_view(*old(table)), key@) is None && *final(table) == *old(table),
        },
;

/// `Table::insert` puts an item under a key, in place of what was there.
pub assume_specification[ toml_edit::Table::insert ](
    table: &mut toml_edit::Table,
    key: &str,
    item: toml_edit::Item,
) -> (previous: Option<toml_edit::Item>)
    ensures
        table_view(*final(table)) == table_view(*old(table)).insert(key@, item_view(item)),
        match previous {
            Some(before) => table_view(*old(table)).contains_key(key@) && item_view(before)
                == table_view(*old(table))[key@],
            None => !table_view(*old(table)).contains_key(key@),
        },
;

/// `Table::remove` takes away what stands under a key.
pub assume_specification[ toml_edit::Table::remove ](table: &mut toml_edit::Table, key: &str) -> (removed:
    Option<toml_edit::Item>)
    ensures
        table_view(*final(table)) == table_view(*old(table)).remove(key@),
        match removed {
            Some(before) => table_view(*old(table)).contains_key(key@) && item_view(before)
                == table_view(*old(table))[key@],
            None => !table_view(*old(table)).contains_key(key@),
        },
;

/// `Item::as_table` gives the table that an item is.
pub assume_specification[ toml_edit::Item::as_table ](item: &toml_edit::Item) -> (table: Option<
    &toml_edit::Table,
>)
    ensures
        match table {
            Some(table) => item_view(*item) == TomlView::Section(table_view(*table)),
            None => !(item_view(*item) is Section),
        },
;

/// `Item::as_table_mut` gives the table that an item is, for a change.
pub assume_specification[ toml_edit::Item::as_table_mut ](item: &mut toml_edit::Item) -> (table:
    Option<&mut toml_edit::Table>)
    ensures
        match table {
            Some(table) => item_view(*old(item)) == TomlView::Section(table_view(*table))
                && item_view(*final(item)) == TomlView::Section(table_view(*final(table))),
            None => !(item_view(*old(item)) is Section) && *final(item) == *old(item),
        },
;

/// `Item::as_bool` gives the truth value that an item is.
pub assume_specification[ toml_edit::Item::as_bool ](item: &toml_edit::Item) -> (flag: Option<bool>)
    ensures
        match flag {
            Some(flag) => item_view(*item) == TomlView::Flag(flag),
            None => !(item_view(*item) is Flag),
        },
;

/// `DocumentMut::new` makes a document with an empty root table.
pub assume_specification[ toml_edit::DocumentMut::new ]() -> (document: toml_edit::DocumentMut)
    ensures
        document_view(document) == TomlView::Section(Map::empty()),
;

/// `DocumentMut::as_table` gives the root table. It panics where the root is no table.
pub assume_specification[ toml_edit::DocumentMut::as_table ](document: &toml_edit::DocumentMut) -> (table:
    &toml_edit::Table)
    requires
        document_view(*document) is Section,
    ensures
        document_view(*document) == TomlView::Section(table_view(*table)),
;

/// `DocumentMut::as_table_mut` gives the root table for a change. It panics where the root is no
/// table.
pub assume_specification[ toml_edit::DocumentMut::as_table_mut ](
    document: &mut toml_edit::DocumentMut,
) -> (table: &mut toml_edit::Table)
    requires
        document_view(*old(document)) is Section,
    ensures
        document_view(*old(document)) == TomlView::Section(table_view(*table)),
        document_view(*final(document)) == TomlView::Section(table_view(*final(table))),
;

/// `toml_edit::table` makes an empty table.
pub assume_specification[ toml_edit::table ]() -> (item: toml_edit::Item)
    ensures
        item_view(item) == TomlView::Section(Map::empty()),
;

/// `toml_edit::value` makes an item of a truth value.
#[verifier::external_body]
pub(crate) fn flag_item(flag: bool) -> (item: Item)
    ensures
        item_view(item) == TomlView::Flag(flag),
{
    toml_edit::value(flag)
}

/// `Table::index_mut` gives the place under a key, which is made where there is none, and the
/// assignment puts an item there.
#[verifier::external_body]
pub(crate) fn assign(table: &mut Table, key: &str, item: Item)
    ensures
        table_view(*final(table)) == table_view(*old(table)).insert(key@, item_view(item)),
{
    table[key] = item;
}

/// `DocumentMut::from_str` reads a document. What it accepts and what it says of an error is not
/// stated; a document that was read has a root table.
#[verifier::external_body]
pub(crate) fn parse_document(text: &str) -> (result: Result<DocumentMut, String>)
    ensures
        match result {
            Ok(document) => parsed_toml(text@) matches Ok(table) && document_view(document)
                == TomlView::Section(table),
            Err(error) => parsed_toml(text@) == Err::<Map<Seq<char>, TomlView>, Seq<char>>(error@),
        },
{
    text.parse::<DocumentMut>().map_err(|error| error.to_string())
}

/// `DocumentMut::to_string` writes a document, whose root must be a table. Its layout is not stated,
/// nor that reading it gives the same items: a table that is left without items may not be written
/// at all. Neither is it stated that a text which was read is written back as it was: keys with dots
/// may be put together.
#[verifier::external_body]
pub(crate) fn write_document(document: &DocumentMut) -> (text: String)
    requires
        document_view(*document) is Section,
    ensures
        text@ == document_text(*document),
{
    document.to_string()
}

/// The table under a key, where it is one or nothing is there.
pub open spec fn section(table: Map<Seq<char>, TomlView>, key: Seq<char>) -> Option<
    Map<Seq<char>, TomlView>,
> {
    match entry(table, key) {
        Some(TomlView::Section(inner)) => Some(inner),
        Some(_) => None,
        None => Some(Map::empty()),
    }
}

/// What is said where something else stands in place of a table.
pub open spec fn not_a_table(path: Seq<char>, key: Seq<char>) -> Seq<char> {
    "Codex config "@ + path + " expects `"@ + key + "` to be a table"@
}

/// The table under a key, made where nothing is there.
pub(crate) fn ensure_table<'a>(parent: &'a mut Table, key: &str, path: &str) -> (result: Result<
    &'a mut Table,
    String,
>)
    ensures
        match result {
            Ok(table) => section(table_view(*old(parent)), key@) == Some(table_view(*table))
                && table_view(*final(parent)) == table_view(*old(parent)).insert(
                key@,
                TomlView::Section(table_view(*final(table))),
            ),
            Err(error) => section(table_view(*old(parent)), key@) is None && error@ == not_a_table(
                path@,
                key@,
            ),
        },
{
    if parent.get(key).is_none() {
        parent.insert(key, toml_edit::table());
    }
    let found = match parent.get_mut(key) {
        Some(item) => item.as_table_mut(),
        None => None,
    };
    match found {
        Some(table) => Ok(table),
        None => {
            let mut error = joined("Codex config ", path);
            error.append(" expects `");
            error.append(key);
            error.append("` to be a table");
            Err(error)
        },
    }
}

} // verus!
