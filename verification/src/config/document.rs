//! The configuration document as `toml_edit` keeps it: parsed once, read for
//! the shape of its tables, and edited in place without losing its
//! formatting.

use vstd::prelude::*;
use crate::config::addition::{Edit, Form, InsertionTarget, TableKind};
use crate::error::AppError;

verus! {

/// `toml_edit`'s editable document.
#[verifier::external_type_specification]
#[verifier::external_body]
pub struct ExDocumentMut(toml_edit::DocumentMut);

/// What an item of a `toml_edit` document holds, formatting aside.
pub enum DocItem {
    /// An empty slot (`Item::None`).
    Nothing,
    /// A string value.
    Text(Seq<char>),
    /// A standard table, with its entries in order.
    Table(Seq<(Seq<char>, DocItem)>),
    /// An inline table, with its entries in order.
    Inline(Seq<(Seq<char>, DocItem)>),
    /// Any other value, or an array of tables.
    Other,
}

/// The entries of a `toml_edit` document's root table, in order.
pub uninterp spec fn document_items(document: toml_edit::DocumentMut) -> Seq<(Seq<char>, DocItem)>;

/// The first position of `key` among the entries.
pub open spec fn doc_index(entries: Seq<(Seq<char>, DocItem)>, key: Seq<char>) -> Option<int>
    decreases entries.len(),
{
    if entries.len() == 0 {
        None
    } else {
        match doc_index(entries.drop_last(), key) {
            Some(i) => Some(i),
            None => if entries.last().0 == key {
                Some(entries.len() - 1)
            } else {
                None
            },
        }
    }
}

/// The item under `key`, empty slots left out (`Table::get`).
pub open spec fn doc_get(entries: Seq<(Seq<char>, DocItem)>, key: Seq<char>) -> Option<DocItem> {
    match doc_index(entries, key) {
        Some(i) => if entries[i].1 is Nothing {
            None
        } else {
            Some(entries[i].1)
        },
        None => None,
    }
}

/// The entries with `key` set to `item`: in place when the key is there,
/// appended otherwise (`Table::insert`, `InlineTable::insert`).
pub open spec fn doc_set(entries: Seq<(Seq<char>, DocItem)>, key: Seq<char>, item: DocItem) -> Seq<
    (Seq<char>, DocItem),
> {
    match doc_index(entries, key) {
        Some(i) => entries.update(i, (key, item)),
        None => entries.push((key, item)),
    }
}

/// The item under `key` of the table or inline table `outer` (`Item::get`).
pub open spec fn child_get(entries: Seq<(Seq<char>, DocItem)>, outer: Seq<char>, key: Seq<char>) -> Option<
    DocItem,
> {
    match doc_get(entries, outer) {
        Some(DocItem::Table(t)) => doc_get(t, key),
        Some(DocItem::Inline(t)) => doc_get(t, key),
        _ => None,
    }
}

/// For each item of a standard table that is not an empty slot, in order,
/// whether it is a standard table.
pub open spec fn table_flags(entries: Seq<(Seq<char>, DocItem)>) -> Seq<bool>
    decreases entries.len(),
{
    if entries.len() == 0 {
        Seq::empty()
    } else {
        let prev = table_flags(entries.drop_last());
        match entries.last().1 {
            DocItem::Nothing => prev,
            DocItem::Table(_) => prev.push(true),
            _ => prev.push(false),
        }
    }
}

/// What an item of the document is, as the edit decisions read it: for a
/// standard table, whether each of its items is itself a table.
pub enum ItemShape {
    Absent,
    Table { items_are_tables: Vec<bool> },
    Inline,
    Other,
}

/// The shape of an item found (or not) in the document.
pub open spec fn shape_is(shape: ItemShape, item: Option<DocItem>) -> bool {
    match item {
        None => shape is Absent,
        Some(DocItem::Table(t)) => shape matches ItemShape::Table { items_are_tables } && items_are_tables@
            == table_flags(t),
        Some(DocItem::Inline(_)) => shape is Inline,
        Some(_) => shape is Other,
    }
}

/// What `toml_edit` makes of a text: the entries of the document it parses,
/// or nothing when the text is not TOML.
pub uninterp spec fn toml_edit_items(contents: Seq<char>) -> Option<Seq<(Seq<char>, DocItem)>>;

/// The text a `toml_edit` document renders.
pub uninterp spec fn document_text(document: toml_edit::DocumentMut) -> Seq<char>;

/// `str::parse::<toml_edit::DocumentMut>`: the document, whose entries are
/// what `toml_edit` makes of the text, or the parser's message when it makes
/// nothing of it. Nothing is claimed of the message.
#[verifier::external_body]
fn parse_document(contents: &str) -> (res: Result<toml_edit::DocumentMut, String>)
    ensures
        match res {
            Ok(document) => toml_edit_items(contents@) == Some(document_items(document)),
            Err(_) => toml_edit_items(contents@) is None,
        },
{
    contents.parse::<toml_edit::DocumentMut>().map_err(|error| error.to_string())
}

/// The `Display` text of a `toml_edit::DocumentMut`: the text the document
/// renders.
#[verifier::external_body]
fn render_document(document: &toml_edit::DocumentMut) -> (text: String)
    ensures
        text@ == document_text(*document),
{
    document.to_string()
}

/// `Clone` of a `toml_edit::DocumentMut`: a copy holding the same entries
/// and rendering the same text.
#[verifier::external_body]
fn copy_document(document: &toml_edit::DocumentMut) -> (copy: toml_edit::DocumentMut)
    ensures
        document_items(copy) == document_items(*document),
        document_text(copy) == document_text(*document),
{
    document.clone()
}

/// `Table::get` of `key` on the document's root table, and the variant of the
/// item found; for a standard table, `Item::is_table` of each item its `iter`
/// yields (empty slots are skipped), in order.
#[verifier::external_body]
fn top_shape(document: &toml_edit::DocumentMut, key: &str) -> (shape: ItemShape)
    ensures
        shape_is(shape, doc_get(document_items(*document), key@)),
{
    match document.as_table().get(key) {
        None => ItemShape::Absent,
        Some(toml_edit::Item::Table(table)) => ItemShape::Table {
            items_are_tables: table.iter().map(|(_, item)| item.is_table()).collect(),
        },
        Some(toml_edit::Item::Value(toml_edit::Value::InlineTable(_))) => ItemShape::Inline,
        Some(_) => ItemShape::Other,
    }
}

/// `Table::get` of `outer` on the document's root table, then `Item::get` of
/// `key` in it (a standard or inline table; nothing in any other item), and
/// the variant of the item found, as `top_shape` gives it.
#[verifier::external_body]
fn child_shape(document: &toml_edit::DocumentMut, outer: &str, key: &str) -> (shape: ItemShape)
    ensures
        shape_is(shape, child_get(document_items(*document), outer@, key@)),
{
    match document.as_table().get(outer).and_then(|item| item.get(key)) {
        None => ItemShape::Absent,
        Some(toml_edit::Item::Table(table)) => ItemShape::Table {
            items_are_tables: table.iter().map(|(_, item)| item.is_table()).collect(),
        },
        Some(toml_edit::Item::Value(toml_edit::Value::InlineTable(_))) => ItemShape::Inline,
        Some(_) => ItemShape::Other,
    }
}

/// An empty standard table.
pub open spec fn empty_table() -> DocItem {
    DocItem::Table(Seq::empty())
}

/// An empty inline table.
pub open spec fn empty_inline() -> DocItem {
    DocItem::Inline(Seq::empty())
}

/// `Table::insert` of an empty implicit table under `key` of the root table
/// of a `toml_edit::DocumentMut`: the key is set to an empty table.
#[verifier::external_body]
fn insert_implicit_table(document: &mut toml_edit::DocumentMut, key: &str)
    ensures
        document_items(*final(document)) == doc_set(document_items(*old(document)), key@, empty_table()),
{
    let mut table = toml_edit::Table::new();
    table.set_implicit(true);
    document.as_table_mut().insert(key, toml_edit::Item::Table(table));
}

/// `Table::get_mut` of `outer` on the root table and, when it is a standard
/// table, `Table::insert` of an empty table under `key` in it; false, with
/// the document untouched, when `outer` is not a standard table.
#[verifier::external_body]
fn insert_empty_table(document: &mut toml_edit::DocumentMut, outer: &str, key: &str) -> (done: bool)
    ensures
        match doc_get(document_items(*old(document)), outer@) {
            Some(DocItem::Table(t)) => done && document_items(*final(document)) == doc_set(
                document_items(*old(document)),
                outer@,
                DocItem::Table(doc_set(t, key@, empty_table())),
            ),
            _ => !done && document_items(*final(document)) == document_items(*old(document)),
        },
{
    document.as_table_mut().get_mut(outer).and_then(toml_edit::Item::as_table_mut).map(|table| {
        table.insert(key, toml_edit::Item::Table(toml_edit::Table::new()));
    }).is_some()
}

/// `Table::get_mut` of `outer` on the root table and, when it is an inline
/// table, `InlineTable::insert` of an empty inline table under `key` in it;
/// false, with the document untouched, when `outer` is not an inline table.
#[verifier::external_body]
fn insert_empty_inline_table(document: &mut toml_edit::DocumentMut, outer: &str, key: &str) -> (done: bool)
    ensures
        match doc_get(document_items(*old(document)), outer@) {
            Some(DocItem::Inline(t)) => done && document_items(*final(document)) == doc_set(
                document_items(*old(document)),
                outer@,
                DocItem::Inline(doc_set(t, key@, empty_inline())),
            ),
            _ => !done && document_items(*final(document)) == document_items(*old(document)),
        },
{
    document.as_table_mut().get_mut(outer).and_then(toml_edit::Item::as_inline_table_mut).map(|table| {
        table.insert(key, toml_edit::Value::InlineTable(toml_edit::InlineTable::new()));
    }).is_some()
}

/// The item at `outer`, or at `outer.group`.
pub open spec fn doc_target(entries: Seq<(Seq<char>, DocItem)>, outer: Seq<char>, group: Option<Seq<char>>) -> Option<
    DocItem,
> {
    match group {
        None => doc_get(entries, outer),
        Some(g) => child_get(entries, outer, g),
    }
}

/// The entries with the item at `outer` (or at `outer.group`) replaced.
pub open spec fn doc_put(
    entries: Seq<(Seq<char>, DocItem)>,
    outer: Seq<char>,
    group: Option<Seq<char>>,
    item: DocItem,
) -> Seq<(Seq<char>, DocItem)> {
    match group {
        None => doc_set(entries, outer, item),
        Some(g) => match doc_get(entries, outer) {
            Some(DocItem::Table(t)) => doc_set(entries, outer, DocItem::Table(doc_set(t, g, item))),
            Some(DocItem::Inline(t)) => doc_set(entries, outer, DocItem::Inline(doc_set(t, g, item))),
            _ => entries,
        },
    }
}

/// A table of string fields built in order, a later field replacing an
/// earlier one with the same key (`FromIterator` for `Table` and `InlineTable`).
pub open spec fn fields_items(fields: Seq<(Seq<char>, Seq<char>)>) -> Seq<(Seq<char>, DocItem)>
    decreases fields.len(),
{
    if fields.len() == 0 {
        Seq::empty()
    } else {
        doc_set(fields_items(fields.drop_last()), fields.last().0, DocItem::Text(fields.last().1))
    }
}

/// How a repository is written into its table: as its URL, or as a table of
/// fields.
pub enum EntryValue {
    Url(String),
    Fields(Vec<(String, String)>),
}

pub open spec fn fields_view(fields: Seq<(String, String)>) -> Seq<(Seq<char>, Seq<char>)> {
    fields.map_values(|f: (String, String)| (f.0@, f.1@))
}

/// The item an entry becomes in a standard (or, with `inline`, an inline) table.
pub open spec fn entry_item(entry: EntryValue, inline: bool) -> DocItem {
    match entry {
        EntryValue::Url(url) => DocItem::Text(url@),
        EntryValue::Fields(fields) => if inline {
            DocItem::Inline(fields_items(fields_view(fields@)))
        } else {
            DocItem::Table(fields_items(fields_view(fields@)))
        },
    }
}

/// Navigation from the root table by `Table::get_mut` (and `TableLike::get_mut`
/// for the group) to a standard table, then `Table::insert` of `name` in it:
/// a string, or a table of string fields in the given order. False, with the
/// document untouched, when there is no such table.
#[verifier::external_body]
fn insert_into_table(document: &mut toml_edit::DocumentMut, outer: &str, group: Option<&str>, name: &str, entry: EntryValue) -> (done: bool)
    ensures
        match doc_target(document_items(*old(document)), outer@, opt_text(group)) {
            Some(DocItem::Table(t)) => done && document_items(*final(document)) == doc_put(
                document_items(*old(document)),
                outer@,
                opt_text(group),
                DocItem::Table(doc_set(t, name@, entry_item(entry, false))),
            ),
            _ => !done && document_items(*final(document)) == document_items(*old(document)),
        },
{
    let target = std::iter::once(outer).chain(group).try_fold(document.as_item_mut(), |item, key| item.as_table_like_mut()?.get_mut(key));
    let item = match entry {
        EntryValue::Url(url) => toml_edit::value(url),
        EntryValue::Fields(fields) => toml_edit::Item::Table(fields.into_iter().map(|(key, text)| (key, toml_edit::value(text))).collect()),
    };
    target.and_then(toml_edit::Item::as_table_mut).map(|table| table.insert(name, item)).is_some()
}

/// As `insert_into_table`, into an inline table with `InlineTable::insert`:
/// a string, or an inline table of string fields in the given order.
#[verifier::external_body]
fn insert_into_inline(document: &mut toml_edit::DocumentMut, outer: &str, group: Option<&str>, name: &str, entry: EntryValue) -> (done: bool)
    ensures
        match doc_target(document_items(*old(document)), outer@, opt_text(group)) {
            Some(DocItem::Inline(t)) => done && document_items(*final(document)) == doc_put(
                document_items(*old(document)),
                outer@,
                opt_text(group),
                DocItem::Inline(doc_set(t, name@, entry_item(entry, true))),
            ),
            _ => !done && document_items(*final(document)) == document_items(*old(document)),
        },
{
    let target = std::iter::once(outer).chain(group).try_fold(document.as_item_mut(), |item, key| item.as_table_like_mut()?.get_mut(key));
    let value = match entry {
        EntryValue::Url(url) => toml_edit::Value::from(url),
        EntryValue::Fields(fields) => toml_edit::Value::InlineTable(fields.into_iter().map(|(key, text)| (key, toml_edit::Value::from(text))).collect()),
    };
    target.and_then(toml_edit::Item::as_inline_table_mut).map(|table| table.insert(name, value)).is_some()
}

/// Whether any item is a table.
pub open spec fn any_table(items: Seq<bool>) -> bool {
    exists|i: int| 0 <= i < items.len() && items[i]
}

/// The kind of table an item is.
pub open spec fn kind_of(shape: ItemShape) -> TableKind {
    match shape {
        ItemShape::Absent => TableKind::Absent,
        ItemShape::Table { items_are_tables } => TableKind::Table {
            holds_tables: any_table(items_are_tables@),
        },
        ItemShape::Inline => TableKind::Inline,
        ItemShape::Other => TableKind::Other,
    }
}

/// The kind of table an item of the document is: a standard table holds
/// tables when any of its items is one.
pub open spec fn kind_of_item(item: Option<DocItem>) -> TableKind {
    match item {
        None => TableKind::Absent,
        Some(DocItem::Table(t)) => TableKind::Table { holds_tables: any_table(table_flags(t)) },
        Some(DocItem::Inline(_)) => TableKind::Inline,
        Some(_) => TableKind::Other,
    }
}

/// Whether any item is a table.
fn holds_tables(items_are_tables: &Vec<bool>) -> (res: bool)
    ensures
        res == any_table(items_are_tables@),
{
    let mut i: usize = 0;
    while i < items_are_tables.len()
        invariant
            i <= items_are_tables@.len(),
            forall|j: int| 0 <= j < i ==> !items_are_tables@[j],
        decreases items_are_tables@.len() - i,
    {
        if items_are_tables[i] {
            assert(items_are_tables@[i as int]);
            return true;
        }
        i = i + 1;
    }
    false
}

/// The kind of table an item is: a standard table holds tables when any of
/// its items is one.
pub fn table_kind(shape: &ItemShape) -> (kind: TableKind)
    ensures
        kind == kind_of(*shape),
{
    match shape {
        ItemShape::Absent => TableKind::Absent,
        ItemShape::Table { items_are_tables } => TableKind::Table {
            holds_tables: holds_tables(items_are_tables),
        },
        ItemShape::Inline => TableKind::Inline,
        ItemShape::Other => TableKind::Other,
    }
}

/// The fields of a repository written as a table: `path` only when one is
/// given, then `url`.
pub open spec fn entry_fields(path: Option<Seq<char>>, url: Seq<char>) -> Seq<(Seq<char>, Seq<char>)> {
    match path {
        Some(p) => seq![("path"@, p), ("url"@, url)],
        None => seq![("url"@, url)],
    }
}

/// Whether a form writes the URL alone.
pub open spec fn writes_url(form: Form) -> bool {
    form is Value || form is InlineValue
}

/// Whether a form writes into an inline table.
pub open spec fn inline_form(form: Form) -> bool {
    form is InlineValue || form is InlineTable
}

pub open spec fn opt_text(o: Option<&str>) -> Option<Seq<char>> {
    match o {
        Some(s) => Some(s@),
        None => None,
    }
}

/// What is written for a repository in the given form.
pub fn entry_value(form: Form, path: Option<&str>, url: &str) -> (entry: EntryValue)
    ensures
        writes_url(form) ==> (entry matches EntryValue::Url(u) && u@ == url@),
        !writes_url(form) ==> (entry matches EntryValue::Fields(f) && fields_view(f@) == entry_fields(
            opt_text(path),
            url@,
        )),
{
    match form {
        Form::Value | Form::InlineValue => EntryValue::Url(String::from_str(url)),
        Form::Table | Form::InlineTable => {
            let mut fields: Vec<(String, String)> = Vec::new();
            match path {
                Some(p) => fields.push((String::from_str("path"), String::from_str(p))),
                None => {},
            }
            fields.push((String::from_str("url"), String::from_str(url)));
            assert(fields_view(fields@) =~= entry_fields(opt_text(path), url@));
            EntryValue::Fields(fields)
        },
    }
}

/// The item a repository becomes in the given form.
pub open spec fn written_item(form: Form, path: Option<Seq<char>>, url: Seq<char>) -> DocItem {
    match form {
        Form::Value | Form::InlineValue => DocItem::Text(url),
        Form::Table => DocItem::Table(fields_items(entry_fields(path, url))),
        Form::InlineTable => DocItem::Inline(fields_items(entry_fields(path, url))),
    }
}

/// Where a repository goes: under `repos`, with the path it names when it
/// is not its name, or under `groups.<group>`.
pub enum Place {
    Root(Option<Seq<char>>),
    Group(Seq<char>),
}

pub open spec fn place_of(target: InsertionTarget) -> Place {
    match target {
        InsertionTarget::Root { path } => Place::Root(
            match path {
                Some(p) => Some(p@),
                None => None,
            },
        ),
        InsertionTarget::Group { group } => Place::Group(group@),
    }
}

/// Whether the item is the kind of table a form writes into.
pub open spec fn table_for(form: Form, item: Option<DocItem>) -> Option<Seq<(Seq<char>, DocItem)>> {
    match item {
        Some(DocItem::Table(t)) => if inline_form(form) {
            None
        } else {
            Some(t)
        },
        Some(DocItem::Inline(t)) => if inline_form(form) {
            Some(t)
        } else {
            None
        },
        _ => None,
    }
}

/// The entries with the group created when the edit asks for it, of the
/// kind of table the entry will be written into; `None` when `groups` is not
/// a table of that kind.
pub open spec fn with_group(entries: Seq<(Seq<char>, DocItem)>, group: Seq<char>, edit: Edit) -> Option<
    Seq<(Seq<char>, DocItem)>,
> {
    if !edit.create_group {
        Some(entries)
    } else {
        match table_for(edit.form, doc_get(entries, "groups"@)) {
            Some(t) => Some(
                doc_set(
                    entries,
                    "groups"@,
                    if inline_form(edit.form) {
                        DocItem::Inline(doc_set(t, group, empty_inline()))
                    } else {
                        DocItem::Table(doc_set(t, group, empty_table()))
                    },
                ),
            ),
            None => None,
        }
    }
}

/// The document's entries once the repository is written at `place` in the
/// form `edit` says: the enclosing table and the group created first where
/// the edit asks for them; `None` when the table to write into is missing.
pub open spec fn edited_items(
    entries: Seq<(Seq<char>, DocItem)>,
    place: Place,
    edit: Edit,
    name: Seq<char>,
    url: Seq<char>,
) -> Option<Seq<(Seq<char>, DocItem)>> {
    match place {
        Place::Root(path) => {
            let first = if edit.create_outer {
                doc_set(entries, "repos"@, empty_table())
            } else {
                entries
            };
            match table_for(edit.form, doc_get(first, "repos"@)) {
                Some(t) => Some(
                    doc_put(
                        first,
                        "repos"@,
                        None,
                        if inline_form(edit.form) {
                            DocItem::Inline(doc_set(t, name, written_item(edit.form, path, url)))
                        } else {
                            DocItem::Table(doc_set(t, name, written_item(edit.form, path, url)))
                        },
                    ),
                ),
                None => None,
            }
        },
        Place::Group(group) => {
            let first = if edit.create_outer {
                doc_set(entries, "groups"@, empty_table())
            } else {
                entries
            };
            match with_group(first, group, edit) {
                Some(second) => match table_for(edit.form, child_get(second, "groups"@, group)) {
                    Some(t) => Some(
                        doc_put(
                            second,
                            "groups"@,
                            Some(group),
                            if inline_form(edit.form) {
                                DocItem::Inline(doc_set(t, name, written_item(edit.form, None, url)))
                            } else {
                                DocItem::Table(doc_set(t, name, written_item(edit.form, None, url)))
                            },
                        ),
                    ),
                    None => None,
                },
                None => None,
            }
        },
    }
}

/// The configuration document of an `add` session, with the text it renders.
pub struct ConfigDocument {
    pub document: toml_edit::DocumentMut,
    pub text: String,
}

impl ConfigDocument {
    /// The document's entries.
    pub open spec fn items(&self) -> Seq<(Seq<char>, DocItem)> {
        document_items(self.document)
    }

    /// The text kept is the text the document renders.
    pub open spec fn renders(&self) -> bool {
        self.text@ == document_text(self.document)
    }

    /// Reads a document; the parser's message when it is not TOML.
    pub fn parse(contents: &str) -> (res: Result<ConfigDocument, String>)
        ensures
            res is Ok <==> toml_edit_items(contents@) is Some,
            res matches Ok(d) ==> Some(d.items()) == toml_edit_items(contents@) && d.renders(),
    {
        match parse_document(contents) {
            Ok(document) => {
                let text = render_document(&document);
                Ok(ConfigDocument { document, text })
            },
            Err(message) => Err(message),
        }
    }

    /// The document's text.
    pub fn render(&self) -> (text: String)
        ensures
            text@ == self.text@,
    {
        self.text.clone()
    }

    /// The shape of the top-level item `key`.
    pub fn top_shape(&self, key: &str) -> (shape: ItemShape)
        ensures
            shape_is(shape, doc_get(self.items(), key@)),
    {
        top_shape(&self.document, key)
    }

    /// The shape of the item `group` of the top-level table `groups`.
    pub fn group_shape(&self, group: &str) -> (shape: ItemShape)
        ensures
            shape_is(shape, child_get(self.items(), "groups"@, group@)),
    {
        child_shape(&self.document, "groups", group)
    }

    /// A copy with the repository written at `target` in the form `edit`
    /// says: the enclosing table and the group created first where the edit
    /// asks for them, a group of the same kind as the entry it will hold.
    /// When the table to write into cannot be found, the validated
    /// configuration has lost it: an internal error.
    pub fn with_repository(&self, target: &InsertionTarget, edit: Edit, name: &str, url: &str) -> (res:
        Result<ConfigDocument, AppError>)
        ensures
            match edited_items(self.items(), place_of(*target), edit, name@, url@) {
                Some(items) => res matches Ok(d) && d.items() == items && d.renders(),
                None => res matches Err(e) && e is Internal,
            },
    {
        let mut document = copy_document(&self.document);
        let inline = match edit.form {
            Form::Value | Form::Table => false,
            Form::InlineValue | Form::InlineTable => true,
        };
        match target {
            InsertionTarget::Root { path } => {
                if edit.create_outer {
                    insert_implicit_table(&mut document, "repos");
                }
                let path_text = match path {
                    Some(p) => Some(p.as_str()),
                    None => None,
                };
                let entry = entry_value(edit.form, path_text, url);
                assert(entry_item(entry, inline) == written_item(edit.form, opt_text(path_text), url@));
                let written = if inline {
                    insert_into_inline(&mut document, "repos", None, name, entry)
                } else {
                    insert_into_table(&mut document, "repos", None, name, entry)
                };
                if !written {
                    return Err(AppError::Internal(String::from_str("validated configuration lost its repos table")));
                }
            },
            InsertionTarget::Group { group } => {
                if edit.create_outer {
                    insert_implicit_table(&mut document, "groups");
                }
                if edit.create_group {
                    let created = if inline {
                        insert_empty_inline_table(&mut document, "groups", group.as_str())
                    } else {
                        insert_empty_table(&mut document, "groups", group.as_str())
                    };
                    if !created {
                        return Err(AppError::Internal(String::from_str("validated configuration lost its groups table")));
                    }
                }
                let entry = entry_value(edit.form, None, url);
                assert(entry_item(entry, inline) == written_item(edit.form, None, url@));
                let written = if inline {
                    insert_into_inline(&mut document, "groups", Some(group.as_str()), name, entry)
                } else {
                    insert_into_table(&mut document, "groups", Some(group.as_str()), name, entry)
                };
                if !written {
                    return Err(AppError::Internal(String::from_str("validated configuration lost its group")));
                }
            },
        }
        let text = render_document(&document);
        Ok(ConfigDocument { document, text })
    }
}

} // verus!
