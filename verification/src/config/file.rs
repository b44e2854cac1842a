//! The raw configuration document: what one grove.toml file declares before
//! validation, and its decoding from the TOML value model.

use vstd::prelude::*;
use crate::config::validation::blank;
use crate::config::value::{key_index, lookup, ConfigValue, table_view, unique_keys, value_view, ValueView, lemma_table_view};
use crate::error::AppError;
use crate::paths::{components, is_absolute, join_parts, is_parent_reference, path_components, path_is_absolute, join_with_slash, is_dot_dot};
use crate::text::{push_char, push_str, chars_of};

verus! {

/// `toml`'s value type, carried only through the conversion below.
#[verifier::external_type_specification]
#[verifier::external_body]
pub struct ExTomlValue(toml::Value);

/// What the `toml` crate makes of a document: its top-level table in the
/// library's model, or the parser's message.
pub uninterp spec fn toml_document(contents: Seq<char>) -> Result<Seq<(Seq<char>, ValueView)>, Seq<char>>;

/// A `toml` value in the library's model, variant for variant; floats and
/// dates keep their TOML text.
#[verifier::external_body]
fn from_toml(value: toml::Value) -> ConfigValue {
    match value {
        toml::Value::String(text) => ConfigValue::Text(text),
        toml::Value::Integer(number) => ConfigValue::Integer(number),
        toml::Value::Boolean(flag) => ConfigValue::Boolean(flag),
        toml::Value::Array(items) => ConfigValue::Array(items.into_iter().map(from_toml).collect()),
        toml::Value::Table(table) => ConfigValue::Table(
            table.into_iter().map(|(key, item)| (key, from_toml(item))).collect(),
        ),
        other => ConfigValue::Other(other.to_string()),
    }
}

/// `str::parse::<toml::Table>` of the `toml` crate. Claimed: the result is
/// the named reading of the text, and a table it returns has each key once
/// (the crate's table is a map).
#[verifier::external_body]
fn parse_toml(contents: &str) -> (res: Result<Vec<(String, ConfigValue)>, String>)
    ensures
        match res {
            Ok(table) => toml_document(contents@) == Ok::<Seq<(Seq<char>, ValueView)>, Seq<char>>(
                table_view(table@),
            ) && unique_keys(table_view(table@)),
            Err(message) => toml_document(contents@) == Err::<Seq<(Seq<char>, ValueView)>, Seq<char>>(
                message@,
            ),
        },
{
    match contents.parse::<toml::Table>() {
        Ok(table) => Ok(table.into_iter().map(|(key, item)| (key, from_toml(item))).collect()),
        Err(error) => Err(error.to_string()),
    }
}

pub open spec fn invalid_toml_text(label: Seq<char>, message: Seq<char>) -> Seq<char> {
    label + ": invalid TOML: "@ + message
}

/// Parses TOML text into a table without decoding it, so that an override
/// can be merged in before the schema sees the combined document.
pub fn parse_table(contents: &str, label: &str) -> (res: Result<Vec<(String, ConfigValue)>, AppError>)
    ensures
        match toml_document(contents@) {
            Ok(table) => res matches Ok(t) && table_view(t@) == table && unique_keys(table),
            Err(message) => res matches Err(AppError::ConfigError(m)) && m@ == invalid_toml_text(
                label@,
                message,
            ),
        },
{
    match parse_toml(contents) {
        Ok(table) => Ok(table),
        Err(message) => {
            let mut m = String::from_str(label);
            push_str(&mut m, ": invalid TOML: ");
            push_str(&mut m, message.as_str());
            Err(AppError::ConfigError(m))
        },
    }
}

/// The fields a repository table may carry.
#[derive(Debug, Clone)]
pub struct RawRepository {
    pub path: Option<String>,
    pub url: Option<String>,
    pub default_branch: Option<String>,
}

/// One repository declaration, under `[repos]` or under a group.
#[derive(Debug, Clone)]
pub struct RawRepositoryEntry {
    pub name: String,
    pub group: Option<String>,
    /// The path used when the entry names none: the name, or `group/name`.
    pub default_path: String,
    /// The dotted key of the entry, used in messages (`repos.x`, `groups.g.x`).
    pub field: String,
    pub repository: RawRepository,
}

/// What one configuration file declares.
#[derive(Debug, Clone)]
pub struct RawConfigFile {
    pub version: Option<u32>,
    pub included: Vec<String>,
    pub repositories: Vec<RawRepositoryEntry>,
}


/// The characters of the key that lists further configuration files.
pub open spec fn inclusion_key() -> Seq<char> {
    seq!['i', 'n', 'c', 'l', 'u', 'd', 'e']
}

/// Whether a key names the list of further configuration files.
pub fn is_inclusion_key(key: &str) -> (res: bool)
    ensures
        res == (key@ == inclusion_key()),
{
    let c = chars_of(key);
    if c.len() != 7 {
        return false;
    }
    let res = c[0] == 'i' && c[1] == 'n' && c[2] == 'c' && c[3] == 'l' && c[4] == 'u' && c[5]
        == 'd' && c[6] == 'e';
    if res {
        assert(c@ =~= inclusion_key());
    }
    res
}

/// A group directory must be a normalized relative path: not absolute, not
/// blank, with no `..`, and written exactly as its components joined by `/`.
pub open spec fn valid_group_directory(d: Seq<char>) -> bool {
    &&& !is_absolute(d)
    &&& !blank(d)
    &&& forall|i: int| 0 <= i < components(d).len() ==> !is_parent_reference(#[trigger] components(d)[i])
    &&& join_parts(components(d)) == d
}

pub open spec fn msg_group_directory(label: Seq<char>, d: Seq<char>) -> Seq<char> {
    label + ": group directory '"@ + d + "' must be a normalized relative path"@
}

/// Checks that a group key is a normalized relative directory.
pub fn validate_group_directory(directory: &str, label: &str) -> (res: Result<(), AppError>)
    ensures
        res is Ok <==> valid_group_directory(directory@),
        res matches Err(e) ==> (e matches AppError::ConfigError(m) && m@ == msg_group_directory(
            label@,
            directory@,
        )),
{
    let parts = path_components(directory);
    let mut ok = !path_is_absolute(directory) && !crate::config::validation::is_blank(directory);
    let mut i: usize = 0;
    while i < parts.len()
        invariant
            parts.deep_view() == components(directory@),
            i <= parts.len(),
            ok ==> forall|j: int| 0 <= j < i ==> !is_parent_reference(#[trigger] components(directory@)[j]),
            ok ==> !is_absolute(directory@) && !blank(directory@),
            !ok ==> !valid_group_directory(directory@),
        decreases parts.len() - i,
    {
        if is_dot_dot(parts[i].as_str()) {
            assert(components(directory@)[i as int] == parts[i as int]@);
            ok = false;
        }
        i = i + 1;
    }
    if ok {
        let joined = join_with_slash(&parts);
        if joined == String::from_str(directory) {
            return Ok(());
        }
    }
    let mut m = String::from_str(label);
    push_str(&mut m, ": group directory '");
    push_str(&mut m, directory);
    push_str(&mut m, "' must be a normalized relative path");
    Err(AppError::ConfigError(m))
}

pub open spec fn msg_version_not_integer(label: Seq<char>) -> Seq<char> {
    label + ": field 'version' must be an integer"@
}

pub open spec fn msg_version_range(label: Seq<char>) -> Seq<char> {
    label + ": field 'version' must be a supported integer"@
}

/// Reads the `version` field: an integer that fits in `u32`.
pub fn parse_version(value: Option<ConfigValue>, label: &str) -> (res: Result<Option<u32>, AppError>)
    ensures
        value is None ==> res == Ok::<Option<u32>, AppError>(None),
        value matches Some(ConfigValue::Integer(i)) ==> (0 <= i <= u32::MAX ==> res
            == Ok::<Option<u32>, AppError>(Some(i as u32))),
        value matches Some(ConfigValue::Integer(i)) ==> (!(0 <= i <= u32::MAX) ==> (res matches Err(
            AppError::ConfigError(m),
        ) && m@ == msg_version_range(label@))),
        value matches Some(v) ==> (!(v is Integer) ==> (res matches Err(AppError::ConfigError(m))
            && m@ == msg_version_not_integer(label@))),
{
    match value {
        None => Ok(None),
        Some(ConfigValue::Integer(i)) => {
            if 0 <= i && i <= 4294967295i64 {
                Ok(Some(i as u32))
            } else {
                let mut m = String::from_str(label);
                push_str(&mut m, ": field 'version' must be a supported integer");
                Err(AppError::ConfigError(m))
            }
        },
        Some(_) => {
            let mut m = String::from_str(label);
            push_str(&mut m, ": field 'version' must be an integer");
            Err(AppError::ConfigError(m))
        },
    }
}


/// The fields a repository table may name.
pub open spec fn repository_field(k: Seq<char>) -> bool {
    k == "path"@ || k == "url"@ || k == "default_branch"@
}

/// A repository value is a URL string, or a table of known text fields.
pub open spec fn repository_value_ok(v: ValueView) -> bool {
    match v {
        ValueView::Text(_) => true,
        ValueView::Table(entries) => forall|i: int|
            0 <= i < entries.len() ==> repository_field((#[trigger] entries[i]).0)
                && entries[i].1 is Text,
        _ => false,
    }
}

/// The text of the last field named `key` in a repository table.
pub open spec fn field_text(entries: Seq<(Seq<char>, ValueView)>, key: Seq<char>) -> Option<Seq<char>>
    decreases entries.len(),
{
    if entries.len() == 0 {
        None
    } else if entries.last().0 == key {
        match entries.last().1 {
            ValueView::Text(t) => Some(t),
            _ => None,
        }
    } else {
        field_text(entries.drop_last(), key)
    }
}

pub open spec fn opt_view(o: Option<String>) -> Option<Seq<char>> {
    match o {
        Some(s) => Some(s@),
        None => None,
    }
}

/// The raw repository a valid value describes.
pub open spec fn describes(r: RawRepository, v: ValueView) -> bool {
    match v {
        ValueView::Text(url) => r.path is None && opt_view(r.url) == Some(url)
            && r.default_branch is None,
        ValueView::Table(entries) => opt_view(r.path) == field_text(entries, "path"@) && opt_view(
            r.url,
        ) == field_text(entries, "url"@) && opt_view(r.default_branch) == field_text(
            entries,
            "default_branch"@,
        ),
        _ => false,
    }
}

fn text_is(s: &String, literal: &str) -> (res: bool)
    ensures
        res == (s@ == literal@),
{
    *s == String::from_str(literal)
}

/// Reads one repository value: a URL string or a table of fields.
pub fn parse_raw_repository(value: ConfigValue, name: &str, label: &str) -> (res: Result<
    RawRepository,
    AppError,
>)
    ensures
        res is Ok <==> repository_value_ok(value_view(value)),
        res matches Ok(r) ==> describes(r, value_view(value)),
        res matches Err(e) ==> e is ConfigError,
{
    proof {
        reveal_strlit("path");
        reveal_strlit("url");
        reveal_strlit("default_branch");
    }
    let ghost original = value_view(value);
    match value {
        ConfigValue::Text(url) => Ok(RawRepository { path: None, url: Some(url), default_branch: None }),
        ConfigValue::Table(fields) => {
            proof {
                lemma_table_view(fields@);
            }
            let ghost view = table_view(fields@);
            let mut path: Option<String> = None;
            let mut url: Option<String> = None;
            let mut default_branch: Option<String> = None;
            let mut rest = fields;
            let mut i: usize = 0;
            let ghost all = rest@;
            assert(all.skip(0) =~= all);
            assert(all.len() == rest.len());
            assert(original == ValueView::Table(view));
            while rest.len() > 0
                invariant
                    all.len() <= usize::MAX,
                    view == table_view(all),
                    view.len() == all.len(),
                    forall|j: int| 0 <= j < all.len() ==> #[trigger] view[j] == (all[j].0@, value_view(all[j].1)),
                    i <= all.len(),
                    rest@ == all.skip(i as int),
                    rest@.len() == all.len() - i,
                    original == ValueView::Table(view),
                    original == value_view(value),
                    forall|j: int| 0 <= j < i ==> repository_field((#[trigger] view[j]).0) && view[j].1 is Text,
                    opt_view(path) == field_text(view.take(i as int), "path"@),
                    opt_view(url) == field_text(view.take(i as int), "url"@),
                    opt_view(default_branch) == field_text(view.take(i as int), "default_branch"@),
                decreases rest@.len(),
            {
                let (key, item) = rest.remove(0);
                assert((key, item) == all[i as int]);
                assert(rest@ =~= all.skip(i + 1));
                let ghost taken = view.take(i + 1);
                assert(taken.drop_last() =~= view.take(i as int));
                assert(taken.last() == view[i as int]);
                let ghost item_view = value_view(item);
                assert(view[i as int] == (key@, item_view));
                let text = match item {
                    ConfigValue::Text(t) => t,
                    _ => {
                        assert(!(view[i as int].1 is Text));
                        assert(!repository_value_ok(original));
                        let mut m = String::from_str(label);
                        push_str(&mut m, ": repository '");
                        push_str(&mut m, name);
                        push_str(&mut m, "': field `");
                        push_str(&mut m, key.as_str());
                        push_str(&mut m, "` must be a string");
                        return Err(AppError::ConfigError(m));
                    },
                };
                if text_is(&key, "path") {
                    path = Some(text);
                } else if text_is(&key, "url") {
                    url = Some(text);
                } else if text_is(&key, "default_branch") {
                    default_branch = Some(text);
                } else {
                    let mut m = String::from_str(label);
                    push_str(&mut m, ": repository '");
                    push_str(&mut m, name);
                    push_str(&mut m, "': unknown field `");
                    push_str(&mut m, key.as_str());
                    push_str(&mut m, "`, expected one of `path`, `url`, `default_branch`");
                    assert(!repository_field(view[i as int].0));
                    assert(!repository_value_ok(original));
                    return Err(AppError::ConfigError(m));
                }
                assert(item_view == ValueView::Text(text@));
                proof {
                    reveal_strlit("path");
                    reveal_strlit("url");
                    reveal_strlit("default_branch");
                    assert("path"@.len() == 4);
                    assert("url"@.len() == 3);
                    assert("path"@ != "url"@);
                    assert("path"@ != "default_branch"@);
                    assert("url"@ != "default_branch"@);
                }
                assert(field_text(taken, "url"@) == if key@ == "url"@ { Some(text@) } else { field_text(view.take(i as int), "url"@) });
                i = i + 1;
            }
            assert(view.take(i as int) =~= view);
            Ok(RawRepository { path, url, default_branch })
        },
        _ => {
            let mut m = String::from_str(label);
            push_str(&mut m, ": repository '");
            push_str(&mut m, name);
            push_str(&mut m, "' must be a URL string or table");
            Err(AppError::ConfigError(m))
        },
    }
}


/// The dotted key of an entry, used in messages.
pub open spec fn entry_field(group: Option<Seq<char>>, name: Seq<char>) -> Seq<char> {
    match group {
        Some(g) => "groups."@ + g + "."@ + name,
        None => "repos."@ + name,
    }
}

/// The path an entry uses when it names none.
pub open spec fn entry_default_path(group: Option<Seq<char>>, name: Seq<char>) -> Seq<char> {
    match group {
        Some(g) => g + "/"@ + name,
        None => name,
    }
}

pub open spec fn opt_str_view(o: Option<&str>) -> Option<Seq<char>> {
    match o {
        Some(s) => Some(s@),
        None => None,
    }
}

/// Reads the repositories of one table, in table order.
pub fn parse_repository_table(table: Vec<(String, ConfigValue)>, group: Option<&str>, label: &str) -> (res:
    Result<Vec<RawRepositoryEntry>, AppError>)
    ensures
        res is Ok <==> forall|i: int|
            0 <= i < table@.len() ==> repository_value_ok(#[trigger] table_view(table@)[i].1),
        res matches Ok(entries) ==> {
            &&& entries@.len() == table@.len()
            &&& forall|i: int|
                0 <= i < entries@.len() ==> {
                    let e = #[trigger] entries@[i];
                    &&& e.name@ == table_view(table@)[i].0
                    &&& opt_view(e.group) == opt_str_view(group)
                    &&& e.default_path@ == entry_default_path(opt_str_view(group), e.name@)
                    &&& e.field@ == entry_field(opt_str_view(group), e.name@)
                    &&& describes(e.repository, table_view(table@)[i].1)
                }
        },
        res matches Err(e) ==> e is ConfigError,
{
    proof {
        lemma_table_view(table@);
    }
    let ghost all = table@;
    let ghost view = table_view(all);
    assert(all.skip(0) =~= all);
    assert(all.len() == table.len());
    let mut rest = table;
    let mut out: Vec<RawRepositoryEntry> = Vec::new();
    let mut i: usize = 0;
    while rest.len() > 0
        invariant
            all.len() <= usize::MAX,
            all == table@,
            view == table_view(all),
            view.len() == all.len(),
            forall|j: int| 0 <= j < all.len() ==> #[trigger] view[j] == (all[j].0@, value_view(all[j].1)),
            i <= all.len(),
            rest@ == all.skip(i as int),
            rest@.len() == all.len() - i,
            out@.len() == i,
            forall|j: int| 0 <= j < i ==> repository_value_ok(#[trigger] view[j].1),
            forall|j: int|
                0 <= j < i ==> {
                    let e = #[trigger] out@[j];
                    &&& e.name@ == view[j].0
                    &&& opt_view(e.group) == opt_str_view(group)
                    &&& e.default_path@ == entry_default_path(opt_str_view(group), e.name@)
                    &&& e.field@ == entry_field(opt_str_view(group), e.name@)
                    &&& describes(e.repository, view[j].1)
                },
        decreases rest@.len(),
    {
        let (name, value) = rest.remove(0);
        assert((name, value) == all[i as int]);
        assert(rest@ =~= all.skip(i + 1));
        let (field, default_path, group_name) = match group {
            Some(g) => {
                let mut field = String::new();
                push_str(&mut field, "groups.");
                push_str(&mut field, g);
                push_str(&mut field, ".");
                push_str(&mut field, name.as_str());
                let mut path = String::from_str(g);
                push_str(&mut path, "/");
                push_str(&mut path, name.as_str());
                (field, path, Some(String::from_str(g)))
            },
            None => {
                let mut field = String::new();
                push_str(&mut field, "repos.");
                push_str(&mut field, name.as_str());
                (field, name.clone(), None)
            },
        };
        let repository = match parse_raw_repository(value, name.as_str(), label) {
            Ok(r) => r,
            Err(e) => {
                assert(!repository_value_ok(view[i as int].1));
                return Err(e);
            },
        };
        out.push(
            RawRepositoryEntry { name, group: group_name, default_path, field, repository },
        );
        i = i + 1;
    }
    Ok(out)
}

/// The top-level keys a configuration file may hold.
pub open spec fn known_root_key(k: Seq<char>) -> bool {
    k == "version"@ || k == inclusion_key() || k == "repos"@ || k == "groups"@
}

/// Removes the entry named `key` from a table, returning its value.
pub fn take_key(table: &mut Vec<(String, ConfigValue)>, key: &str) -> (res: Option<ConfigValue>)
    ensures
        match key_index(table_view(old(table)@), key@) {
            Some(i) => res matches Some(v) && value_view(v) == table_view(old(table)@)[i].1
                && final(table)@ == old(table)@.remove(i),
            None => res is None && final(table)@ == old(table)@,
        },
        opt_value_view(res) == lookup(table_view(old(table)@), key@),
        final(table)@ == without_key(old(table)@, key@),
{
    proof {
        lemma_table_view(table@);
        crate::config::value::lemma_key_index(table_view(table@), key@);
    }
    let k = String::from_str(key);
    match crate::config::value::find_key(table, &k) {
        Some(i) => {
            let (_, v) = table.remove(i);
            Some(v)
        },
        None => None,
    }
}


fn push_inclusion_key(m: &mut String)
    ensures
        final(m)@ == old(m)@ + inclusion_key(),
{
    push_char(m, 'i');
    push_char(m, 'n');
    push_char(m, 'c');
    push_char(m, 'l');
    push_char(m, 'u');
    push_char(m, 'd');
    push_char(m, 'e');
    assert(final(m)@ =~= old(m)@ + inclusion_key());
}

/// The texts of an array of strings, when it is one.
pub open spec fn text_items(items: Seq<ValueView>) -> Option<Seq<Seq<char>>>
    decreases items.len(),
{
    if items.len() == 0 {
        Some(Seq::empty())
    } else {
        match (text_items(items.drop_last()), items.last()) {
            (Some(prev), ValueView::Text(t)) => Some(prev.push(t)),
            _ => None,
        }
    }
}

/// Reads the list of further configuration files: an array of strings.
pub fn parse_inclusions(value: Option<ConfigValue>, label: &str) -> (res: Result<Vec<String>, AppError>)
    ensures
        value is None ==> (res matches Ok(v) && v@.len() == 0),
        value matches Some(v) ==> (res is Ok <==> (value_view(v) matches ValueView::Array(items)
            && text_items(items) is Some)),
        value matches Some(v) ==> (res matches Ok(out) ==> (value_view(v) matches ValueView::Array(
            items,
        ) && text_items(items) == Some(out.deep_view()))),
        res matches Err(e) ==> e is ConfigError,
{
    let mut m = String::from_str(label);
    push_str(&mut m, ": ");
    push_inclusion_key(&mut m);
    push_str(&mut m, ": expected an array of strings");
    match value {
        None => Ok(Vec::new()),
        Some(ConfigValue::Array(items)) => {
            let ghost all = items@;
            let ghost views = crate::config::value::array_view(all);
            assert(value_view(value.unwrap()) == ValueView::Array(views));
            proof {
                lemma_array_view(all);
            }
            assert(all.skip(0) =~= all);
            assert(all.len() == items.len());
            let mut rest = items;
            let mut out: Vec<String> = Vec::new();
            let mut i: usize = 0;
            assert(views.take(0) =~= Seq::<ValueView>::empty());
            while rest.len() > 0
                invariant
                    all.len() <= usize::MAX,
                    views == crate::config::value::array_view(all),
                    views.len() == all.len(),
                    forall|j: int| 0 <= j < all.len() ==> #[trigger] views[j] == value_view(all[j]),
                    i <= all.len(),
                    rest@ == all.skip(i as int),
                    rest@.len() == all.len() - i,
                    text_items(views.take(i as int)) == Some(out.deep_view()),
                    value matches Some(v) && value_view(v) == ValueView::Array(views),
                decreases rest@.len(),
            {
                let item = rest.remove(0);
                assert(item == all[i as int]);
                assert(rest@ =~= all.skip(i + 1));
                let ghost taken = views.take(i + 1);
                assert(taken.drop_last() =~= views.take(i as int));
                assert(taken.last() == views[i as int]);
                match item {
                    ConfigValue::Text(t) => {
                        out.push(t);
                        assert(out.deep_view() =~= text_items(views.take(i as int)).unwrap().push(
                            taken.last()->Text_0,
                        ));
                    },
                    _ => {
                        proof {
                            lemma_text_items_prefix(views, i as int);
                        }
                        return Err(AppError::ConfigError(m));
                    },
                }
                i = i + 1;
            }
            assert(views.take(i as int) =~= views);
            Ok(out)
        },
        Some(_) => Err(AppError::ConfigError(m)),
    }
}

proof fn lemma_array_view(items: Seq<ConfigValue>)
    ensures
        crate::config::value::array_view(items).len() == items.len(),
        forall|i: int|
            0 <= i < items.len() ==> #[trigger] crate::config::value::array_view(items)[i]
                == value_view(items[i]),
    decreases items.len(),
{
    if items.len() > 0 {
        lemma_array_view(items.drop_last());
    }
}

/// Once a prefix is not all text, no longer prefix is.
proof fn lemma_text_items_prefix(items: Seq<ValueView>, i: int)
    requires
        0 <= i < items.len(),
        !(items[i] is Text),
    ensures
        text_items(items) is None,
    decreases items.len(),
{
    if i == items.len() - 1 {
    } else {
        lemma_text_items_prefix(items.drop_last(), i);
    }
}

pub open spec fn msg_unknown_field(label: Seq<char>, key: Seq<char>) -> Seq<char> {
    label + ": unknown field `"@ + key + "`"@
}

/// A table with the first entry named `key` taken out, if it has one.
pub open spec fn without_key(entries: Seq<(String, ConfigValue)>, key: Seq<char>) -> Seq<(String, ConfigValue)> {
    match key_index(table_view(entries), key) {
        Some(i) => entries.remove(i),
        None => entries,
    }
}

pub open spec fn opt_value_view(o: Option<ConfigValue>) -> Option<ValueView> {
    match o {
        Some(v) => Some(value_view(v)),
        None => None,
    }
}

/// Every top-level key is one the format knows.
pub open spec fn root_keys_known(t: Seq<(Seq<char>, ValueView)>) -> bool {
    forall|i: int| 0 <= i < t.len() ==> known_root_key(#[trigger] t[i].0)
}

/// An absent version, or an integer that fits in `u32`.
pub open spec fn version_ok(v: Option<ValueView>) -> bool {
    match v {
        None => true,
        Some(ValueView::Integer(i)) => 0 <= i <= u32::MAX,
        _ => false,
    }
}

/// The version a well-formed field gives.
pub open spec fn version_of(v: Option<ValueView>) -> Option<u32> {
    match v {
        Some(ValueView::Integer(i)) => Some(i as u32),
        _ => None,
    }
}

/// The further files a field lists: nothing when absent, the texts of an
/// array of strings, and no answer for anything else.
pub open spec fn inclusion_texts(v: Option<ValueView>) -> Option<Seq<Seq<char>>> {
    match v {
        None => Some(Seq::empty()),
        Some(ValueView::Array(items)) => text_items(items),
        _ => None,
    }
}

/// Every value of a repository table is a well-formed repository.
pub open spec fn repository_table_ok(t: Seq<(Seq<char>, ValueView)>) -> bool {
    forall|i: int| 0 <= i < t.len() ==> repository_value_ok(#[trigger] t[i].1)
}

pub open spec fn repos_ok(v: Option<ValueView>) -> bool {
    match v {
        None => true,
        Some(ValueView::Table(t)) => repository_table_ok(t),
        _ => false,
    }
}

/// A group: a normalized relative directory holding a repository table.
pub open spec fn group_ok(g: (Seq<char>, ValueView)) -> bool {
    &&& valid_group_directory(g.0)
    &&& g.1 matches ValueView::Table(t) && repository_table_ok(t)
}

pub open spec fn all_groups_ok(gs: Seq<(Seq<char>, ValueView)>) -> bool {
    forall|i: int| 0 <= i < gs.len() ==> group_ok(#[trigger] gs[i])
}

pub open spec fn groups_ok(v: Option<ValueView>) -> bool {
    match v {
        None => true,
        Some(ValueView::Table(gs)) => all_groups_ok(gs),
        _ => false,
    }
}

/// When a top-level table decodes: known keys only, and each field well formed.
pub open spec fn fields_ok(t: Seq<(Seq<char>, ValueView)>) -> bool {
    &&& root_keys_known(t)
    &&& version_ok(lookup(t, "version"@))
    &&& inclusion_texts(lookup(t, inclusion_key())) is Some
    &&& repos_ok(lookup(t, "repos"@))
    &&& groups_ok(lookup(t, "groups"@))
}

/// One declaration: its group, its name and its value.
pub type Declaration = (Option<Seq<char>>, Seq<char>, ValueView);

/// The declarations of one repository table, in table order.
pub open spec fn table_declarations(group: Option<Seq<char>>, t: Seq<(Seq<char>, ValueView)>) -> Seq<Declaration> {
    t.map_values(|e: (Seq<char>, ValueView)| (group, e.0, e.1))
}

/// The declarations of every group, group by group in document order.
pub open spec fn group_declarations(gs: Seq<(Seq<char>, ValueView)>) -> Seq<Declaration>
    decreases gs.len(),
{
    if gs.len() == 0 {
        Seq::empty()
    } else {
        group_declarations(gs.drop_last()) + match gs.last().1 {
            ValueView::Table(t) => table_declarations(Some(gs.last().0), t),
            _ => Seq::empty(),
        }
    }
}

/// The repositories a top-level table declares: `[repos]` first, then the groups.
pub open spec fn declarations(t: Seq<(Seq<char>, ValueView)>) -> Seq<Declaration> {
    let repos = match lookup(t, "repos"@) {
        Some(ValueView::Table(r)) => table_declarations(None, r),
        _ => Seq::empty(),
    };
    let groups = match lookup(t, "groups"@) {
        Some(ValueView::Table(gs)) => group_declarations(gs),
        _ => Seq::empty(),
    };
    repos + groups
}

/// A decoded entry is what its declaration says.
pub open spec fn declares(e: RawRepositoryEntry, d: Declaration) -> bool {
    &&& e.name@ == d.1
    &&& opt_view(e.group) == d.0
    &&& e.default_path@ == entry_default_path(d.0, d.1)
    &&& e.field@ == entry_field(d.0, d.1)
    &&& describes(e.repository, d.2)
}

pub open spec fn declares_all(entries: Seq<RawRepositoryEntry>, ds: Seq<Declaration>) -> bool {
    &&& entries.len() == ds.len()
    &&& forall|k: int| 0 <= k < entries.len() ==> declares(#[trigger] entries[k], ds[k])
}

/// Taking one key out of a table leaves what it holds under any other key.
proof fn lemma_lookup_without(entries: Seq<(String, ConfigValue)>, removed: Seq<char>, key: Seq<char>)
    requires
        removed != key,
    ensures
        lookup(table_view(without_key(entries, removed)), key) == lookup(table_view(entries), key),
{
    let t = table_view(entries);
    lemma_table_view(entries);
    crate::config::value::lemma_key_index(t, removed);
    crate::config::value::lemma_key_index(t, key);
    match key_index(t, removed) {
        Some(i) => {
            let after = entries.remove(i);
            lemma_table_view(after);
            let ta = table_view(after);
            assert(ta =~= t.remove(i));
            crate::config::value::lemma_key_index(ta, key);
            match key_index(t, key) {
                Some(k) => {
                    if k < i {
                        assert(ta[k] == t[k]);
                        match key_index(ta, key) {
                            Some(k2) => {
                                if k2 < k {
                                    assert(ta[k2] == t[k2]);
                                }
                            },
                            None => {},
                        }
                        assert(key_index(ta, key) == Some(k));
                    } else {
                        assert(k != i);
                        assert(ta[k - 1] == t[k]);
                        match key_index(ta, key) {
                            Some(k2) => {
                                if k2 < k - 1 {
                                    if k2 < i {
                                        assert(ta[k2] == t[k2]);
                                    } else {
                                        assert(ta[k2] == t[k2 + 1]);
                                    }
                                }
                            },
                            None => {},
                        }
                        assert(key_index(ta, key) == Some(k - 1));
                    }
                },
                None => {
                    match key_index(ta, key) {
                        Some(k2) => {
                            if k2 < i {
                                assert(ta[k2] == t[k2]);
                            } else {
                                assert(ta[k2] == t[k2 + 1]);
                            }
                        },
                        None => {},
                    }
                },
            }
        },
        None => {},
    }
}

proof fn lemma_group_declarations_step(gs: Seq<(Seq<char>, ValueView)>, i: int)
    requires
        0 <= i < gs.len(),
    ensures
        group_declarations(gs.take(i + 1)) == group_declarations(gs.take(i)) + match gs[i].1 {
            ValueView::Table(t) => table_declarations(Some(gs[i].0), t),
            _ => Seq::empty(),
        },
{
    let taken = gs.take(i + 1);
    assert(taken.drop_last() =~= gs.take(i));
    assert(taken.last() == gs[i]);
}

/// Decodes one parsed configuration file: unknown top-level keys are
/// refused, `version` must be a `u32`, the list of further files must be an
/// array of strings, and repositories come from `[repos]` then from every
/// group, in document order.
pub fn decode(root: Vec<(String, ConfigValue)>, label: &str) -> (res: Result<RawConfigFile, AppError>)
    ensures
        res is Ok <==> fields_ok(table_view(root@)),
        (exists|i: int|
            0 <= i < root@.len() && !known_root_key(#[trigger] table_view(root@)[i].0)) ==> (res matches Err(
            AppError::ConfigError(m),
        ) && exists|j: int|
            0 <= j < root@.len() && !known_root_key(#[trigger] table_view(root@)[j].0) && m@
                == msg_unknown_field(label@, table_view(root@)[j].0) && forall|k: int|
                0 <= k < j ==> known_root_key(#[trigger] table_view(root@)[k].0)),
        res matches Ok(raw) ==> {
            &&& raw.version == version_of(lookup(table_view(root@), "version"@))
            &&& inclusion_texts(lookup(table_view(root@), inclusion_key())) == Some(raw.included.deep_view())
            &&& declares_all(raw.repositories@, declarations(table_view(root@)))
        },
        res matches Err(e) ==> e is ConfigError,
{
    proof {
        lemma_table_view(root@);
    }
    let ghost t = table_view(root@);
    let mut i: usize = 0;
    while i < root.len()
        invariant
            i <= root@.len(),
            t == table_view(root@),
            t.len() == root@.len(),
            forall|j: int| 0 <= j < root@.len() ==> #[trigger] t[j] == (root@[j].0@, value_view(root@[j].1)),
            forall|j: int| 0 <= j < i ==> known_root_key(#[trigger] t[j].0),
        decreases root@.len() - i,
    {
        let key = &root[i].0;
        let known = text_is(key, "version") || is_inclusion_key(key.as_str()) || text_is(key, "repos")
            || text_is(key, "groups");
        if !known {
            let mut m = String::from_str(label);
            push_str(&mut m, ": unknown field `");
            push_str(&mut m, key.as_str());
            push_str(&mut m, "`");
            assert(t[i as int].0 == key@);
            assert(m@ == msg_unknown_field(label@, t[i as int].0));
            return Err(AppError::ConfigError(m));
        }
        i = i + 1;
    }
    assert(root_keys_known(t));
    proof {
        reveal_strlit("version");
        reveal_strlit("repos");
        reveal_strlit("groups");
        assert("version"@[0] == 'v');
        assert("repos"@[0] == 'r');
        assert("groups"@[0] == 'g');
        assert("version"@ != inclusion_key());
        assert("version"@ != "repos"@);
        assert("version"@ != "groups"@);
        assert(inclusion_key() != "repos"@);
        assert(inclusion_key() != "groups"@);
        assert("repos"@ != "groups"@);
    }
    let mut fields = root;
    let ghost f0 = fields@;
    let version_value = take_key(&mut fields, "version");
    let ghost f1 = fields@;
    proof {
        lemma_lookup_without(f0, "version"@, inclusion_key());
        lemma_lookup_without(f0, "version"@, "repos"@);
        lemma_lookup_without(f0, "version"@, "groups"@);
    }
    assert(opt_value_view(version_value) == lookup(t, "version"@));
    let version = match parse_version(version_value, label) {
        Ok(v) => v,
        Err(e) => {
            assert(!version_ok(lookup(t, "version"@)));
            return Err(e);
        },
    };
    let mut inclusion = String::new();
    push_inclusion_key(&mut inclusion);
    let included_value = take_key(&mut fields, inclusion.as_str());
    proof {
        lemma_lookup_without(f1, inclusion_key(), "repos"@);
        lemma_lookup_without(f1, inclusion_key(), "groups"@);
    }
    let ghost f2 = fields@;
    assert(opt_value_view(included_value) == lookup(t, inclusion_key()));
    let included = match parse_inclusions(included_value, label) {
        Ok(v) => v,
        Err(e) => {
            assert(inclusion_texts(lookup(t, inclusion_key())) is None);
            return Err(e);
        },
    };
    let repositories_value = take_key(&mut fields, "repos");
    proof {
        lemma_lookup_without(f2, "repos"@, "groups"@);
    }
    assert(opt_value_view(repositories_value) == lookup(t, "repos"@));
    let mut repositories = match repositories_value {
        None => Vec::new(),
        Some(ConfigValue::Table(table)) => {
            proof {
                lemma_table_view(table@);
            }
            let ghost tv = table_view(table@);
            assert(tv.len() == table@.len());
            match parse_repository_table(table, None, label) {
                Ok(entries) => {
                    assert(table_declarations(None, tv).len() == entries@.len());
                    entries
                },
                Err(e) => {
                    assert(!repos_ok(lookup(t, "repos"@)));
                    return Err(e);
                },
            }
        },
        Some(_) => {
            let mut m = String::from_str(label);
            push_str(&mut m, ": field 'repos' must be a table");
            return Err(AppError::ConfigError(m));
        },
    };
    let ghost repos_decl = match lookup(t, "repos"@) {
        Some(ValueView::Table(r)) => table_declarations(None, r),
        _ => Seq::empty(),
    };
    assert(declares_all(repositories@, repos_decl));
    let groups_value = take_key(&mut fields, "groups");
    assert(opt_value_view(groups_value) == lookup(t, "groups"@));
    match groups_value {
        None => {
            assert(declarations(t) =~= repos_decl);
        },
        Some(ConfigValue::Table(groups)) => {
            proof {
                lemma_table_view(groups@);
            }
            let ghost gall = groups@;
            let ghost gview = table_view(gall);
            assert(gall.len() == groups.len());
            assert(lookup(t, "groups"@) == Some(ValueView::Table(gview)));
            assert(gall.skip(0) =~= gall);
            assert(gview.take(0) =~= Seq::<(Seq<char>, ValueView)>::empty());
            assert(repos_decl + group_declarations(gview.take(0)) =~= repos_decl);
            let mut rest = groups;
            let mut g: usize = 0;
            while rest.len() > 0
                invariant
                    gall.len() <= usize::MAX,
                    gview == table_view(gall),
                    gview.len() == gall.len(),
                    forall|j: int| 0 <= j < gall.len() ==> #[trigger] gview[j] == (gall[j].0@, value_view(gall[j].1)),
                    g <= gall.len(),
                    rest@ == gall.skip(g as int),
                    rest@.len() == gall.len() - g,
                    forall|j: int| 0 <= j < g ==> group_ok(#[trigger] gview[j]),
                    declares_all(repositories@, repos_decl + group_declarations(gview.take(g as int))),
                    lookup(t, "groups"@) == Some(ValueView::Table(gview)),
                    t == table_view(root@),
                    t.len() == root@.len(),
                    root_keys_known(t),
                    version_ok(lookup(t, "version"@)),
                    inclusion_texts(lookup(t, inclusion_key())) is Some,
                    repos_ok(lookup(t, "repos"@)),
                decreases rest@.len(),
            {
                assert(g < gview.len());
                let (directory, value) = rest.remove(0);
                assert((directory, value) == gall[g as int]);
                assert(rest@ =~= gall.skip(g + 1));
                assert(gview[g as int] == (directory@, value_view(value)));
                match validate_group_directory(directory.as_str(), label) {
                    Ok(()) => {},
                    Err(e) => {
                        assert(!group_ok(gview[g as int]));
                        assert(!all_groups_ok(gview));
                        assert(!groups_ok(lookup(t, "groups"@)));
                        return Err(e);
                    },
                }
                match value {
                    ConfigValue::Table(table) => {
                        let ghost before = repositories@;
                        let ghost tdecl = table_declarations(Some(directory@), table_view(table@));
                        proof {
                            lemma_group_declarations_step(gview, g as int);
                            lemma_table_view(table@);
                        }
                        let mut entries = match parse_repository_table(
                            table,
                            Some(directory.as_str()),
                            label,
                        ) {
                            Ok(entries) => entries,
                            Err(e) => {
                                assert(!group_ok(gview[g as int]));
                                assert(!all_groups_ok(gview));
                                assert(!groups_ok(lookup(t, "groups"@)));
                                return Err(e);
                            },
                        };
                        assert(declares_all(entries@, tdecl));
                        let ghost added = entries@;
                        repositories.append(&mut entries);
                        assert(declares_all(
                            repositories@,
                            repos_decl + group_declarations(gview.take(g + 1)),
                        )) by {
                            let ds = repos_decl + group_declarations(gview.take(g + 1));
                            assert(ds =~= (repos_decl + group_declarations(gview.take(g as int))) + tdecl);
                            assert forall|k: int| 0 <= k < repositories@.len() implies declares(
                                #[trigger] repositories@[k],
                                ds[k],
                            ) by {
                                if k >= before.len() {
                                    assert(repositories@[k] == added[k - before.len()]);
                                } else {
                                    assert(repositories@[k] == before[k]);
                                }
                            }
                        }
                        assert(group_ok(gview[g as int]));
                    },
                    _ => {
                        assert(!group_ok(gview[g as int]));
                        assert(!all_groups_ok(gview));
                        assert(!groups_ok(lookup(t, "groups"@)));
                        let mut m = String::from_str(label);
                        push_str(&mut m, ": group '");
                        push_str(&mut m, directory.as_str());
                        push_str(&mut m, "' must be a table");
                        return Err(AppError::ConfigError(m));
                    },
                }
                g = g + 1;
            }
            assert(gview.take(g as int) =~= gview);
            assert(declarations(t) =~= repos_decl + group_declarations(gview));
        },
        Some(_) => {
            let mut m = String::from_str(label);
            push_str(&mut m, ": field 'groups' must be a table");
            return Err(AppError::ConfigError(m));
        },
    }
    Ok(RawConfigFile { version, included, repositories })
}

} // verus!
