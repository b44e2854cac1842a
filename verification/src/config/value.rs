//! The TOML value model the configuration is decoded from, and the deep
//! merge that applies a sibling override file to its base file.

use vstd::prelude::*;

verus! {

/// A TOML value. Tables keep their keys in document order; a key occurs at
/// most once in a table that came from a parsed document.
#[derive(Debug)]
pub enum ConfigValue {
    Text(String),
    Integer(i64),
    Boolean(bool),
    Array(Vec<ConfigValue>),
    Table(Vec<(String, ConfigValue)>),
    /// Any other TOML value (float, date, time), carried through unchanged.
    Other(String),
}

/// The mathematical form of a value: texts become character sequences.
pub enum ValueView {
    Text(Seq<char>),
    Integer(i64),
    Boolean(bool),
    Array(Seq<ValueView>),
    Table(Seq<(Seq<char>, ValueView)>),
    Other(Seq<char>),
}

pub open spec fn value_view(v: ConfigValue) -> ValueView
    decreases v,
{
    match v {
        ConfigValue::Text(s) => ValueView::Text(s@),
        ConfigValue::Integer(i) => ValueView::Integer(i),
        ConfigValue::Boolean(b) => ValueView::Boolean(b),
        ConfigValue::Array(items) => ValueView::Array(array_view(items@)),
        ConfigValue::Table(entries) => ValueView::Table(table_view(entries@)),
        ConfigValue::Other(s) => ValueView::Other(s@),
    }
}

pub open spec fn array_view(items: Seq<ConfigValue>) -> Seq<ValueView>
    decreases items,
{
    if items.len() == 0 {
        Seq::empty()
    } else {
        array_view(items.drop_last()).push(value_view(items.last()))
    }
}

pub open spec fn table_view(entries: Seq<(String, ConfigValue)>) -> Seq<(Seq<char>, ValueView)>
    decreases entries,
{
    if entries.len() == 0 {
        Seq::empty()
    } else {
        table_view(entries.drop_last()).push((entries.last().0@, value_view(entries.last().1)))
    }
}

/// The first position of `key` in a table.
pub open spec fn key_index(entries: Seq<(Seq<char>, ValueView)>, key: Seq<char>) -> Option<int>
    decreases entries.len(),
{
    if entries.len() == 0 {
        None
    } else {
        match key_index(entries.drop_last(), key) {
            Some(i) => Some(i),
            None => if entries.last().0 == key {
                Some(entries.len() - 1)
            } else {
                None
            },
        }
    }
}

/// Merging one value into another: two tables merge key by key; anything else
/// is replaced by the overlay.
pub open spec fn merge_value(base: ValueView, overlay: ValueView) -> ValueView
    decreases overlay,
{
    match (base, overlay) {
        (ValueView::Table(b), ValueView::Table(o)) => ValueView::Table(merge_table(b, o)),
        (_, o) => o,
    }
}

/// Merging a table into another, key by key in the overlay's order: a key
/// the base has is merged in place, a new key is appended.
pub open spec fn merge_table(
    base: Seq<(Seq<char>, ValueView)>,
    overlay: Seq<(Seq<char>, ValueView)>,
) -> Seq<(Seq<char>, ValueView)>
    decreases overlay,
{
    if overlay.len() == 0 {
        base
    } else {
        let acc = merge_table(base, overlay.drop_last());
        let (key, value) = overlay.last();
        match key_index(acc, key) {
            Some(i) => acc.update(i, (key, merge_value(acc[i].1, value))),
            None => acc.push((key, value)),
        }
    }
}


pub proof fn lemma_table_view(entries: Seq<(String, ConfigValue)>)
    ensures
        table_view(entries).len() == entries.len(),
        forall|i: int|
            0 <= i < entries.len() ==> #[trigger] table_view(entries)[i] == (
                entries[i].0@,
                value_view(entries[i].1),
            ),
    decreases entries.len(),
{
    if entries.len() > 0 {
        lemma_table_view(entries.drop_last());
    }
}

pub proof fn lemma_key_index(entries: Seq<(Seq<char>, ValueView)>, key: Seq<char>)
    ensures
        key_index(entries, key) matches Some(i) ==> 0 <= i < entries.len() && entries[i].0 == key
            && forall|j: int| 0 <= j < i ==> entries[j].0 != key,
        key_index(entries, key) is None ==> forall|j: int|
            0 <= j < entries.len() ==> entries[j].0 != key,
    decreases entries.len(),
{
    if entries.len() > 0 {
        let prev = entries.drop_last();
        lemma_key_index(prev, key);
        assert forall|j: int| 0 <= j < prev.len() implies prev[j] == entries[j] by {}
    }
}

/// The value a table holds under `key` (its first occurrence).
pub open spec fn lookup(entries: Seq<(Seq<char>, ValueView)>, key: Seq<char>) -> Option<ValueView> {
    match key_index(entries, key) {
        Some(i) => Some(entries[i].1),
        None => None,
    }
}

/// No key occurs twice, as in any table parsed from a document.
pub open spec fn unique_keys(entries: Seq<(Seq<char>, ValueView)>) -> bool {
    forall|i: int, j: int| 0 <= i < j < entries.len() ==> entries[i].0 != entries[j].0
}

proof fn lemma_same_keys(a: Seq<(Seq<char>, ValueView)>, b: Seq<(Seq<char>, ValueView)>, key: Seq<char>)
    requires
        a.len() == b.len(),
        forall|i: int| 0 <= i < a.len() ==> a[i].0 == b[i].0,
    ensures
        key_index(a, key) == key_index(b, key),
    decreases a.len(),
{
    if a.len() > 0 {
        lemma_same_keys(a.drop_last(), b.drop_last(), key);
    }
}

proof fn lemma_lookup_drop_last(entries: Seq<(Seq<char>, ValueView)>, key: Seq<char>)
    requires
        entries.len() > 0,
        entries.last().0 != key,
    ensures
        lookup(entries.drop_last(), key) == lookup(entries, key),
{
    lemma_key_index(entries.drop_last(), key);
}

/// What merging does to the value under one key: a key the overlay lacks
/// keeps the base's value; a key only the overlay has takes the overlay's
/// value; a key both have gets the two values merged, so tables merge
/// recursively while scalars and arrays are replaced by the overlay's.
pub open spec fn merged_lookup(base: Option<ValueView>, overlay: Option<ValueView>) -> Option<ValueView> {
    match overlay {
        None => base,
        Some(o) => Some(
            match base {
                Some(b) => merge_value(b, o),
                None => o,
            },
        ),
    }
}

/// An override file changes exactly the keys it sets: merging leaves every
/// other key of the base as it was, gives a new key the override's value,
/// merges nested tables key by key, and replaces scalars and arrays.
pub proof fn law_merge_lookup(
    base: Seq<(Seq<char>, ValueView)>,
    overlay: Seq<(Seq<char>, ValueView)>,
    key: Seq<char>,
)
    requires
        unique_keys(overlay),
    ensures
        lookup(merge_table(base, overlay), key) == merged_lookup(
            lookup(base, key),
            lookup(overlay, key),
        ),
    decreases overlay.len(),
{
    if overlay.len() == 0 {
    } else {
        let prev = overlay.drop_last();
        assert(unique_keys(prev));
        law_merge_lookup(base, prev, key);
        let acc = merge_table(base, prev);
        let (k, v) = overlay.last();
        lemma_key_index(acc, k);
        lemma_key_index(acc, key);
        lemma_key_index(prev, key);
        lemma_key_index(overlay, key);
        if k == key {
            assert(key_index(prev, key) is None) by {
                if key_index(prev, key) is Some {
                    let i = key_index(prev, key)->0;
                    assert(overlay[i].0 == overlay[overlay.len() - 1].0);
                }
            }
            assert(lookup(overlay, key) == Some(v));
            match key_index(acc, k) {
                Some(i) => {
                    let next = acc.update(i, (k, merge_value(acc[i].1, v)));
                    lemma_same_keys(next, acc, key);
                },
                None => {
                    let next = acc.push((k, v));
                    assert(next.drop_last() =~= acc);
                },
            }
        } else {
            lemma_lookup_drop_last(overlay, key);
            match key_index(acc, k) {
                Some(i) => {
                    let next = acc.update(i, (k, merge_value(acc[i].1, v)));
                    lemma_same_keys(next, acc, key);
                    if let Some(j) = key_index(acc, key) {
                        assert(j != i);
                        assert(next[j] == acc[j]);
                    }
                },
                None => {
                    let next = acc.push((k, v));
                    assert(next.drop_last() =~= acc);
                    lemma_key_index(next, key);
                    if let Some(j) = key_index(acc, key) {
                        assert(next[j] == acc[j]);
                    }
                },
            }
        }
    }
}

/// An empty override leaves the base as it is.
pub proof fn law_merge_with_nothing(base: Seq<(Seq<char>, ValueView)>)
    ensures
        merge_table(base, Seq::empty()) == base,
{
}

/// The position of `key` in a table, if present.
pub fn find_key(entries: &Vec<(String, ConfigValue)>, key: &String) -> (res: Option<usize>)
    ensures
        res matches Some(i) ==> key_index(table_view(entries@), key@) == Some(i as int),
        res is None ==> key_index(table_view(entries@), key@) is None,
{
    proof {
        lemma_table_view(entries@);
        lemma_key_index(table_view(entries@), key@);
    }
    let mut i: usize = 0;
    while i < entries.len()
        invariant
            i <= entries@.len(),
            table_view(entries@).len() == entries@.len(),
            forall|j: int| 0 <= j < i ==> (#[trigger] table_view(entries@)[j]).0 != key@,
            forall|j: int|
                0 <= j < entries@.len() ==> #[trigger] table_view(entries@)[j] == (
                    entries@[j].0@,
                    value_view(entries@[j].1),
                ),
            key_index(table_view(entries@), key@) matches Some(k) ==> i <= k && (
            table_view(entries@)[k]).0 == key@ && k < entries@.len(),
        decreases entries@.len() - i,
    {
        if entries[i].0 == *key {
            assert(table_view(entries@)[i as int].0 == key@);
            proof {
                let tv = table_view(entries@);
                lemma_key_index(tv, key@);
                match key_index(tv, key@) {
                    Some(k) => {
                        if k != i {
                            assert(tv[i as int].0 != key@);
                        }
                    },
                    None => {
                        assert(tv[i as int].0 != key@);
                    },
                }
            }
            return Some(i);
        }
        assert(table_view(entries@)[i as int].0 != key@);
        i = i + 1;
    }
    None
}

/// Two equal copies of a value.
pub fn duplicate_value(v: ConfigValue) -> (pair: (ConfigValue, ConfigValue))
    ensures
        value_view(pair.0) == value_view(v),
        value_view(pair.1) == value_view(v),
    decreases v,
{
    match v {
        ConfigValue::Text(s) => (ConfigValue::Text(s.clone()), ConfigValue::Text(s)),
        ConfigValue::Integer(i) => (ConfigValue::Integer(i), ConfigValue::Integer(i)),
        ConfigValue::Boolean(b) => (ConfigValue::Boolean(b), ConfigValue::Boolean(b)),
        ConfigValue::Other(s) => (ConfigValue::Other(s.clone()), ConfigValue::Other(s)),
        ConfigValue::Array(items) => {
            let ghost all = items@;
            assert(all.len() == items.len());
            proof {
                assert(decreases_to!(v => items));
                assert(decreases_to!(items => items@));
                assert forall|k: int| 0 <= k < all.len() implies decreases_to!(v => all[k]) by {
                    assert(decreases_to!(items@ => items@[k]));
                }
            }
            let mut rest = items;
            let mut left: Vec<ConfigValue> = Vec::new();
            let mut right: Vec<ConfigValue> = Vec::new();
            let mut j: usize = 0;
            assert(all.take(0) =~= Seq::<ConfigValue>::empty());
            assert(all.skip(0) =~= all);
            while rest.len() > 0
                invariant
                    j <= all.len(),
                    all.len() <= usize::MAX,
                    rest@ == all.skip(j as int),
                    rest@.len() == all.len() - j,
                    all == items@,
                    array_view(left@) == array_view(all.take(j as int)),
                    array_view(right@) == array_view(all.take(j as int)),
                    forall|k: int| 0 <= k < all.len() ==> decreases_to!(v => all[k]),
                decreases rest@.len(),
            {
                let item = rest.remove(0);
                assert(item == all[j as int]);
                assert(rest@ =~= all.skip(j + 1));
                let (a, b) = duplicate_value(item);
                let ghost next = all.take(j + 1);
                assert(next.drop_last() =~= all.take(j as int));
                let ghost before_left = left@;
                let ghost before_right = right@;
                left.push(a);
                right.push(b);
                assert(left@.drop_last() =~= before_left);
                assert(right@.drop_last() =~= before_right);
                j = j + 1;
            }
            assert(all.take(j as int) =~= all);
            (ConfigValue::Array(left), ConfigValue::Array(right))
        },
        ConfigValue::Table(entries) => {
            let ghost all = entries@;
            assert(all.len() == entries.len());
            proof {
                assert(decreases_to!(v => entries));
                assert(decreases_to!(entries => entries@));
                assert forall|k: int| 0 <= k < all.len() implies decreases_to!(v => all[k].1) by {
                    assert(decreases_to!(entries@ => entries@[k]));
                    assert(decreases_to!(entries@[k] => entries@[k].1));
                }
            }
            let mut rest = entries;
            let mut left: Vec<(String, ConfigValue)> = Vec::new();
            let mut right: Vec<(String, ConfigValue)> = Vec::new();
            let mut j: usize = 0;
            assert(all.take(0) =~= Seq::<(String, ConfigValue)>::empty());
            assert(all.skip(0) =~= all);
            while rest.len() > 0
                invariant
                    j <= all.len(),
                    all.len() <= usize::MAX,
                    rest@ == all.skip(j as int),
                    rest@.len() == all.len() - j,
                    all == entries@,
                    table_view(left@) == table_view(all.take(j as int)),
                    table_view(right@) == table_view(all.take(j as int)),
                    forall|k: int| 0 <= k < all.len() ==> decreases_to!(v => all[k].1),
                decreases rest@.len(),
            {
                let (key, value) = rest.remove(0);
                assert((key, value) == all[j as int]);
                assert(rest@ =~= all.skip(j + 1));
                let (a, b) = duplicate_value(value);
                let ghost next = all.take(j + 1);
                assert(next.drop_last() =~= all.take(j as int));
                let ghost before_left = left@;
                let ghost before_right = right@;
                left.push((key.clone(), a));
                right.push((key, b));
                assert(left@.drop_last() =~= before_left);
                assert(right@.drop_last() =~= before_right);
                j = j + 1;
            }
            assert(all.take(j as int) =~= all);
            (ConfigValue::Table(left), ConfigValue::Table(right))
        },
    }
}

/// Two equal copies of a table's entries.
pub fn duplicate_entries(entries: Vec<(String, ConfigValue)>) -> (pair: (
    Vec<(String, ConfigValue)>,
    Vec<(String, ConfigValue)>,
))
    ensures
        table_view(pair.0@) == table_view(entries@),
        table_view(pair.1@) == table_view(entries@),
{
    let ghost original = entries@;
    match duplicate_value(ConfigValue::Table(entries)) {
        (ConfigValue::Table(a), ConfigValue::Table(b)) => (a, b),
        _ => {
            assert(false);
            (Vec::new(), Vec::new())
        },
    }
}

/// Merges `overlay` into `base`: tables merge recursively, anything else is
/// replaced by the overlay.
pub fn merge_values(base: ConfigValue, overlay: ConfigValue) -> (res: ConfigValue)
    ensures
        value_view(res) == merge_value(value_view(base), value_view(overlay)),
    decreases overlay,
{
    match (base, overlay) {
        (ConfigValue::Table(b), ConfigValue::Table(o)) => ConfigValue::Table(merge_entries(b, o)),
        (_, o) => o,
    }
}

/// Merges the entries of an overlay table into a base table.
pub fn merge_entries(base: Vec<(String, ConfigValue)>, overlay: Vec<(String, ConfigValue)>) -> (res:
    Vec<(String, ConfigValue)>)
    ensures
        table_view(res@) == merge_table(table_view(base@), table_view(overlay@)),
    decreases overlay,
{
    let ghost base_view = table_view(base@);
    let ghost overlay_all = overlay@;
    assert(overlay_all.len() == overlay.len());
    let mut acc = base;
    let mut rest = overlay;
    let mut j: usize = 0;
    assert(overlay_all.take(0) =~= Seq::<(String, ConfigValue)>::empty());
    assert(overlay_all.skip(0) =~= overlay_all);
    while rest.len() > 0
        invariant
            j <= overlay_all.len(),
            rest@ == overlay_all.skip(j as int),
            rest@.len() == overlay_all.len() - j,
            overlay_all == overlay@,
            overlay_all.len() <= usize::MAX,
            table_view(acc@) == merge_table(base_view, table_view(overlay_all.take(j as int))),
        decreases rest@.len(),
    {
        let (key, value) = rest.remove(0);
        assert((key, value) == overlay_all[j as int]);
        assert(rest@ =~= overlay_all.skip(j + 1));
        let ghost before = overlay_all.take(j as int);
        let ghost after = overlay_all.take(j + 1);
        assert(after.drop_last() =~= before);
        assert(table_view(after) == table_view(before).push((key@, value_view(value))));
        assert(table_view(after).drop_last() =~= table_view(before));
        let ghost acc_view = table_view(acc@);
        proof {
            lemma_table_view(acc@);
            lemma_key_index(acc_view, key@);
        }
        match find_key(&acc, &key) {
            Some(i) => {
                let (existing_key, existing_value) = acc.remove(i);
                proof {
                    assert(overlay_all[j as int].1 == value);
                    assert(decreases_to!(overlay => overlay@));
                    assert(decreases_to!(overlay@ => overlay@[j as int]));
                    assert(decreases_to!(overlay@[j as int] => overlay@[j as int].1));
                }
                let merged = merge_values(existing_value, value);
                acc.insert(i, (existing_key, merged));
                proof {
                    lemma_table_view(acc@);
                    assert(table_view(acc@) =~= acc_view.update(
                        i as int,
                        (key@, merge_value(acc_view[i as int].1, value_view(value))),
                    ));
                }
            },
            None => {
                acc.push((key, value));
                proof {
                    lemma_table_view(acc@);
                    assert(table_view(acc@) =~= acc_view.push((key@, value_view(value))));
                }
            },
        }
        j = j + 1;
    }
    assert(overlay_all.take(j as int) =~= overlay_all);
    acc
}


/// Merges `overlay` into `base` in place: nested tables merge recursively so a
/// deeply nested key can be overridden without restating its siblings, while
/// scalars and arrays are replaced wholesale.
pub fn merge_tables(base: &mut Vec<(String, ConfigValue)>, overlay: Vec<(String, ConfigValue)>)
    ensures
        table_view(final(base)@) == merge_table(table_view(old(base)@), table_view(overlay@)),
{
    let mut taken: Vec<(String, ConfigValue)> = Vec::new();
    std::mem::swap(base, &mut taken);
    *base = merge_entries(taken, overlay);
}

/// A repository written as a bare URL string, rewritten as a table holding
/// that URL.
pub open spec fn expand_entry(entry: (Seq<char>, ValueView)) -> (Seq<char>, ValueView) {
    match entry.1 {
        ValueView::Text(url) => (entry.0, ValueView::Table(seq![("url"@, ValueView::Text(url))])),
        _ => entry,
    }
}

/// Every bare-URL repository of a table rewritten as a table.
pub open spec fn expand_entries(entries: Seq<(Seq<char>, ValueView)>) -> Seq<(Seq<char>, ValueView)> {
    entries.map_values(|e: (Seq<char>, ValueView)| expand_entry(e))
}

/// Rewrites every bare-URL entry of a repository table as `{ url = ... }`.
pub fn expand_strings(repositories: Vec<(String, ConfigValue)>) -> (res: Vec<(String, ConfigValue)>)
    ensures
        table_view(res@) == expand_entries(table_view(repositories@)),
{
    proof {
        lemma_table_view(repositories@);
        reveal_strlit("url");
    }
    let ghost all = repositories@;
    assert(all.skip(0) =~= all);
    assert(all.len() == repositories.len());
    let mut rest = repositories;
    let mut out: Vec<(String, ConfigValue)> = Vec::new();
    let mut i: usize = 0;
    while rest.len() > 0
        invariant
            all.len() <= usize::MAX,
            table_view(all).len() == all.len(),
            forall|j: int| 0 <= j < all.len() ==> #[trigger] table_view(all)[j] == (all[j].0@, value_view(all[j].1)),
            i <= all.len(),
            rest@ == all.skip(i as int),
            rest@.len() == all.len() - i,
            table_view(out@) == expand_entries(table_view(all).take(i as int)),
        decreases rest@.len(),
    {
        let (key, value) = rest.remove(0);
        assert((key, value) == all[i as int]);
        assert(rest@ =~= all.skip(i + 1));
        let ghost before = table_view(out@);
        let ghost entry = table_view(all)[i as int];
        assert(entry == (key@, value_view(value)));
        let item = match value {
            ConfigValue::Text(url) => {
                let mut fields: Vec<(String, ConfigValue)> = Vec::new();
                fields.push((String::from_str("url"), ConfigValue::Text(url)));
                proof {
                    lemma_table_view(fields@);
                    assert(table_view(fields@) =~= seq![("url"@, ValueView::Text(entry.1->Text_0))]);
                }
                ConfigValue::Table(fields)
            },
            other => other,
        };
        assert(value_view(item) == expand_entry(entry).1);
        let ghost old_out = out@;
        out.push((key, item));
        proof {
            assert(out@.drop_last() =~= old_out);
            assert(table_view(out@) =~= before.push(expand_entry(entry)));
            assert(table_view(all).take(i + 1) =~= table_view(all).take(i as int).push(entry));
            assert(expand_entries(table_view(all).take(i + 1)) =~= expand_entries(table_view(all).take(i as int)).push(expand_entry(entry)));
        }
        i = i + 1;
    }
    assert(table_view(all).take(i as int) =~= table_view(all));
    out
}


/// A group entry whose repositories are written as bare URLs, rewritten.
pub open spec fn expand_group(entry: (Seq<char>, ValueView)) -> (Seq<char>, ValueView) {
    match entry.1 {
        ValueView::Table(t) => (entry.0, ValueView::Table(expand_entries(t))),
        _ => entry,
    }
}

/// A top-level entry with its repository strings expanded: the `repos`
/// table, and every table of the `groups` table.
pub open spec fn expand_root_entry(entry: (Seq<char>, ValueView)) -> (Seq<char>, ValueView) {
    if entry.0 == "repos"@ {
        expand_group(entry)
    } else if entry.0 == "groups"@ {
        match entry.1 {
            ValueView::Table(groups) => (
                entry.0,
                ValueView::Table(groups.map_values(|g: (Seq<char>, ValueView)| expand_group(g))),
            ),
            _ => entry,
        }
    } else {
        entry
    }
}

fn expand_group_value(value: ConfigValue) -> (res: ConfigValue)
    ensures
        value_view(res) == (match value_view(value) {
            ValueView::Table(t) => ValueView::Table(expand_entries(t)),
            other => other,
        }),
{
    match value {
        ConfigValue::Table(t) => ConfigValue::Table(expand_strings(t)),
        other => other,
    }
}

/// Rewrites every entry of a table with `f`, given as a spec and an exec step.
fn expand_groups(groups: Vec<(String, ConfigValue)>) -> (res: Vec<(String, ConfigValue)>)
    ensures
        table_view(res@) == table_view(groups@).map_values(
            |g: (Seq<char>, ValueView)| expand_group(g),
        ),
{
    proof {
        lemma_table_view(groups@);
    }
    let ghost all = groups@;
    assert(all.skip(0) =~= all);
    assert(all.len() == groups.len());
    let mut rest = groups;
    let mut out: Vec<(String, ConfigValue)> = Vec::new();
    let mut i: usize = 0;
    while rest.len() > 0
        invariant
            all.len() <= usize::MAX,
            table_view(all).len() == all.len(),
            forall|j: int| 0 <= j < all.len() ==> #[trigger] table_view(all)[j] == (all[j].0@, value_view(all[j].1)),
            i <= all.len(),
            rest@ == all.skip(i as int),
            rest@.len() == all.len() - i,
            table_view(out@) == table_view(all).take(i as int).map_values(
                |g: (Seq<char>, ValueView)| expand_group(g),
            ),
        decreases rest@.len(),
    {
        let (key, value) = rest.remove(0);
        assert((key, value) == all[i as int]);
        assert(rest@ =~= all.skip(i + 1));
        let ghost entry = table_view(all)[i as int];
        let item = expand_group_value(value);
        let ghost old_out = out@;
        out.push((key, item));
        proof {
            assert(out@.drop_last() =~= old_out);
            assert(table_view(all).take(i + 1) =~= table_view(all).take(i as int).push(entry));
            assert(table_view(out@) =~= table_view(all).take(i + 1).map_values(
                |g: (Seq<char>, ValueView)| expand_group(g),
            ));
        }
        i = i + 1;
    }
    assert(table_view(all).take(i as int) =~= table_view(all));
    out
}

/// Rewrites the bare-URL repositories of a parsed file, under `[repos]` and
/// under every group, as tables holding the URL, so that an override can add
/// fields to them.
pub fn expand_repository_strings(root: &mut Vec<(String, ConfigValue)>)
    ensures
        table_view(final(root)@) == table_view(old(root)@).map_values(
            |e: (Seq<char>, ValueView)| expand_root_entry(e),
        ),
{
    proof {
        lemma_table_view(root@);
        reveal_strlit("repos");
        reveal_strlit("groups");
        assert("repos"@.len() == 5);
        assert("groups"@.len() == 6);
    }
    let mut taken: Vec<(String, ConfigValue)> = Vec::new();
    std::mem::swap(root, &mut taken);
    let ghost all = taken@;
    assert(all.skip(0) =~= all);
    assert(all.len() == taken.len());
    let mut rest = taken;
    let mut out: Vec<(String, ConfigValue)> = Vec::new();
    let mut i: usize = 0;
    while rest.len() > 0
        invariant
            all.len() <= usize::MAX,
            "repos"@ != "groups"@,
            table_view(all).len() == all.len(),
            forall|j: int| 0 <= j < all.len() ==> #[trigger] table_view(all)[j] == (all[j].0@, value_view(all[j].1)),
            i <= all.len(),
            rest@ == all.skip(i as int),
            rest@.len() == all.len() - i,
            table_view(out@) == table_view(all).take(i as int).map_values(
                |e: (Seq<char>, ValueView)| expand_root_entry(e),
            ),
        decreases rest@.len(),
    {
        let (key, value) = rest.remove(0);
        assert((key, value) == all[i as int]);
        assert(rest@ =~= all.skip(i + 1));
        let ghost entry = table_view(all)[i as int];
        let item = if key == String::from_str("repos") {
            expand_group_value(value)
        } else if key == String::from_str("groups") {
            match value {
                ConfigValue::Table(groups) => ConfigValue::Table(expand_groups(groups)),
                other => other,
            }
        } else {
            value
        };
        assert(value_view(item) == expand_root_entry(entry).1);
        let ghost old_out = out@;
        out.push((key, item));
        proof {
            assert(out@.drop_last() =~= old_out);
            assert(table_view(all).take(i + 1) =~= table_view(all).take(i as int).push(entry));
            assert(table_view(out@) =~= table_view(all).take(i + 1).map_values(
                |e: (Seq<char>, ValueView)| expand_root_entry(e),
            ));
        }
        i = i + 1;
    }
    assert(table_view(all).take(i as int) =~= table_view(all));
    *root = out;
}

} // verus!
