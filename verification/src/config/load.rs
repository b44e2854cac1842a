//! Finding and loading `grove.toml`: the ascent to the nearest root file, the
//! sibling override merged into each file, the files the root includes, and
//! the resolution of the whole tree.

use vstd::prelude::*;
use crate::config::file::{decode, parse_table, toml_document};
use crate::config::resolved::ResolvedConfig;
use crate::config::tree::{LoadedConfigFile, LoadedConfigTree};
use crate::config::validation::{PathResolution, ResolutionError, resolve, lexical_path};
use crate::config::value::{ConfigValue, merge_tables, table_view, unique_keys, ValueView};
use crate::error::AppError;
use crate::repositories::RepositoryDefinition;
use crate::paths::{
    components, is_absolute, join, join_path, normalize, normalize_lexically, path_components,
    path_is_absolute, path_starts_with, render, render_path,
};
use crate::text::{chars_of, push_str};

verus! {

/// What loading configuration asks of the file system. The implementation
/// outside the library reads real files and parses their TOML.
///
/// Beside the questions whose answers shape the configuration (what a path
/// leads to, whether something is there, what a file holds) stands a
/// relation between the question and the answers given to it, and each of
/// those methods answers within its relation. The relations admit every
/// answer unless an implementation narrows them; a contract stated over them
/// holds whatever they are, and so speaks of the answers actually given.
pub trait ConfigFiles {
    /// The absolute working directory.
    fn current_dir(&self) -> Result<String, AppError>;

    /// The file system may answer `answer` when asked where `path` leads
    /// once links are followed.
    closed spec fn resolves_link(&self, path: Seq<char>, answer: Result<String, String>) -> bool {
        true
    }

    /// The path with every symbolic link resolved, or why that failed.
    fn canonicalize(&self, path: &str) -> (res: Result<String, String>)
        ensures
            self.resolves_link(path@, res);

    /// The file system may answer `answer` when asked whether anything is at
    /// `path`.
    closed spec fn finds_entry(&self, path: Seq<char>, answer: Result<bool, String>) -> bool {
        true
    }

    /// Whether anything (a dangling link included) is at `path`; a failure
    /// other than absence is reported.
    fn entry_exists(&self, path: &str) -> (res: Result<bool, String>)
        ensures
            self.finds_entry(path@, res);

    /// Whether `path` is a regular file, links followed.
    fn is_file(&self, path: &str) -> bool;

    /// The file system may answer `answer` when asked what the file at
    /// `path` holds.
    closed spec fn holds_text(&self, path: Seq<char>, answer: Result<String, AppError>) -> bool {
        true
    }

    /// The text a file holds.
    fn read_text(&self, path: &str) -> (res: Result<String, AppError>)
        ensures
            self.holds_text(path@, res);

    /// Where an existing repository path leads once links are followed, or
    /// `None` when nothing exists there.
    fn resolve_operational(&self, lexical: &str, root: &str) -> Option<Result<String, ResolutionError>>;
}

/// The position of the last `.` in `s`, or -1.
pub open spec fn last_dot(s: Seq<char>) -> int
    decreases s.len(),
{
    if s.len() == 0 {
        -1
    } else if s.last() == '.' {
        s.len() - 1
    } else {
        last_dot(s.drop_last())
    }
}

proof fn lemma_last_dot(s: Seq<char>)
    ensures
        -1 <= last_dot(s) < s.len(),
    decreases s.len(),
{
    if s.len() > 0 && s.last() != '.' {
        lemma_last_dot(s.drop_last());
    }
}

/// The name of a file's override: its stem, `.override`, then its extension
/// (`grove.toml` pairs with `grove.override.toml`). A name without a `.`
/// past its first character has no extension.
pub open spec fn override_name(name: Seq<char>) -> Seq<char> {
    let dot = last_dot(name);
    if dot <= 0 {
        name + ".override"@
    } else {
        name.subrange(0, dot) + ".override"@ + "."@ + name.subrange(dot + 1, name.len() as int)
    }
}

/// The override file that pairs with `path`, in the same directory.
pub open spec fn sibling_override(path: Seq<char>) -> Seq<char> {
    let parts = components(path);
    let name = if parts.len() > 0 {
        parts.last()
    } else {
        Seq::empty()
    };
    let directory = if parts.len() > 0 {
        parts.drop_last()
    } else {
        parts
    };
    render(is_absolute(path), directory.push(override_name(name)))
}

fn last_dot_of(chars: &Vec<char>) -> (d: Option<usize>)
    ensures
        match d {
            Some(i) => i as int == last_dot(chars@),
            None => last_dot(chars@) == -1,
        },
{
    proof {
        lemma_last_dot(chars@);
    }
    let mut k: usize = chars.len();
    assert(chars@.subrange(0, k as int) == chars@);
    while k > 0
        invariant
            k <= chars@.len(),
            last_dot(chars@) == last_dot(chars@.subrange(0, k as int)),
        decreases k,
    {
        let ghost prefix = chars@.subrange(0, k as int);
        assert(prefix.drop_last() == chars@.subrange(0, k - 1));
        if chars[k - 1] == '.' {
            return Some(k - 1);
        }
        k = k - 1;
    }
    None
}

pub fn sibling_override_path(path: &str) -> (out: String)
    ensures
        out@ == sibling_override(path@),
{
    let mut parts = path_components(path);
    let ghost all = parts.deep_view();
    let name = if parts.len() > 0 {
        match parts.pop() {
            Some(n) => n,
            None => String::new(),
        }
    } else {
        String::new()
    };
    assert(parts.deep_view() =~= if all.len() > 0 {
        all.drop_last()
    } else {
        all
    });
    let chars = chars_of(name.as_str());
    let dot = last_dot_of(&chars);
    proof {
        lemma_last_dot(chars@);
    }
    let mut file_name = String::new();
    let cut = match dot {
        Some(d) => d,
        None => 0,
    };
    if cut == 0 {
        push_str(&mut file_name, name.as_str());
        push_str(&mut file_name, ".override");
    } else {
        let count = chars.len();
        assert(cut < count);
        let next = cut + 1;
        let mut k: usize = 0;
        while k < cut
            invariant
                cut < chars@.len(),
                next == cut + 1,
                k <= cut,
                file_name@ == chars@.subrange(0, k as int),
            decreases cut - k,
        {
            crate::text::push_char(&mut file_name, chars[k]);
            k = k + 1;
        }
        push_str(&mut file_name, ".override");
        push_str(&mut file_name, ".");
        let ghost before = file_name@;
        let mut k: usize = next;
        while k < chars.len()
            invariant
                cut < chars@.len(),
                cut + 1 <= k <= chars@.len(),
                file_name@ == before + chars@.subrange(cut + 1, k as int),
            decreases chars@.len() - k,
        {
            crate::text::push_char(&mut file_name, chars[k]);
            k = k + 1;
            assert(file_name@ == before + chars@.subrange(cut + 1, k as int));
        }
    }
    let ghost directory = parts.deep_view();
    parts.push(file_name);
    assert(parts.deep_view() =~= directory.push(override_name(name@)));
    render_path(path_is_absolute(path), &parts)
}

/// `text: reason`, as a configuration error.
fn config_failure(text: &str, reason: &str) -> (e: AppError)
    ensures
        e matches AppError::ConfigError(m) && m@ == text@ + ": "@ + reason@,
{
    let mut m = String::from_str(text);
    push_str(&mut m, ": ");
    push_str(&mut m, reason);
    AppError::ConfigError(m)
}

/// The root `grove.toml`: the given file, else the nearest one found walking
/// up from the working directory. The nearest existing entry ends the
/// search, so a broken link or an unreadable file is reported rather than
/// passed over for a parent configuration.
pub fn locate<F: ConfigFiles>(files: &F, explicit: Option<&str>) -> (res: Result<String, AppError>)
    ensures
        res matches Err(e) ==> (e is ConfigError || e is Io),
        explicit matches Some(p) ==> (res is Ok || (res matches Err(AppError::ConfigError(m))
            && m@.len() >= p@.len() + 2 && m@.subrange(0, p@.len() as int + 2) == p@ + ": "@)),
{
    match explicit {
        Some(path) => {
            return match files.canonicalize(path) {
                Ok(p) => Ok(p),
                Err(reason) => {
                    let e = config_failure(path, reason.as_str());
                    proof {
                        reveal_strlit(": ");
                        let m = e->ConfigError_0@;
                        assert(m.subrange(0, path@.len() as int + 2) =~= path@ + ": "@);
                    }
                    Err(e)
                },
            };
        },
        None => {},
    }
    let start = match files.current_dir() {
        Ok(s) => s,
        Err(e) => return Err(AppError::Io(e.message())),
    };
    let parts = path_components(start.as_str());
    let absolute = path_is_absolute(start.as_str());
    let mut k: usize = parts.len();
    loop
        invariant
            k <= parts@.len(),
            explicit is None,
        decreases k,
    {
        let mut prefix: Vec<String> = Vec::new();
        let mut j: usize = 0;
        while j < k
            invariant
                j <= k <= parts@.len(),
            decreases k - j,
        {
            prefix.push(parts[j].clone());
            j = j + 1;
        }
        let directory = render_path(absolute, &prefix);
        let candidate = join_path(directory.as_str(), "grove.toml");
        match files.entry_exists(candidate.as_str()) {
            Ok(true) => {
                let resolved = match files.canonicalize(candidate.as_str()) {
                    Ok(r) => r,
                    Err(reason) => return Err(config_failure(candidate.as_str(), reason.as_str())),
                };
                if !files.is_file(resolved.as_str()) {
                    return Err(config_failure(candidate.as_str(), "not a regular file"));
                }
                return Ok(resolved);
            },
            Ok(false) => {},
            Err(reason) => return Err(config_failure(candidate.as_str(), reason.as_str())),
        }
        if k == 0 {
            break;
        }
        k = k - 1;
    }
    let mut m = String::from_str("grove.toml was not found in ");
    push_str(&mut m, start.as_str());
    push_str(&mut m, " or any parent directory");
    Err(AppError::ConfigError(m))
}

/// The directory holding a file, or the error that it has none.
pub fn parent_directory(path: &str) -> (res: Result<String, AppError>)
    ensures
        components(path@).len() > 0 ==> (res matches Ok(d) && d@ == render(
            is_absolute(path@),
            components(path@).drop_last(),
        )),
        components(path@).len() == 0 ==> (res matches Err(AppError::ConfigError(m)) && m@ == path@
            + " has no parent"@),
{
    let mut parts = path_components(path);
    if parts.len() == 0 {
        let mut m = String::from_str(path);
        push_str(&mut m, " has no parent");
        return Err(AppError::ConfigError(m));
    }
    let ghost all = parts.deep_view();
    let _ = parts.pop();
    assert(parts.deep_view() =~= all.drop_last());
    Ok(render_path(path_is_absolute(path), &parts))
}

/// A raw file is what decoding the table gives: its version, the files it
/// includes and its repository declarations, in order.
pub open spec fn decoded_from(raw: crate::config::file::RawConfigFile, table: Seq<(Seq<char>, ValueView)>) -> bool {
    &&& raw.version == crate::config::file::version_of(crate::config::value::lookup(table, "version"@))
    &&& crate::config::file::inclusion_texts(crate::config::value::lookup(table, crate::config::file::inclusion_key()))
        == Some(raw.included.deep_view())
    &&& crate::config::file::declares_all(raw.repositories@, crate::config::file::declarations(table))
}

/// The loaded file is what its text, as the file system gave it, decodes
/// to: with the override beside it merged in when the file system says one
/// is there, read where that override's path leads.
pub open spec fn file_read<F: ConfigFiles>(files: &F, f: LoadedConfigFile) -> bool {
    exists|text: String| #[trigger] files.holds_text(f.path@, Ok::<String, AppError>(text)) && (toml_document(text@) matches Ok(base) && {
        ||| files.finds_entry(sibling_override(f.path@), Ok::<bool, String>(false)) && decoded_from(f.raw, base)
        ||| exists|over: String, over_text: String|
            #[trigger] files.holds_text(over@, Ok::<String, AppError>(over_text)) && files.resolves_link(
                sibling_override(f.path@),
                Ok::<String, String>(over),
            ) && (toml_document(over_text@) matches Ok(overlay) && decoded_from(
                f.raw,
                crate::config::value::merge_table(base, overlay),
            ))
    })
}

/// The override paired with `path`, resolved and parsed, when one exists.
pub fn read_sibling_override<F: ConfigFiles>(files: &F, path: &str) -> (res: Result<
    Option<(String, Vec<(String, ConfigValue)>)>,
    AppError,
>)
    ensures
        res matches Ok(Some((_, table))) ==> unique_keys(table_view(table@)) && exists|text: Seq<char>|
            toml_document(text) == Ok::<Seq<(Seq<char>, ValueView)>, Seq<char>>(table_view(table@)),
        res matches Ok(Some((over, table))) ==> files.resolves_link(sibling_override(path@), Ok::<String, String>(over))
            && exists|text: String| #[trigger] files.holds_text(over@, Ok::<String, AppError>(text))
                && toml_document(text@) == Ok::<Seq<(Seq<char>, ValueView)>, Seq<char>>(table_view(table@)),
        res == Ok::<Option<(String, Vec<(String, ConfigValue)>)>, AppError>(None) ==> files.finds_entry(
            sibling_override(path@),
            Ok::<bool, String>(false),
        ),
{
    let override_path = sibling_override_path(path);
    match files.entry_exists(override_path.as_str()) {
        Ok(true) => {
            let resolved = match files.canonicalize(override_path.as_str()) {
                Ok(r) => r,
                Err(reason) => return Err(config_failure(override_path.as_str(), reason.as_str())),
            };
            if !files.is_file(resolved.as_str()) {
                return Err(config_failure(override_path.as_str(), "not a regular file"));
            }
            let text = match files.read_text(resolved.as_str()) {
                Ok(t) => t,
                Err(e) => return Err(e),
            };
            match parse_table(text.as_str(), resolved.as_str()) {
                Ok(table) => {
                    assert(toml_document(text@) == Ok::<Seq<(Seq<char>, ValueView)>, Seq<char>>(
                        table_view(table@),
                    ));
                    assert(files.holds_text(resolved@, Ok::<String, AppError>(text)));
                    Ok(Some((resolved, table)))
                },
                Err(e) => Err(e),
            }
        },
        Ok(false) => Ok(None),
        Err(reason) => Err(config_failure(override_path.as_str(), reason.as_str())),
    }
}

/// Loads one file: its table, with its override merged in after the override
/// alone passed the schema (so an error in the override is reported against
/// the override), then decoded.
pub fn load_one<F: ConfigFiles>(files: &F, path: &str) -> (res: Result<LoadedConfigFile, AppError>)
    ensures
        res matches Ok(f) ==> f.path@ == path@ && f.directory@ == render(
            is_absolute(path@),
            components(path@).drop_last(),
        ),
        components(path@).len() == 0 ==> (res matches Err(AppError::ConfigError(m)) && m@ == path@
            + " has no parent"@),
        res matches Ok(f) ==> file_read(files, f),
{
    let directory = match parent_directory(path) {
        Ok(d) => d,
        Err(e) => return Err(e),
    };
    let text = match files.read_text(path) {
        Ok(t) => t,
        Err(e) => return Err(e),
    };
    let mut table = match parse_table(text.as_str(), path) {
        Ok(t) => t,
        Err(e) => return Err(e),
    };
    let ghost base = table_view(table@);
    let overriding = read_sibling_override(files, path);
    let ghost overriding_seen = overriding;
    match overriding {
        Ok(Some((override_path, override_table))) => {
            let (copy, override_table) = crate::config::value::duplicate_entries(override_table);
            match decode(copy, override_path.as_str()) {
                Ok(_) => {},
                Err(e) => return Err(e),
            }
            merge_tables(&mut table, override_table);
        },
        Ok(None) => {},
        Err(e) => return Err(e),
    }
    match decode(table, path) {
        Ok(raw) => {
            let f = LoadedConfigFile { path: String::from_str(path), directory, raw };
            proof {
                assert(files.holds_text(f.path@, Ok::<String, AppError>(text)));
                match overriding_seen {
                    Ok(Some((over, over_table))) => {
                        let over_text = choose|t: String| #[trigger] files.holds_text(over@, Ok::<String, AppError>(t))
                            && toml_document(t@) == Ok::<Seq<(Seq<char>, ValueView)>, Seq<char>>(table_view(over_table@));
                        assert(files.holds_text(over@, Ok::<String, AppError>(over_text)));
                        assert(decoded_from(f.raw, crate::config::value::merge_table(base, table_view(over_table@))));
                    },
                    _ => {
                        assert(decoded_from(f.raw, base));
                    },
                }
            }
            Ok(f)
        },
        Err(e) => Err(e),
    }
}

pub open spec fn absolute_entry_text(entry: Seq<char>) -> Seq<char> {
    entry + ": include paths must be relative"@
}

/// The file an entry of the root's list of further files names: relative to
/// the root's directory, existing, links resolved.
pub fn resolve_included<F: ConfigFiles>(files: &F, base: &str, entry: &str) -> (res: Result<
    String,
    AppError,
>)
    ensures
        is_absolute(entry@) ==> (res matches Err(AppError::ConfigError(m)) && m@
            == absolute_entry_text(entry@)),
        res matches Ok(p) ==> files.resolves_link(join(base@, entry@), Ok::<String, String>(p)),
{
    if path_is_absolute(entry) {
        let mut m = String::from_str(entry);
        push_str(&mut m, ": include paths must be relative");
        return Err(AppError::ConfigError(m));
    }
    let candidate = join_path(base, entry);
    if !files.is_file(candidate.as_str()) {
        return Err(config_failure(candidate.as_str(), "include target does not exist"));
    }
    match files.canonicalize(candidate.as_str()) {
        Ok(p) => Ok(p),
        Err(reason) => Err(AppError::Io(reason)),
    }
}

fn contains_text(items: &Vec<String>, s: &str) -> (res: bool)
    ensures
        res == exists|j: int| 0 <= j < items@.len() && (#[trigger] items@[j])@ == s@,
{
    let mut i: usize = 0;
    while i < items.len()
        invariant
            i <= items@.len(),
            forall|j: int| 0 <= j < i ==> (#[trigger] items@[j])@ != s@,
        decreases items@.len() - i,
    {
        if crate::app::sync::prepare::same_str(items[i].as_str(), s) {
            return true;
        }
        i = i + 1;
    }
    false
}

/// File `i` of the tree is where the root's `i`-th inclusion, below the
/// root's directory, leads once links are followed.
pub open spec fn included_at<F: ConfigFiles>(files: &F, root: LoadedConfigFile, i: int, f: LoadedConfigFile) -> bool {
    exists|p: String| #[trigger] files.resolves_link(join(root.directory@, root.raw.included@[i - 1]@), Ok::<String, String>(p))
        && p@ == f.path@
}

/// The root file and the files it includes. Every further file must stay
/// below the root's directory, occur once, and include nothing itself.
pub fn load_tree<F: ConfigFiles>(files: &F, root_path: &str) -> (res: Result<LoadedConfigTree, AppError>)
    ensures
        res matches Ok(t) ==> t.files@.len() >= 1 && t.root_path == t.files@[0].path,
        res matches Ok(t) ==> forall|i: int|
            1 <= i < t.files@.len() ==> crate::paths::starts_with(
                (#[trigger] t.files@[i]).path@,
                t.root_directory@,
            ) && t.files@[i].raw.included@.len() == 0,
        res matches Ok(t) ==> t.files@.len() == t.files@[0].raw.included@.len() + 1,
        res matches Ok(t) ==> forall|a: int, b: int|
            0 <= a < b < t.files@.len() ==> (#[trigger] t.files@[a]).path@ != (
            #[trigger] t.files@[b]).path@,
        res matches Ok(t) ==> exists|p: String| #[trigger] files.resolves_link(root_path@, Ok::<String, String>(p))
            && p@ == t.root_path@,
        res matches Ok(t) ==> forall|i: int| 0 <= i < t.files@.len() ==> file_read(files, #[trigger] t.files@[i]),
        res matches Ok(t) ==> forall|i: int|
            1 <= i < t.files@.len() ==> included_at(files, t.files@[0], i, #[trigger] t.files@[i]),
{
    let ghost asked_root = root_path@;
    let canonicalized = files.canonicalize(root_path);
    let ghost canonical_seen = canonicalized;
    let canonical = match canonicalized {
        Ok(p) => p,
        Err(reason) => return Err(AppError::Io(reason)),
    };
    let root = match load_one(files, canonical.as_str()) {
        Ok(r) => r,
        Err(e) => return Err(e),
    };
    let root_directory = match parent_directory(root.path.as_str()) {
        Ok(d) => d,
        Err(e) => return Err(e),
    };
    let mut seen: Vec<String> = Vec::new();
    seen.push(root.path.clone());
    let root_path = root.path.clone();
    let ghost root_view = root;
    let mut all: Vec<LoadedConfigFile> = Vec::new();
    all.push(root);
    let mut i: usize = 0;
    while i < all[0].raw.included.len()
        invariant
            all@.len() >= 1,
            all@[0] == root_view,
            root_view.path == root_path,
            i <= root_view.raw.included@.len(),
            forall|k: int|
                1 <= k < all@.len() ==> crate::paths::starts_with(
                    (#[trigger] all@[k]).path@,
                    root_directory@,
                ) && all@[k].raw.included@.len() == 0,
            all@.len() == i + 1,
            seen@.len() == all@.len(),
            forall|k: int| 0 <= k < seen@.len() ==> (#[trigger] seen@[k])@ == all@[k].path@,
            forall|a: int, b: int|
                0 <= a < b < all@.len() ==> (#[trigger] all@[a]).path@ != (#[trigger] all@[b]).path@,
            forall|k: int| 0 <= k < all@.len() ==> file_read(files, #[trigger] all@[k]),
            forall|k: int| 1 <= k < all@.len() ==> included_at(files, root_view, k, #[trigger] all@[k]),
        decreases root_view.raw.included@.len() - i,
    {
        let child_path = match resolve_included(
            files,
            all[0].directory.as_str(),
            all[0].raw.included[i].as_str(),
        ) {
            Ok(p) => p,
            Err(e) => return Err(e),
        };
        if !path_starts_with(child_path.as_str(), root_directory.as_str()) {
            let mut m = String::from_str(all[0].raw.included[i].as_str());
            push_str(&mut m, ": include leaves the grove root");
            return Err(AppError::ConfigError(m));
        }
        if contains_text(&seen, child_path.as_str()) {
            return Err(config_failure(child_path.as_str(), "duplicate configuration file"));
        }
        seen.push(child_path.clone());
        let child = match load_one(files, child_path.as_str()) {
            Ok(c) => c,
            Err(e) => return Err(e),
        };
        if child.raw.included.len() > 0 {
            return Err(config_failure(child.path.as_str(), "nested includes are not allowed"));
        }
        assert forall|k: int| 0 <= k < all@.len() implies all@[k].path@ != child.path@ by {
            assert(seen@[k]@ == all@[k].path@);
        }
        assert(files.resolves_link(
            join(root_view.directory@, root_view.raw.included@[(i + 1) - 1]@),
            Ok::<String, String>(child_path),
        ));
        assert(included_at(files, root_view, i + 1, child));
        all.push(child);
        i = i + 1;
    }
    assert(canonical_seen == Ok::<String, String>(canonical));
    assert(files.resolves_link(asked_root, Ok::<String, String>(canonical)));
    Ok(LoadedConfigTree { root_path, root_directory, files: all })
}

/// The path of entry `j` of the file: the one it names, or its default.
pub open spec fn entry_path(file: LoadedConfigFile, j: int) -> Seq<char> {
    match file.raw.repositories@[j].repository.path {
        Some(p) => p@,
        None => file.raw.repositories@[j].default_path@,
    }
}

/// `lexical` is where entry `j` of the file lies before links are followed:
/// its relative path below the file's directory, normalized.
pub open spec fn resolves_entry(file: LoadedConfigFile, j: int, lexical: Seq<char>) -> bool {
    &&& !is_absolute(entry_path(file, j))
    &&& lexical == normalize(join(file.directory@, entry_path(file, j)))
}

/// Where every existing relative repository path of the tree leads on disk.
pub fn collect_resolutions<F: ConfigFiles>(files: &F, tree: &LoadedConfigTree) -> (resolutions: Vec<
    PathResolution,
>)
    ensures
        forall|k: int|
            0 <= k < resolutions@.len() ==> exists|i: int, j: int|
                0 <= i < tree.files@.len() && 0 <= j < tree.files@[i].raw.repositories@.len()
                    && resolves_entry(tree.files@[i], j, (#[trigger] resolutions@[k]).lexical@),
{
    let mut resolutions: Vec<PathResolution> = Vec::new();
    let ghost mut from: Seq<(int, int)> = Seq::empty();
    let mut i: usize = 0;
    while i < tree.files.len()
        invariant
            i <= tree.files@.len(),
            from.len() == resolutions@.len(),
            forall|k: int|
                0 <= k < resolutions@.len() ==> 0 <= (#[trigger] from[k]).0 < tree.files@.len()
                    && 0 <= from[k].1 < tree.files@[from[k].0].raw.repositories@.len()
                    && resolves_entry(tree.files@[from[k].0], from[k].1, resolutions@[k].lexical@),
        decreases tree.files@.len() - i,
    {
        let file = &tree.files[i];
        let mut j: usize = 0;
        while j < file.raw.repositories.len()
            invariant
                i < tree.files@.len(),
                *file == tree.files@[i as int],
                j <= file.raw.repositories@.len(),
                from.len() == resolutions@.len(),
                forall|k: int|
                    0 <= k < resolutions@.len() ==> 0 <= (#[trigger] from[k]).0 < tree.files@.len()
                        && 0 <= from[k].1 < tree.files@[from[k].0].raw.repositories@.len()
                        && resolves_entry(tree.files@[from[k].0], from[k].1, resolutions@[k].lexical@),
            decreases file.raw.repositories@.len() - j,
        {
            let entry = &file.raw.repositories[j];
            let path = match &entry.repository.path {
                Some(p) => p.as_str(),
                None => entry.default_path.as_str(),
            };
            if !path_is_absolute(path) {
                let joined = join_path(file.directory.as_str(), path);
                let lexical = normalize_lexically(joined.as_str());
                match files.resolve_operational(lexical.as_str(), tree.root_directory.as_str()) {
                    Some(outcome) => {
                        resolutions.push(PathResolution { lexical, outcome });
                        proof {
                            from = from.push((i as int, j as int));
                        }
                    },
                    None => {},
                }
            }
            j = j + 1;
        }
        i = i + 1;
    }
    assert forall|k: int| 0 <= k < resolutions@.len() implies exists|a: int, b: int|
        0 <= a < tree.files@.len() && 0 <= b < tree.files@[a].raw.repositories@.len()
            && resolves_entry(tree.files@[a], b, (#[trigger] resolutions@[k]).lexical@) by {
        let (a, b) = from[k];
        assert(resolves_entry(tree.files@[a], b, resolutions@[k].lexical@));
    }
    resolutions
}

/// The repositories are what a valid configuration tree resolves to, one
/// per declaration, in declaration order.
pub open spec fn resolved_from_valid_tree(repositories: Seq<RepositoryDefinition>) -> bool {
    exists|tree: LoadedConfigTree, resolutions: Seq<PathResolution>|
        #![trigger crate::config::validation::tree_valid(tree, resolutions)]
        {
            let flat = crate::config::validation::flat_entries(tree.files@);
            &&& crate::config::validation::tree_valid(tree, resolutions)
            &&& repositories.len() == flat.len()
            &&& forall|k: int|
                0 <= k < flat.len() ==> crate::config::validation::resolves_to(
                    #[trigger] repositories[k],
                    flat[k].0,
                    flat[k].1,
                    tree.root_directory@,
                    resolutions,
                )
        }
}

/// What a valid configuration tree resolves to has pairwise distinct names
/// and pairwise distinct paths, and no repository path lies inside another.
pub proof fn law_loaded_repositories_unique(repositories: Seq<RepositoryDefinition>)
    requires
        resolved_from_valid_tree(repositories),
    ensures
        forall|a: int, b: int|
            0 <= a < b < repositories.len() ==> (#[trigger] repositories[a]).name_view()
                != (#[trigger] repositories[b]).name_view() && repositories[a].path_view()
                != repositories[b].path_view() && !crate::paths::starts_with(
                repositories[a].path_view(),
                repositories[b].path_view(),
            ) && !crate::paths::starts_with(repositories[b].path_view(), repositories[a].path_view()),
{
    let (tree, resolutions) = choose|tree: LoadedConfigTree, resolutions: Seq<PathResolution>|
        #![trigger crate::config::validation::tree_valid(tree, resolutions)]
        {
            let flat = crate::config::validation::flat_entries(tree.files@);
            &&& crate::config::validation::tree_valid(tree, resolutions)
            &&& repositories.len() == flat.len()
            &&& forall|k: int|
                0 <= k < flat.len() ==> crate::config::validation::resolves_to(
                    #[trigger] repositories[k],
                    flat[k].0,
                    flat[k].1,
                    tree.root_directory@,
                    resolutions,
                )
        };
    let flat = crate::config::validation::flat_entries(tree.files@);
    let paths = crate::config::validation::flat_paths(flat, resolutions);
    assert forall|a: int, b: int| 0 <= a < b < repositories.len() implies (#[trigger] repositories[a]).name_view()
        != (#[trigger] repositories[b]).name_view() && repositories[a].path_view()
        != repositories[b].path_view() && !crate::paths::starts_with(
        repositories[a].path_view(),
        repositories[b].path_view(),
    ) && !crate::paths::starts_with(repositories[b].path_view(), repositories[a].path_view()) by {
        assert(crate::config::validation::resolves_to(repositories[a], flat[a].0, flat[a].1, tree.root_directory@, resolutions));
        assert(crate::config::validation::resolves_to(repositories[b], flat[b].0, flat[b].1, tree.root_directory@, resolutions));
        assert(flat[a].1.name@ != flat[b].1.name@);
        assert(paths[a] == repositories[a].path_view());
        assert(paths[b] == repositories[b].path_view());
        assert(!crate::paths::starts_with(paths[a], paths[b]));
    }
}

/// Loads the configuration: locates the root file, loads the tree of files,
/// and resolves it into validated repository definitions. Whatever the file
/// system holds, a returned configuration is one the resolution accepted.
pub fn load<F: ConfigFiles>(files: &F, explicit: Option<&str>) -> (res: Result<ResolvedConfig, AppError>)
    ensures
        res matches Ok(c) ==> exists|tree: LoadedConfigTree, resolutions: Seq<PathResolution>|
            #![trigger crate::config::validation::tree_valid(tree, resolutions)]
            {
                let flat = crate::config::validation::flat_entries(tree.files@);
                &&& crate::config::validation::tree_valid(tree, resolutions)
                &&& forall|i: int| 0 <= i < tree.files@.len() ==> file_read(files, #[trigger] tree.files@[i])
                &&& forall|i: int|
                    1 <= i < tree.files@.len() ==> included_at(files, tree.files@[0], i, #[trigger] tree.files@[i])
                &&& c.root_path == tree.root_path
                &&& c.repositories@.len() == flat.len()
                &&& forall|k: int|
                    0 <= k < flat.len() ==> crate::config::validation::resolves_to(
                        #[trigger] c.repositories@[k],
                        flat[k].0,
                        flat[k].1,
                        tree.root_directory@,
                        resolutions,
                    )
            },
        res matches Ok(c) ==> resolved_from_valid_tree(c.repositories@),
{
    let root_path = match locate(files, explicit) {
        Ok(p) => p,
        Err(e) => return Err(e),
    };
    let tree = match load_tree(files, root_path.as_str()) {
        Ok(t) => t,
        Err(e) => return Err(e),
    };
    let resolutions = collect_resolutions(files, &tree);
    let ghost observed = tree;
    let result = resolve(tree, &resolutions);
    proof {
        if result is Ok {
            assert(crate::config::validation::tree_valid(observed, resolutions@));
            assert(result->Ok_0.repositories@.len() == crate::config::validation::flat_entries(
                observed.files@,
            ).len());
            assert(forall|k: int|
                0 <= k < crate::config::validation::flat_entries(observed.files@).len()
                    ==> crate::config::validation::resolves_to(
                    #[trigger] result->Ok_0.repositories@[k],
                    crate::config::validation::flat_entries(observed.files@)[k].0,
                    crate::config::validation::flat_entries(observed.files@)[k].1,
                    observed.root_directory@,
                    resolutions@,
                ));
        }
    }
    result
}

} // verus!
