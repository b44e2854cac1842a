//! Resolution of the raw configuration tree into validated repository
//! definitions.

use vstd::prelude::*;
use crate::config::file::{RawRepositoryEntry};
use crate::config::resolved::{GroupDirectory, ResolvedConfig};
use crate::config::tree::{LoadedConfigFile, LoadedConfigTree};
use crate::error::AppError;
use crate::paths::{
    is_absolute, join, normalize, path_is_absolute, path_starts_with, relative_display,
    relative_display_path, starts_with, join_path, normalize_lexically,
};
use crate::repositories::{
    valid_repository_name, valid_token, BranchName, RemoteUrl, RepositoryDefinition,
    RepositoryName,
};
use crate::text::{chars_of, decimal, push_decimal, push_str};

verus! {

/// `char::is_whitespace`: the Unicode `White_Space` property.
pub open spec fn is_whitespace(c: char) -> bool {
    let u = c as u32;
    (0x09 <= u && u <= 0x0d) || u == 0x20 || u == 0x85 || u == 0xa0 || u == 0x1680 || (0x2000
        <= u && u <= 0x200a) || u == 0x2028 || u == 0x2029 || u == 0x202f || u == 0x205f || u
        == 0x3000
}

/// Whether `s.trim()` is empty.
pub open spec fn blank(s: Seq<char>) -> bool {
    forall|i: int| 0 <= i < s.len() ==> is_whitespace(#[trigger] s[i])
}

pub fn char_is_whitespace(c: char) -> (res: bool)
    ensures
        res == is_whitespace(c),
{
    let u = c as u32;
    (0x09 <= u && u <= 0x0d) || u == 0x20 || u == 0x85 || u == 0xa0 || u == 0x1680 || (0x2000
        <= u && u <= 0x200a) || u == 0x2028 || u == 0x2029 || u == 0x202f || u == 0x205f || u
        == 0x3000
}

/// Whether a text is empty once surrounding whitespace is trimmed.
pub fn is_blank(s: &str) -> (res: bool)
    ensures
        res == blank(s@),
{
    let chars = chars_of(s);
    let mut i: usize = 0;
    while i < chars.len()
        invariant
            chars@ == s@,
            i <= chars@.len(),
            forall|j: int| 0 <= j < i ==> is_whitespace(#[trigger] chars@[j]),
        decreases chars@.len() - i,
    {
        if !char_is_whitespace(chars[i]) {
            return false;
        }
        i = i + 1;
    }
    true
}

/// How an existing path resolved against the file system once symbolic links
/// were followed.
#[derive(Debug, Clone)]
pub enum ResolutionError {
    /// Following links led outside the grove root.
    OutsideRoot,
    /// The file system could not be read; the message says why.
    Io(String),
}

/// The file-system resolution of one lexical repository path.
#[derive(Debug)]
pub struct PathResolution {
    pub lexical: String,
    pub outcome: Result<String, ResolutionError>,
}

/// The first recorded resolution of `key`, if any.
pub open spec fn lookup(resolutions: Seq<PathResolution>, key: Seq<char>) -> Option<
    Result<String, ResolutionError>,
>
    decreases resolutions.len(),
{
    if resolutions.len() == 0 {
        None
    } else if resolutions[0].lexical@ == key {
        Some(resolutions[0].outcome)
    } else {
        lookup(resolutions.drop_first(), key)
    }
}

fn copy_resolution(r: &Result<String, ResolutionError>) -> (c: Result<String, ResolutionError>)
    ensures
        c == *r,
{
    match r {
        Ok(p) => Ok(p.clone()),
        Err(ResolutionError::OutsideRoot) => Err(ResolutionError::OutsideRoot),
        Err(ResolutionError::Io(m)) => Err(ResolutionError::Io(m.clone())),
    }
}

/// Looks up the resolution recorded for a lexical path.
pub fn find_resolution(resolutions: &Vec<PathResolution>, key: &str) -> (res: Option<
    Result<String, ResolutionError>,
>)
    ensures
        res == lookup(resolutions@, key@),
{
    let mut i: usize = 0;
    assert(resolutions@.skip(0) =~= resolutions@);
    while i < resolutions.len()
        invariant
            i <= resolutions@.len(),
            lookup(resolutions@, key@) == lookup(resolutions@.skip(i as int), key@),
        decreases resolutions@.len() - i,
    {
        assert(resolutions@.skip(i as int).drop_first() =~= resolutions@.skip(i + 1));
        if resolutions[i].lexical == String::from_str(key) {
            return Some(copy_resolution(&resolutions[i].outcome));
        }
        i = i + 1;
    }
    None
}

pub open spec fn msg_must_be_relative(source: Seq<char>, name: Seq<char>) -> Seq<char> {
    source + ": repository '"@ + name + "' path must be relative"@
}

pub open spec fn msg_leaves_root(source: Seq<char>, name: Seq<char>) -> Seq<char> {
    source + ": repository '"@ + name + "' path leaves the grove root"@
}

/// The lexical location of a repository path declared in a file living in
/// `base`: its normalized join.
pub open spec fn lexical_path(base: Seq<char>, path: Seq<char>) -> Seq<char> {
    normalize(join(base, path))
}

/// Resolves a repository path lexically: it must be relative, and once
/// joined to `base` and normalized it must stay below `root`. Returns the
/// normalized path and its display form relative to `root`.
pub fn resolve_repository_path(base: &str, path: &str, root: &str, source: &str, name: &str) -> (res:
    Result<(String, String), AppError>)
    ensures
        is_absolute(path@) ==> (res matches Err(AppError::ConfigError(m)) && m@
            == msg_must_be_relative(source@, name@)),
        !is_absolute(path@) && !starts_with(lexical_path(base@, path@), root@) ==> (res matches Err(
            AppError::ConfigError(m),
        ) && m@ == msg_leaves_root(source@, name@)),
        !is_absolute(path@) && starts_with(lexical_path(base@, path@), root@) ==> (res matches Ok(
            (p, d),
        ) && p@ == lexical_path(base@, path@) && d@ == relative_display(
            root@,
            lexical_path(base@, path@),
        )),
{
    if path_is_absolute(path) {
        let mut m = String::from_str(source);
        push_str(&mut m, ": repository '");
        push_str(&mut m, name);
        push_str(&mut m, "' path must be relative");
        return Err(AppError::ConfigError(m));
    }
    let joined = join_path(base, path);
    let lexical = normalize_lexically(joined.as_str());
    if !path_starts_with(lexical.as_str(), root) {
        let mut m = String::from_str(source);
        push_str(&mut m, ": repository '");
        push_str(&mut m, name);
        push_str(&mut m, "' path leaves the grove root");
        return Err(AppError::ConfigError(m));
    }
    let display = relative_display_path(root, lexical.as_str());
    Ok((lexical, display))
}


pub open spec fn msg_unsupported_version(source: Seq<char>, version: u32) -> Seq<char> {
    source + ": unsupported config version "@ + decimal(version as nat)
}

pub open spec fn msg_missing_version(source: Seq<char>) -> Seq<char> {
    source + ": missing required field 'version'"@
}

/// The configuration versions understood: 1, which `gv init` writes, and 2.
pub open spec fn supported_version(v: u32) -> bool {
    v == 1 || v == 2
}

/// Configuration versions 1 and 2 are understood; any other is refused.
pub fn validate_version(version: Option<u32>, source: &str) -> (res: Result<(), AppError>)
    ensures
        version matches Some(v) ==> (supported_version(v) <==> res is Ok),
        version matches Some(v) ==> (!supported_version(v) ==> (res matches Err(AppError::ConfigError(m)) && m@
            == msg_unsupported_version(source@, v))),
        version is None ==> (res matches Err(AppError::ConfigError(m)) && m@ == msg_missing_version(
            source@,
        )),
{
    match version {
        Some(1) | Some(2) => Ok(()),
        Some(v) => {
            let mut m = String::from_str(source);
            push_str(&mut m, ": unsupported config version ");
            push_decimal(&mut m, v as u64);
            Err(AppError::ConfigError(m))
        },
        None => {
            let mut m = String::from_str(source);
            push_str(&mut m, ": missing required field 'version'");
            Err(AppError::ConfigError(m))
        },
    }
}

pub open spec fn msg_missing_field(source: Seq<char>, field: Seq<char>) -> Seq<char> {
    source + ": missing required field '"@ + field + "'"@
}

pub open spec fn msg_empty_field(source: Seq<char>, field: Seq<char>) -> Seq<char> {
    source + ": field '"@ + field + "' must not be empty"@
}

/// A field that must be present and not blank.
pub fn required_field(value: Option<&str>, source: &str, field: &str) -> (res: Result<
    String,
    AppError,
>)
    ensures
        value is None ==> (res matches Err(AppError::ConfigError(m)) && m@ == msg_missing_field(
            source@,
            field@,
        )),
        value matches Some(v) ==> (blank(v@) ==> (res matches Err(AppError::ConfigError(m)) && m@
            == msg_empty_field(source@, field@))),
        value matches Some(v) ==> (!blank(v@) ==> (res matches Ok(r) && r@ == v@)),
{
    match value {
        None => {
            let mut m = String::from_str(source);
            push_str(&mut m, ": missing required field '");
            push_str(&mut m, field);
            push_str(&mut m, "'");
            Err(AppError::ConfigError(m))
        },
        Some(v) => {
            if is_blank(v) {
                let mut m = String::from_str(source);
                push_str(&mut m, ": field '");
                push_str(&mut m, field);
                push_str(&mut m, "' must not be empty");
                Err(AppError::ConfigError(m))
            } else {
                Ok(String::from_str(v))
            }
        },
    }
}

/// Compares two texts.
pub fn same_text(a: &str, b: &str) -> (res: bool)
    ensures
        res == (a@ == b@),
{
    String::from_str(a) == String::from_str(b)
}

/// The path text an entry declares, or its default.
pub open spec fn entry_path_text(e: RawRepositoryEntry) -> Seq<char> {
    match e.repository.path {
        Some(p) => p@,
        None => e.default_path@,
    }
}

/// Where a lexical path leads once the recorded file-system resolution, if
/// any, is applied.
pub open spec fn operational_path(
    lexical: Seq<char>,
    resolutions: Seq<PathResolution>,
) -> Seq<char> {
    match lookup(resolutions, lexical) {
        Some(Ok(p)) => p@,
        _ => lexical,
    }
}

pub open spec fn entry_lexical(f: LoadedConfigFile, e: RawRepositoryEntry) -> Seq<char> {
    lexical_path(f.directory@, entry_path_text(e))
}

/// Every check one repository entry must pass.
pub open spec fn entry_ok(
    f: LoadedConfigFile,
    e: RawRepositoryEntry,
    root_dir: Seq<char>,
    resolutions: Seq<PathResolution>,
) -> bool {
    &&& (e.repository.path matches Some(p) ==> !blank(p@))
    &&& (e.repository.url matches Some(u) && !blank(u@) && valid_token(u@))
    &&& valid_repository_name(e.name@)
    &&& !is_absolute(entry_path_text(e))
    &&& starts_with(entry_lexical(f, e), root_dir)
    &&& !(lookup(resolutions, entry_lexical(f, e)) matches Some(Err(_)))
    &&& (e.repository.default_branch matches Some(b) ==> valid_token(b@))
}

/// The definition a valid entry resolves to.
pub open spec fn resolves_to(
    d: RepositoryDefinition,
    f: LoadedConfigFile,
    e: RawRepositoryEntry,
    root_dir: Seq<char>,
    resolutions: Seq<PathResolution>,
) -> bool {
    &&& d.name_view() == e.name@
    &&& d.path_view() == operational_path(entry_lexical(f, e), resolutions)
    &&& d.display_path_view() == relative_display(root_dir, entry_lexical(f, e))
    &&& (e.repository.url matches Some(u) && d.url_view() == u@)
    &&& d.default_branch_view() == (match e.repository.default_branch {
        Some(b) => Some(b@),
        None => None,
    })
    &&& d.source_config_view() == f.path@
    &&& d.root_view() == root_dir
}

fn field_label(field: &str, suffix: &str) -> (s: String)
    ensures
        s@ == field@ + suffix@,
{
    let mut s = String::from_str(field);
    push_str(&mut s, suffix);
    s
}

/// Validates one repository entry of a file and resolves it to a definition.
pub fn resolve_entry(
    f: &LoadedConfigFile,
    e: &RawRepositoryEntry,
    root_dir: &str,
    resolutions: &Vec<PathResolution>,
) -> (res: Result<RepositoryDefinition, AppError>)
    ensures
        res is Ok <==> entry_ok(*f, *e, root_dir@, resolutions@),
        res matches Ok(d) ==> resolves_to(d, *f, *e, root_dir@, resolutions@),
        res matches Err(err) ==> (err is ConfigError || err is Io),
{
    let source = f.path.as_str();
    let path_text: String = match &e.repository.path {
        Some(p) => {
            let label = field_label(e.field.as_str(), ".path");
            required_field(Some(p.as_str()), source, label.as_str())?
        },
        None => e.default_path.clone(),
    };
    let url_label = field_label(e.field.as_str(), ".url");
    let url_text = match &e.repository.url {
        Some(u) => required_field(Some(u.as_str()), source, url_label.as_str())?,
        None => required_field(None, source, url_label.as_str())?,
    };
    let name = match RepositoryName::new(e.name.as_str()) {
        Ok(n) => n,
        Err(err) => {
            let mut m = String::from_str(source);
            push_str(&mut m, ": ");
            push_str(&mut m, err.message().as_str());
            return Err(AppError::ConfigError(m));
        },
    };
    let (lexical, display) = resolve_repository_path(
        f.directory.as_str(),
        path_text.as_str(),
        root_dir,
        source,
        e.name.as_str(),
    )?;
    let resolved = match find_resolution(resolutions, lexical.as_str()) {
        None => lexical,
        Some(Ok(p)) => p,
        Some(Err(ResolutionError::OutsideRoot)) => {
            let mut m = String::from_str(source);
            push_str(&mut m, ": repository '");
            push_str(&mut m, e.name.as_str());
            push_str(&mut m, "' path leaves the grove root");
            return Err(AppError::ConfigError(m));
        },
        Some(Err(ResolutionError::Io(m))) => {
            return Err(AppError::Io(m));
        },
    };
    let default_branch = match &e.repository.default_branch {
        None => None,
        Some(b) => match BranchName::new(b.as_str()) {
            Ok(b) => Some(b),
            Err(err) => {
                let mut m = String::from_str(source);
                push_str(&mut m, ": default_branch: ");
                push_str(&mut m, err.message().as_str());
                return Err(AppError::ConfigError(m));
            },
        },
    };
    let url = match RemoteUrl::new(url_text.as_str()) {
        Ok(u) => u,
        Err(_) => {
            let mut m = String::from_str(source);
            push_str(&mut m, ": repository '");
            push_str(&mut m, e.name.as_str());
            push_str(&mut m, "' has an invalid URL");
            return Err(AppError::ConfigError(m));
        },
    };
    Ok(
        RepositoryDefinition::new(
            name,
            resolved,
            display,
            url,
            default_branch,
            f.path.clone(),
            String::from_str(root_dir),
        ),
    )
}


pub open spec fn msg_nested(left: Seq<char>, right: Seq<char>) -> Seq<char> {
    "repository paths must not be nested: '"@ + left + "' and '"@ + right + "'"@
}

/// No repository path lies inside another.
pub open spec fn unnested(paths: Seq<Seq<char>>) -> bool {
    forall|a: int, b: int|
        0 <= a < b < paths.len() ==> !starts_with(#[trigger] paths[a], #[trigger] paths[b])
            && !starts_with(paths[b], paths[a])
}

pub open spec fn definition_paths(repositories: Seq<RepositoryDefinition>) -> Seq<Seq<char>> {
    repositories.map_values(|d: RepositoryDefinition| d.path_view())
}

/// Rejects configurations in which one repository path contains another.
pub fn validate_no_nested_repository_paths(repositories: &[RepositoryDefinition]) -> (res: Result<
    (),
    AppError,
>)
    ensures
        res is Ok <==> unnested(definition_paths(repositories@)),
        res matches Err(e) ==> e is ConfigError,
        res matches Err(AppError::ConfigError(m)) ==> exists|a: int, b: int|
            0 <= a < b < repositories@.len() && m@ == msg_nested(
                #[trigger] definition_paths(repositories@)[a],
                #[trigger] definition_paths(repositories@)[b],
            ),
{
    let ghost paths = definition_paths(repositories@);
    let mut i: usize = 0;
    while i < repositories.len()
        invariant
            paths == definition_paths(repositories@),
            i <= repositories@.len(),
            forall|a: int, b: int|
                0 <= a < i && a < b < paths.len() ==> !starts_with(#[trigger] paths[a], #[trigger] paths[b])
                    && !starts_with(paths[b], paths[a]),
        decreases repositories@.len() - i,
    {
        let mut j: usize = i + 1;
        while j < repositories.len()
            invariant
                paths == definition_paths(repositories@),
                i < repositories@.len(),
                i + 1 <= j <= repositories@.len(),
                forall|a: int, b: int|
                    0 <= a < i && a < b < paths.len() ==> !starts_with(#[trigger] paths[a], #[trigger] paths[b])
                        && !starts_with(paths[b], paths[a]),
                forall|b: int|
                    i < b < j ==> !starts_with(paths[i as int], #[trigger] paths[b])
                        && !starts_with(paths[b], paths[i as int]),
            decreases repositories@.len() - j,
        {
            let left = repositories[i].path();
            let right = repositories[j].path();
            if path_starts_with(left, right) || path_starts_with(right, left) {
                let mut m = String::new();
                push_str(&mut m, "repository paths must not be nested: '");
                push_str(&mut m, left);
                push_str(&mut m, "' and '");
                push_str(&mut m, right);
                push_str(&mut m, "'");
                assert(paths[i as int] == left@ && paths[j as int] == right@);
                assert(m@ == msg_nested(paths[i as int], paths[j as int]));
                return Err(AppError::ConfigError(m));
            }
            j = j + 1;
        }
        i = i + 1;
    }
    Ok(())
}

/// The entries of a file, each paired with the file.
pub open spec fn pairs_of(f: LoadedConfigFile) -> Seq<(LoadedConfigFile, RawRepositoryEntry)> {
    f.raw.repositories@.map_values(|e: RawRepositoryEntry| (f, e))
}

/// Every entry of every file, in order.
pub open spec fn flat_entries(files: Seq<LoadedConfigFile>) -> Seq<
    (LoadedConfigFile, RawRepositoryEntry),
>
    decreases files.len(),
{
    if files.len() == 0 {
        Seq::empty()
    } else {
        flat_entries(files.drop_last()) + pairs_of(files.last())
    }
}

pub open spec fn pair_path(
    p: (LoadedConfigFile, RawRepositoryEntry),
    resolutions: Seq<PathResolution>,
) -> Seq<char> {
    operational_path(entry_lexical(p.0, p.1), resolutions)
}

/// Every file declares a supported version.
pub open spec fn versions_ok(files: Seq<LoadedConfigFile>) -> bool {
    forall|i: int|
        0 <= i < files.len() ==> ((#[trigger] files[i]).raw.version matches Some(v)
            && supported_version(v))
}

/// Every entry passes its checks.
pub open spec fn entries_ok(
    flat: Seq<(LoadedConfigFile, RawRepositoryEntry)>,
    root_dir: Seq<char>,
    resolutions: Seq<PathResolution>,
) -> bool {
    forall|k: int| 0 <= k < flat.len() ==> entry_ok((#[trigger] flat[k]).0, flat[k].1, root_dir, resolutions)
}

/// No two entries share a name or a resolved path.
pub open spec fn distinct(
    flat: Seq<(LoadedConfigFile, RawRepositoryEntry)>,
    resolutions: Seq<PathResolution>,
) -> bool {
    forall|a: int, b: int|
        0 <= a < b < flat.len() ==> (#[trigger] flat[a]).1.name@ != (#[trigger] flat[b]).1.name@
            && pair_path(flat[a], resolutions) != pair_path(flat[b], resolutions)
}

/// The resolved paths of all entries.
pub open spec fn flat_paths(
    flat: Seq<(LoadedConfigFile, RawRepositoryEntry)>,
    resolutions: Seq<PathResolution>,
) -> Seq<Seq<char>> {
    flat.map_values(|p: (LoadedConfigFile, RawRepositoryEntry)| pair_path(p, resolutions))
}

/// A configuration tree that resolves.
pub open spec fn tree_valid(tree: LoadedConfigTree, resolutions: Seq<PathResolution>) -> bool {
    let flat = flat_entries(tree.files@);
    &&& versions_ok(tree.files@)
    &&& entries_ok(flat, tree.root_directory@, resolutions)
    &&& distinct(flat, resolutions)
    &&& unnested(flat_paths(flat, resolutions))
}

proof fn lemma_flat_step(files: Seq<LoadedConfigFile>, i: int)
    requires
        0 <= i < files.len(),
    ensures
        flat_entries(files.take(i + 1)) == flat_entries(files.take(i)) + pairs_of(files[i]),
{
    assert(files.take(i + 1).drop_last() =~= files.take(i));
}

/// Resolves the configuration tree into validated repository definitions, in
/// declaration order. `resolutions` records where existing lexical paths
/// lead on disk; a path without a record stands for itself.
pub fn resolve(tree: LoadedConfigTree, resolutions: &Vec<PathResolution>) -> (res: Result<
    ResolvedConfig,
    AppError,
>)
    ensures
        res is Ok <==> tree_valid(tree, resolutions@),
        res matches Ok(c) ==> {
            let flat = flat_entries(tree.files@);
            &&& c.root_path == tree.root_path
            &&& c.repositories@.len() == flat.len()
            &&& forall|k: int|
                0 <= k < flat.len() ==> resolves_to(
                    #[trigger] c.repositories@[k],
                    flat[k].0,
                    flat[k].1,
                    tree.root_directory@,
                    resolutions@,
                )
        },
        res matches Err(e) ==> (e is ConfigError || e is Io),
        versions_ok(tree.files@) && entries_ok(
            flat_entries(tree.files@),
            tree.root_directory@,
            resolutions@,
        ) ==> (res matches Err(e) ==> e is ConfigError),
{
    let ghost files = tree.files@;
    let ghost root_dir = tree.root_directory@;
    let ghost res_view = resolutions@;
    let mut repositories: Vec<RepositoryDefinition> = Vec::new();
    let mut groups: Vec<GroupDirectory> = Vec::new();
    let mut i: usize = 0;
    assert(files.take(0) =~= Seq::<LoadedConfigFile>::empty());
    while i < tree.files.len()
        invariant
            files == tree.files@,
            root_dir == tree.root_directory@,
            res_view == resolutions@,
            i <= files.len(),
            versions_ok(files.take(i as int)),
            ({
                let done = flat_entries(files.take(i as int));
                &&& repositories@.len() == done.len()
                &&& entries_ok(done, root_dir, res_view)
                &&& distinct(done, res_view)
                &&& forall|k: int|
                    0 <= k < done.len() ==> resolves_to(
                        #[trigger] repositories@[k],
                        done[k].0,
                        done[k].1,
                        root_dir,
                        res_view,
                    )
            }),
        decreases files.len() - i,
    {
        let file = &tree.files[i];
        let ghost prior = flat_entries(files.take(i as int));
        proof {
            lemma_flat_step(files, i as int);
        }
        if let Err(e) = validate_version(file.raw.version, file.path.as_str()) {
            assert(!versions_ok(files)) by {
                assert(!(files[i as int].raw.version matches Some(v) && supported_version(v)));
            }
            return Err(e);
        }
        let ghost entries = pairs_of(*file);
        let mut j: usize = 0;
        assert(entries.take(0) =~= Seq::<(LoadedConfigFile, RawRepositoryEntry)>::empty());
        assert(prior + entries.take(0) =~= prior);
        while j < file.raw.repositories.len()
            invariant
                files == tree.files@,
                root_dir == tree.root_directory@,
                res_view == resolutions@,
                i < files.len(),
                *file == files[i as int],
                entries == pairs_of(*file),
                prior == flat_entries(files.take(i as int)),
                j <= file.raw.repositories@.len(),
                ({
                    let done = prior + entries.take(j as int);
                    &&& repositories@.len() == done.len()
                    &&& entries_ok(done, root_dir, res_view)
                    &&& distinct(done, res_view)
                    &&& forall|k: int|
                        0 <= k < done.len() ==> resolves_to(
                            #[trigger] repositories@[k],
                            done[k].0,
                            done[k].1,
                            root_dir,
                            res_view,
                        )
                }),
            decreases file.raw.repositories@.len() - j,
        {
            let entry = &file.raw.repositories[j];
            let ghost done = prior + entries.take(j as int);
            let ghost next = prior + entries.take(j + 1);
            assert(entries[j as int] == (*file, *entry));
            assert(next =~= done.push((*file, *entry)));
            let ghost full = flat_entries(files);
            proof {
                lemma_flat_prefix(files, i as int);
                let upto = prior + entries;
                assert forall|m: int| 0 <= m <= done.len() implies full[m] == next[m] by {
                    assert(full[m] == upto[m]);
                    if m >= prior.len() {
                        assert(upto[m] == entries[m - prior.len()]);
                    }
                }
            }
            assert(full[done.len() as int] == (*file, *entry));
            let definition = match resolve_entry(file, entry, tree.root_directory.as_str(), resolutions) {
                Ok(d) => d,
                Err(e) => {
                    proof {
                        assert(!entries_ok(full, root_dir, res_view));
                    }
                    return Err(e);
                },
            };
            let mut k: usize = 0;
            while k < repositories.len()
                invariant
                    k <= repositories@.len(),
                    repositories@.len() == done.len(),
                    forall|m: int|
                        0 <= m < done.len() ==> resolves_to(
                            #[trigger] repositories@[m],
                            done[m].0,
                            done[m].1,
                            root_dir,
                            res_view,
                        ),
                    resolves_to(definition, *file, *entry, root_dir, res_view),
                    files == tree.files@,
                    root_dir == tree.root_directory@,
                    res_view == resolutions@,
                    full == flat_entries(files),
                    done.len() < full.len(),
                    full[done.len() as int] == (*file, *entry),
                    forall|m: int| 0 <= m < done.len() ==> full[m] == #[trigger] done[m],
                    forall|m: int|
                        0 <= m < k ==> (#[trigger] done[m]).1.name@ != entry.name@
                            && pair_path(done[m], res_view) != pair_path((*file, *entry), res_view),
                decreases repositories@.len() - k,
            {
                let existing = &repositories[k];
                if same_text(existing.name().as_str(), definition.name().as_str()) {
                    let mut m = String::from_str(file.path.as_str());
                    push_str(&mut m, ": duplicate repository name '");
                    push_str(&mut m, definition.name().as_str());
                    push_str(&mut m, "' already defined in ");
                    push_str(&mut m, existing.source_config());
                    proof {
                        assert(full[k as int] == done[k as int]);
                        assert(full[k as int].1.name@ == full[done.len() as int].1.name@);
                        assert(!distinct(full, res_view));
                    }
                    return Err(AppError::ConfigError(m));
                }
                if same_text(existing.path(), definition.path()) {
                    let mut m = String::from_str(file.path.as_str());
                    push_str(&mut m, ": duplicate repository path '");
                    push_str(&mut m, definition.path());
                    push_str(&mut m, "' also used by '");
                    push_str(&mut m, existing.name().as_str());
                    push_str(&mut m, "'");
                    proof {
                        assert(full[k as int] == done[k as int]);
                        assert(pair_path(full[k as int], res_view) == pair_path(
                            full[done.len() as int],
                            res_view,
                        ));
                        assert(!distinct(full, res_view));
                    }
                    return Err(AppError::ConfigError(m));
                }
                k = k + 1;
            }
            if let Some(group) = &entry.group {
                let joined = join_path(file.directory.as_str(), group.as_str());
                let group_path = normalize_lexically(joined.as_str());
                let display = relative_display_path(tree.root_directory.as_str(), group_path.as_str());
                groups.push(GroupDirectory::new(group_path, display));
            }
            repositories.push(definition);
            j = j + 1;
            assert(next == prior + entries.take(j as int));
        }
        assert(entries.take(j as int) =~= entries);
        i = i + 1;
        assert(versions_ok(files.take(i as int))) by {
            assert forall|x: int| 0 <= x < files.take(i as int).len() implies ((#[trigger] files.take(i as int)[x]).raw.version matches Some(v)
                && supported_version(v)) by {
                if x < i - 1 {
                    assert(files.take(i as int)[x] == files.take(i - 1)[x]);
                }
            }
        }
    }
    assert(files.take(files.len() as int) =~= files);
    let ghost flat = flat_entries(files);
    match validate_no_nested_repository_paths(repositories.as_slice()) {
        Ok(()) => {
            assert(definition_paths(repositories@) =~= flat_paths(flat, res_view));
            Ok(ResolvedConfig::new(tree.root_path, groups, repositories))
        },
        Err(e) => {
            assert(definition_paths(repositories@) =~= flat_paths(flat, res_view));
            Err(e)
        },
    }
}

/// Earlier files contribute a prefix of the entries of later prefixes.
proof fn lemma_flat_grows(files: Seq<LoadedConfigFile>, i: int, j: int)
    requires
        0 <= i <= j <= files.len(),
    ensures
        flat_entries(files.take(i)).len() <= flat_entries(files.take(j)).len(),
        flat_entries(files.take(j)).subrange(0, flat_entries(files.take(i)).len() as int)
            == flat_entries(files.take(i)),
    decreases j - i,
{
    if i < j {
        lemma_flat_grows(files, i, j - 1);
        lemma_flat_step(files, j - 1);
        let a = flat_entries(files.take(i));
        let b = flat_entries(files.take(j - 1));
        let c = flat_entries(files.take(j));
        assert(c.subrange(0, a.len() as int) =~= b.subrange(0, a.len() as int));
    } else {
        assert(flat_entries(files.take(j)).subrange(0, flat_entries(files.take(i)).len() as int)
            =~= flat_entries(files.take(i)));
    }
}

/// The entries up to and including file `i` are a prefix of all entries.
proof fn lemma_flat_prefix(files: Seq<LoadedConfigFile>, i: int)
    requires
        0 <= i < files.len(),
    ensures
        ({
            let upto = flat_entries(files.take(i)) + pairs_of(files[i]);
            &&& upto.len() <= flat_entries(files).len()
            &&& forall|k: int| 0 <= k < upto.len() ==> flat_entries(files)[k] == upto[k]
        }),
{
    lemma_flat_grows(files, i + 1, files.len() as int);
    lemma_flat_step(files, i);
    assert(files.take(files.len() as int) =~= files);
    let upto = flat_entries(files.take(i + 1));
    assert forall|k: int| 0 <= k < upto.len() implies flat_entries(files)[k] == upto[k] by {
        assert(flat_entries(files).subrange(0, upto.len() as int)[k] == flat_entries(files)[k]);
    }
}

} // verus!
