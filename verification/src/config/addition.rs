//! The decisions behind `gv add`: whether a repository is already
//! configured, the path it is written under, where in the document it goes,
//! and the checks on the prospective configuration before anything is
//! written.

use vstd::prelude::*;
use crate::config::resolved::GroupDirectory;
use crate::error::AppError;
use crate::paths::{
    components, is_absolute, is_parent_reference, join_parts, path_components, path_is_absolute,
    path_starts_with, render, render_path, starts_with,
};
use crate::repositories::RepositoryDefinition;
use crate::text::push_str;

verus! {

/// What adding one repository came to.
#[derive(Debug, Clone, PartialEq, Eq)]
pub enum Addition {
    Added { name: String, display_path: String },
    /// The file was written, but syncing its directory failed.
    DurabilityUnconfirmed { name: String, display_path: String, message: String },
    /// The repository was already configured with the same URL.
    Unchanged { name: String, display_path: String },
}

/// Two paths name the same place, component by component.
pub open spec fn same_path(a: Seq<char>, b: Seq<char>) -> bool {
    is_absolute(a) == is_absolute(b) && components(a) == components(b)
}

fn vectors_equal(a: &Vec<String>, b: &Vec<String>) -> (res: bool)
    ensures
        res == (a.deep_view() == b.deep_view()),
{
    assert(a.deep_view().len() == a@.len());
    assert(b.deep_view().len() == b@.len());
    if a.len() != b.len() {
        return false;
    }
    let mut i: usize = 0;
    while i < a.len()
        invariant
            a.len() == b.len(),
            i <= a.len(),
            forall|j: int| 0 <= j < i ==> a.deep_view()[j] == b.deep_view()[j],
        decreases a.len() - i,
    {
        assert(a.deep_view()[i as int] == a@[i as int]@);
        assert(b.deep_view()[i as int] == b@[i as int]@);
        if a[i] != b[i] {
            return false;
        }
        i = i + 1;
    }
    assert(a.deep_view() =~= b.deep_view());
    true
}

pub fn paths_equal(a: &str, b: &str) -> (res: bool)
    ensures
        res == same_path(a@, b@),
{
    path_is_absolute(a) == path_is_absolute(b) && vectors_equal(
        &path_components(a),
        &path_components(b),
    )
}

pub open spec fn leaves_root_text(repository: Seq<char>, root: Seq<char>) -> Seq<char> {
    "repository '"@ + repository + "' leaves the grove root '"@ + root
        + "'; choose a broader grove.toml"@
}

pub open spec fn invalid_component_text() -> Seq<char> {
    "canonical repository path contained an invalid component"@
}

/// The components of `repository` below `root`.
pub open spec fn below(root: Seq<char>, repository: Seq<char>) -> Seq<Seq<char>> {
    components(repository).subrange(components(root).len() as int, components(repository).len() as int)
}

/// A component below the root of a path inside it climbs back out.
pub open spec fn climbs_below(root: Seq<char>, repository: Seq<char>) -> bool {
    &&& starts_with(repository, root)
    &&& exists|k: int|
        0 <= k < below(root, repository).len() && is_parent_reference(
            #[trigger] below(root, repository)[k],
        )
}

/// The path of a repository relative to the grove root, as written in
/// `grove.toml`: `.` for the root itself, components joined by `/` otherwise.
/// A repository outside the root is refused; a `..` below a canonical root is
/// an internal error.
pub fn relative_path(root: &str, repository: &str) -> (res: Result<String, AppError>)
    ensures
        !starts_with(repository@, root@) ==> (res matches Err(AppError::ConfigError(m)) && m@
            == leaves_root_text(repository@, root@)),
        starts_with(repository@, root@) && below(root@, repository@).len() == 0 ==> (res matches Ok(
            s,
        ) && s@ == "."@),
        starts_with(repository@, root@) && below(root@, repository@).len() > 0 && (exists|k: int|
            0 <= k < below(root@, repository@).len() && is_parent_reference(
                #[trigger] below(root@, repository@)[k],
            )) ==> (res matches Err(AppError::Internal(m)) && m@ == invalid_component_text()),
        starts_with(repository@, root@) && below(root@, repository@).len() > 0 && (forall|k: int|
            0 <= k < below(root@, repository@).len() ==> !is_parent_reference(
                #[trigger] below(root@, repository@)[k],
            )) ==> (res matches Ok(s) && s@ == join_parts(below(root@, repository@))),
{
    if !path_starts_with(repository, root) {
        let mut m = String::from_str("repository '");
        push_str(&mut m, repository);
        push_str(&mut m, "' leaves the grove root '");
        push_str(&mut m, root);
        push_str(&mut m, "'; choose a broader grove.toml");
        return Err(AppError::ConfigError(m));
    }
    let p = path_components(repository);
    let r = path_components(root);
    let ghost rest_spec = below(root@, repository@);
    let mut rest: Vec<String> = Vec::new();
    let mut i: usize = r.len();
    while i < p.len()
        invariant
            starts_with(repository@, root@),
            rest_spec == below(root@, repository@),
            p.deep_view() == components(repository@),
            r.deep_view() == components(root@),
            r.len() <= i <= p.len(),
            rest.deep_view() == p.deep_view().subrange(r.len() as int, i as int),
            forall|k: int| 0 <= k < rest.deep_view().len() ==> !is_parent_reference(
                #[trigger] rest.deep_view()[k],
            ),
        decreases p.len() - i,
    {
        if crate::paths::is_dot_dot(p[i].as_str()) {
            assert(rest_spec[i - r.len()] == p.deep_view()[i as int]);
            assert(is_parent_reference(rest_spec[i - r.len()]));
            return Err(
                AppError::Internal(
                    String::from_str("canonical repository path contained an invalid component"),
                ),
            );
        }
        let item = p[i].clone();
        let ghost old_rest = rest.deep_view();
        rest.push(item);
        assert(rest.deep_view() =~= old_rest.push(item@));
        i = i + 1;
        assert(rest.deep_view() =~= p.deep_view().subrange(r.len() as int, i as int));
    }
    assert(rest.deep_view() == rest_spec);
    if rest.len() == 0 {
        return Ok(String::from_str("."));
    }
    Ok(crate::paths::join_with_slash(&rest))
}

/// The parent directory of a path, when it has one.
pub open spec fn has_parent(path: Seq<char>) -> bool {
    components(path).len() > 0
}

pub open spec fn parent_of(path: Seq<char>) -> Seq<char> {
    render(is_absolute(path), components(path).drop_last())
}

/// The display paths of the groups whose directory is `parent`, without
/// repeats, in the order the groups come.
pub open spec fn configured_parents(groups: Seq<GroupDirectory>, n: int, parent: Seq<char>) -> Seq<
    Seq<char>,
>
    decreases n,
{
    if n <= 0 {
        Seq::empty()
    } else {
        let prev = configured_parents(groups, n - 1, parent);
        let g = groups[n - 1];
        if same_path(g.path@, parent) && !prev.contains(g.display_path@) {
            prev.push(g.display_path@)
        } else {
            prev
        }
    }
}

/// `'a', 'b', 'c'`.
pub open spec fn quoted_list(items: Seq<Seq<char>>) -> Seq<char>
    decreases items.len(),
{
    if items.len() == 0 {
        Seq::empty()
    } else if items.len() == 1 {
        "'"@ + items[0] + "'"@
    } else {
        quoted_list(items.drop_last()) + ", '"@ + items.last() + "'"@
    }
}

pub open spec fn multiple_parents_text(parent: Seq<char>, parents: Seq<Seq<char>>, name: Seq<char>) -> Seq<char> {
    "repository directory '"@ + parent + "' is represented by multiple configured paths: "@
        + quoted_list(parents) + "; consolidate them before adding '"@ + name + "'"@
}

fn seq_contains_text(items: &Vec<String>, s: &String) -> (res: bool)
    ensures
        res == items.deep_view().contains(s@),
{
    let mut i: usize = 0;
    while i < items.len()
        invariant
            i <= items.len(),
            forall|j: int| 0 <= j < i ==> items.deep_view()[j] != s@,
        decreases items.len() - i,
    {
        if items[i] == *s {
            assert(items.deep_view()[i as int] == s@);
            return true;
        }
        i = i + 1;
    }
    false
}

fn quote_all(items: &Vec<String>) -> (s: String)
    ensures
        s@ == quoted_list(items.deep_view()),
{
    let mut s = String::new();
    let mut i: usize = 0;
    assert(items.deep_view().take(0) =~= Seq::<Seq<char>>::empty());
    while i < items.len()
        invariant
            i <= items.len(),
            s@ == quoted_list(items.deep_view().take(i as int)),
        decreases items.len() - i,
    {
        let ghost taken = items.deep_view().take(i + 1);
        assert(taken.drop_last() =~= items.deep_view().take(i as int));
        if i > 0 {
            push_str(&mut s, ", '");
        } else {
            push_str(&mut s, "'");
            assert(s@ == "'"@) by {
                assert(items.deep_view().take(0) =~= Seq::<Seq<char>>::empty());
            }
        }
        push_str(&mut s, items[i].as_str());
        push_str(&mut s, "'");
        assert(s@ =~= quoted_list(taken));
        i = i + 1;
    }
    assert(items.deep_view().take(items.len() as int) =~= items.deep_view());
    s
}

/// The path a repository is written under. When its parent directory is a
/// configured group directory, the group's configured path is reused, so
/// the repository joins that group; when the directory is configured under
/// several different paths, the addition is refused.
pub fn configured_display_path(
    groups: &[GroupDirectory],
    repository_path: &str,
    default: &str,
    name: &str,
) -> (res: Result<String, AppError>)
    ensures
        !has_parent(repository_path@) ==> (res matches Ok(s) && s@ == default@),
        has_parent(repository_path@) ==> ({
            let parents = configured_parents(
                groups@,
                groups@.len() as int,
                parent_of(repository_path@),
            );
            &&& parents.len() == 0 ==> (res matches Ok(s) && s@ == default@)
            &&& parents.len() == 1 ==> (res matches Ok(s) && s@ == parents[0] + "/"@ + name@)
            &&& parents.len() > 1 ==> (res matches Err(AppError::ConfigError(m)) && m@
                == multiple_parents_text(parent_of(repository_path@), parents, name@))
        }),
{
    let parts = path_components(repository_path);
    if parts.len() == 0 {
        return Ok(String::from_str(default));
    }
    let mut parent_parts = parts;
    parent_parts.pop();
    let parent = render_path(path_is_absolute(repository_path), &parent_parts);
    assert(parent_parts.deep_view() =~= components(repository_path@).drop_last());
    let mut found: Vec<String> = Vec::new();
    let mut i: usize = 0;
    while i < groups.len()
        invariant
            i <= groups@.len(),
            parent@ == parent_of(repository_path@),
            found.deep_view() == configured_parents(groups@, i as int, parent@),
        decreases groups@.len() - i,
    {
        let group = &groups[i];
        if paths_equal(group.path.as_str(), parent.as_str()) {
            let display = group.display_path.clone();
            if !seq_contains_text(&found, &display) {
                let ghost old_found = found.deep_view();
                found.push(display);
                assert(found.deep_view() =~= old_found.push(group.display_path@));
            }
        }
        i = i + 1;
    }
    if found.len() == 0 {
        Ok(String::from_str(default))
    } else if found.len() == 1 {
        let mut s = found[0].clone();
        push_str(&mut s, "/");
        push_str(&mut s, name);
        Ok(s)
    } else {
        let mut m = String::from_str("repository directory '");
        push_str(&mut m, parent.as_str());
        push_str(&mut m, "' is represented by multiple configured paths: ");
        let list = quote_all(&found);
        push_str(&mut m, list.as_str());
        push_str(&mut m, "; consolidate them before adding '");
        push_str(&mut m, name);
        push_str(&mut m, "'");
        Err(AppError::ConfigError(m))
    }
}

/// The position of the first repository with this name, if any.
pub open spec fn first_named(repositories: Seq<RepositoryDefinition>, name: Seq<char>, n: int) -> int
    decreases n,
{
    if n <= 0 {
        -1
    } else {
        let prev = first_named(repositories, name, n - 1);
        if prev >= 0 {
            prev
        } else if repositories[n - 1].name_view() == name {
            n - 1
        } else {
            -1
        }
    }
}

/// The position of the first repository at this path, if any.
pub open spec fn first_at(repositories: Seq<RepositoryDefinition>, path: Seq<char>, n: int) -> int
    decreases n,
{
    if n <= 0 {
        -1
    } else {
        let prev = first_at(repositories, path, n - 1);
        if prev >= 0 {
            prev
        } else if same_path(repositories[n - 1].path_view(), path) {
            n - 1
        } else {
            -1
        }
    }
}

pub proof fn lemma_first_bounds(repositories: Seq<RepositoryDefinition>, name: Seq<char>, path: Seq<char>, n: int)
    requires
        0 <= n,
    ensures
        -1 <= first_named(repositories, name, n) < n,
        -1 <= first_at(repositories, path, n) < n,
        first_named(repositories, name, n) >= 0 ==> repositories[first_named(repositories, name, n)].name_view() == name,
        first_at(repositories, path, n) >= 0 ==> same_path(repositories[first_at(repositories, path, n)].path_view(), path),
    decreases n,
{
    if n > 0 {
        lemma_first_bounds(repositories, name, path, n - 1);
    }
}

fn find_named(repositories: &[RepositoryDefinition], name: &str) -> (res: Option<usize>)
    ensures
        match res {
            Some(i) => i as int == first_named(repositories@, name@, repositories@.len() as int),
            None => first_named(repositories@, name@, repositories@.len() as int) == -1,
        },
{
    let mut i: usize = 0;
    while i < repositories.len()
        invariant
            i <= repositories@.len(),
            first_named(repositories@, name@, i as int) == -1,
        decreases repositories@.len() - i,
    {
        if crate::app::sync::prepare::same_str(repositories[i].name().as_str(), name) {
            proof {
                lemma_first_from(repositories@, name@, i as int, repositories@.len() as int);
            }
            return Some(i);
        }
        i = i + 1;
    }
    None
}

proof fn lemma_first_from(repositories: Seq<RepositoryDefinition>, name: Seq<char>, i: int, n: int)
    requires
        0 <= i < n <= repositories.len(),
        first_named(repositories, name, i) == -1,
        repositories[i].name_view() == name,
    ensures
        first_named(repositories, name, n) == i,
    decreases n,
{
    if n > i + 1 {
        lemma_first_from(repositories, name, i, n - 1);
    }
}

proof fn lemma_first_at_from(repositories: Seq<RepositoryDefinition>, path: Seq<char>, i: int, n: int)
    requires
        0 <= i < n <= repositories.len(),
        first_at(repositories, path, i) == -1,
        same_path(repositories[i].path_view(), path),
    ensures
        first_at(repositories, path, n) == i,
    decreases n,
{
    if n > i + 1 {
        lemma_first_at_from(repositories, path, i, n - 1);
    }
}

fn find_at(repositories: &[RepositoryDefinition], path: &str) -> (res: Option<usize>)
    ensures
        match res {
            Some(i) => i as int == first_at(repositories@, path@, repositories@.len() as int),
            None => first_at(repositories@, path@, repositories@.len() as int) == -1,
        },
{
    let mut i: usize = 0;
    while i < repositories.len()
        invariant
            i <= repositories@.len(),
            first_at(repositories@, path@, i as int) == -1,
        decreases repositories@.len() - i,
    {
        if paths_equal(repositories[i].path(), path) {
            proof {
                lemma_first_at_from(repositories@, path@, i as int, repositories@.len() as int);
            }
            return Some(i);
        }
        i = i + 1;
    }
    None
}

pub open spec fn different_url_text(path: Seq<char>, name: Seq<char>) -> Seq<char> {
    "repository path '"@ + path + "' is already configured as '"@ + name
        + "' with a different URL"@
}

pub open spec fn name_taken_text(name: Seq<char>, path: Seq<char>) -> Seq<char> {
    "repository name '"@ + name + "' is already configured at '"@ + path + "'"@
}

/// What the configuration already says of a repository being added: the
/// same path with the same URL leaves it unchanged; the same path with
/// another URL, or the same name elsewhere, is refused; otherwise (`None`)
/// the repository is new.
pub fn existing_addition(
    repositories: &[RepositoryDefinition],
    name: &str,
    repository_path: &str,
    url: &str,
) -> (res: Result<Option<Addition>, AppError>)
    ensures
        ({
            let at = first_at(repositories@, repository_path@, repositories@.len() as int);
            let named = first_named(repositories@, name@, repositories@.len() as int);
            &&& at >= 0 && repositories@[at].url_view() == url@ ==> (res matches Ok(
                Some(Addition::Unchanged { name: n, display_path: d }),
            ) && n@ == repositories@[at].name_view() && d@ == repositories@[at].display_path_view())
            &&& at >= 0 && repositories@[at].url_view() != url@ ==> (res matches Err(
                AppError::ConfigError(m),
            ) && m@ == different_url_text(repository_path@, repositories@[at].name_view()))
            &&& at < 0 && named >= 0 ==> (res matches Err(AppError::ConfigError(m)) && m@
                == name_taken_text(name@, repositories@[named].path_view()))
            &&& at < 0 && named < 0 ==> res == Ok::<Option<Addition>, AppError>(None)
        }),
{
    proof {
        lemma_first_bounds(repositories@, name@, repository_path@, repositories@.len() as int);
    }
    match find_at(repositories, repository_path) {
        Some(i) => {
            let existing = &repositories[i];
            if crate::app::sync::prepare::same_str(existing.url().as_str(), url) {
                return Ok(
                    Some(
                        Addition::Unchanged {
                            name: String::from_str(existing.name().as_str()),
                            display_path: String::from_str(existing.display_path()),
                        },
                    ),
                );
            }
            let mut m = String::from_str("repository path '");
            push_str(&mut m, repository_path);
            push_str(&mut m, "' is already configured as '");
            push_str(&mut m, existing.name().as_str());
            push_str(&mut m, "' with a different URL");
            return Err(AppError::ConfigError(m));
        },
        None => {},
    }
    match find_named(repositories, name) {
        Some(i) => {
            let mut m = String::from_str("repository name '");
            push_str(&mut m, name);
            push_str(&mut m, "' is already configured at '");
            push_str(&mut m, repositories[i].path());
            push_str(&mut m, "'");
            Err(AppError::ConfigError(m))
        },
        None => Ok(None),
    }
}

pub open spec fn not_contained_text(name: Seq<char>) -> Seq<char> {
    "prospective configuration does not contain added repository '"@ + name
        + "'; no changes were written"@
}

pub open spec fn moved_text(name: Seq<char>, actual: Seq<char>, requested: Seq<char>) -> Seq<char> {
    "prospective configuration resolves added repository '"@ + name + "' to '"@ + actual
        + "' instead of requested worktree '"@ + requested + "'; no changes were written"@
}

pub open spec fn url_changed_text(name: Seq<char>) -> Seq<char> {
    "prospective configuration changes the URL for added repository '"@ + name
        + "'; no changes were written"@
}

/// The check on the configuration as it would be after the addition: it
/// must hold the added repository, at the requested path, with the URL.
pub fn verify_added_repository(
    repositories: &[RepositoryDefinition],
    name: &str,
    repository_path: &str,
    url: &str,
) -> (res: Result<(), AppError>)
    ensures
        ({
            let named = first_named(repositories@, name@, repositories@.len() as int);
            &&& named < 0 ==> (res matches Err(AppError::ConfigError(m)) && m@ == not_contained_text(
                name@,
            ))
            &&& named >= 0 && !same_path(repositories@[named].path_view(), repository_path@) ==> (res matches Err(
                AppError::ConfigError(m),
            ) && m@ == moved_text(name@, repositories@[named].path_view(), repository_path@))
            &&& named >= 0 && same_path(repositories@[named].path_view(), repository_path@)
                && repositories@[named].url_view() != url@ ==> (res matches Err(
                AppError::ConfigError(m),
            ) && m@ == url_changed_text(name@))
            &&& named >= 0 && same_path(repositories@[named].path_view(), repository_path@)
                && repositories@[named].url_view() == url@ ==> res is Ok
        }),
{
    proof {
        lemma_first_bounds(repositories@, name@, repository_path@, repositories@.len() as int);
    }
    let i = match find_named(repositories, name) {
        Some(i) => i,
        None => {
            let mut m = String::from_str(
                "prospective configuration does not contain added repository '",
            );
            push_str(&mut m, name);
            push_str(&mut m, "'; no changes were written");
            return Err(AppError::ConfigError(m));
        },
    };
    let repository = &repositories[i];
    if !paths_equal(repository.path(), repository_path) {
        let mut m = String::from_str("prospective configuration resolves added repository '");
        push_str(&mut m, name);
        push_str(&mut m, "' to '");
        push_str(&mut m, repository.path());
        push_str(&mut m, "' instead of requested worktree '");
        push_str(&mut m, repository_path);
        push_str(&mut m, "'; no changes were written");
        return Err(AppError::ConfigError(m));
    }
    if !crate::app::sync::prepare::same_str(repository.url().as_str(), url) {
        let mut m = String::from_str(
            "prospective configuration changes the URL for added repository '",
        );
        push_str(&mut m, name);
        push_str(&mut m, "'; no changes were written");
        return Err(AppError::ConfigError(m));
    }
    Ok(())
}

/// Where in the document a repository is written.
#[derive(Debug, Clone, PartialEq, Eq)]
pub enum InsertionTarget {
    /// Under `repos`, with an explicit `path` when it is not the name.
    Root { path: Option<String> },
    /// Under `groups.<group>`, named by its directory.
    Group { group: String },
}

/// The position of the last `/` in `s`, or -1.
pub open spec fn last_slash(s: Seq<char>) -> int
    decreases s.len(),
{
    if s.len() == 0 {
        -1
    } else if s.last() == '/' {
        s.len() - 1
    } else {
        last_slash(s.drop_last())
    }
}

pub proof fn lemma_last_slash(s: Seq<char>)
    ensures
        -1 <= last_slash(s) < s.len(),
        last_slash(s) >= 0 ==> s[last_slash(s)] == '/',
        forall|k: int| last_slash(s) < k < s.len() ==> s[k] != '/',
    decreases s.len(),
{
    if s.len() > 0 && s.last() != '/' {
        lemma_last_slash(s.drop_last());
        assert forall|k: int| last_slash(s) < k < s.len() implies s[k] != '/' by {
            if k < s.len() - 1 {
                assert(s[k] == s.drop_last()[k]);
            }
        }
    }
}

proof fn lemma_last_slash_at(s: Seq<char>, k: int)
    requires
        0 <= k < s.len(),
        s[k] == '/',
        forall|j: int| k < j < s.len() ==> s[j] != '/',
    ensures
        last_slash(s) == k,
    decreases s.len(),
{
    if s.len() - 1 != k {
        let t = s.drop_last();
        assert forall|j: int| k < j < t.len() implies t[j] != '/' by {
            assert(t[j] == s[j]);
        }
        lemma_last_slash_at(t, k);
    }
}

/// A repository whose path is its name goes straight under `repos`; one
/// whose path is `<group>/<name>` goes into that group; any other keeps its
/// path beside it under `repos`.
pub open spec fn target_of(display_path: Seq<char>, name: Seq<char>, target: InsertionTarget) -> bool {
    let cut = last_slash(display_path);
    if display_path == name {
        target == InsertionTarget::Root { path: None }
    } else if cut > 0 && display_path.subrange(cut + 1, display_path.len() as int) == name {
        target matches InsertionTarget::Group { group } && group@ == display_path.subrange(0, cut)
    } else {
        target matches InsertionTarget::Root { path: Some(p) } && p@ == display_path
    }
}

pub fn insertion_target(display_path: &str, name: &str) -> (target: InsertionTarget)
    ensures
        target_of(display_path@, name@, target),
{
    proof {
        lemma_last_slash(display_path@);
    }
    if crate::app::sync::prepare::same_str(display_path, name) {
        return InsertionTarget::Root { path: None };
    }
    let n = display_path.unicode_len();
    let mut cut: usize = n;
    let mut k: usize = n;
    while k > 0 && cut == n
        invariant
            k <= n == display_path@.len(),
            cut == n ==> forall|j: int| k <= j < n ==> display_path@[j] != '/',
            cut != n ==> cut as int == last_slash(display_path@),
            cut != n ==> cut < n,
        decreases k,
    {
        k = k - 1;
        if display_path.get_char(k) == '/' {
            cut = k;
            proof {
                lemma_last_slash_at(display_path@, k as int);
            }
        }
    }
    proof {
        if cut == n {
            assert(k == 0);
            if last_slash(display_path@) >= 0 {
                assert(display_path@[last_slash(display_path@)] == '/');
            }
        }
    }
    if cut != n && cut > 0 {
        let leaf = display_path.substring_char(cut + 1, n);
        if crate::app::sync::prepare::same_str(leaf, name) {
            let group = display_path.substring_char(0, cut);
            return InsertionTarget::Group { group: String::from_str(group) };
        }
    }
    InsertionTarget::Root { path: Some(String::from_str(display_path)) }
}

/// The shape of a table the insertion reads.
#[derive(Debug, Clone, Copy, PartialEq, Eq)]
pub enum TableKind {
    Absent,
    /// A standard table; `holds_tables` when any of its items is a table.
    Table { holds_tables: bool },
    Inline,
    /// Present, but not a table.
    Other,
}

/// How the repository entry is written.
#[derive(Debug, Clone, Copy, PartialEq, Eq)]
pub enum Form {
    /// `name = "url"` in a standard table.
    Value,
    /// A `[<table>.name]` table with `path` (when given) and `url`.
    Table,
    /// `name = "url"` in an inline table.
    InlineValue,
    /// `name = { path = ..., url = ... }` in an inline table.
    InlineTable,
}

/// The edit that puts a repository into the document.
#[derive(Debug, Clone, Copy, PartialEq, Eq)]
pub struct Edit {
    /// Create the enclosing table (`repos` or `groups`) as an implicit table.
    pub create_outer: bool,
    /// Create the group table inside `groups`.
    pub create_group: bool,
    pub form: Form,
}

pub open spec fn repos_not_table_text(destination: Seq<char>) -> Seq<char> {
    destination + ": field 'repos' must be a table"@
}

pub open spec fn groups_not_table_text(destination: Seq<char>) -> Seq<char> {
    destination + ": field 'groups' must be a table"@
}

pub open spec fn group_not_table_text(destination: Seq<char>, group: Seq<char>) -> Seq<char> {
    destination + ": group '"@ + group + "' must be a table"@
}

/// The edit for a repository under `repos`. A bare `name = "url"` is written
/// when no path is needed and the table holds no repository tables; a
/// missing `repos` is created as an implicit table.
pub open spec fn root_edit_of(repos: TableKind, with_path: bool) -> Option<Edit> {
    match repos {
        TableKind::Absent => Some(
            Edit {
                create_outer: true,
                create_group: false,
                form: if with_path { Form::Table } else { Form::Value },
            },
        ),
        TableKind::Table { holds_tables } => Some(
            Edit {
                create_outer: false,
                create_group: false,
                form: if !with_path && !holds_tables { Form::Value } else { Form::Table },
            },
        ),
        TableKind::Inline => Some(
            Edit {
                create_outer: false,
                create_group: false,
                form: if with_path { Form::InlineTable } else { Form::InlineValue },
            },
        ),
        TableKind::Other => None,
    }
}

pub fn root_edit(repos: TableKind, with_path: bool, destination: &str) -> (res: Result<Edit, AppError>)
    ensures
        match root_edit_of(repos, with_path) {
            Some(edit) => res == Ok::<Edit, AppError>(edit),
            None => res matches Err(AppError::ConfigError(m)) && m@ == repos_not_table_text(
                destination@,
            ),
        },
{
    match repos {
        TableKind::Absent => Ok(
            Edit {
                create_outer: true,
                create_group: false,
                form: if with_path {
                    Form::Table
                } else {
                    Form::Value
                },
            },
        ),
        TableKind::Table { holds_tables } => Ok(
            Edit {
                create_outer: false,
                create_group: false,
                form: if !with_path && !holds_tables {
                    Form::Value
                } else {
                    Form::Table
                },
            },
        ),
        TableKind::Inline => Ok(
            Edit {
                create_outer: false,
                create_group: false,
                form: if with_path {
                    Form::InlineTable
                } else {
                    Form::InlineValue
                },
            },
        ),
        TableKind::Other => {
            let mut m = String::from_str(destination);
            push_str(&mut m, ": field 'repos' must be a table");
            Err(AppError::ConfigError(m))
        },
    }
}

/// The edit for a repository in a group. A missing `groups` is created as
/// an implicit table and a missing group as an empty one of the same kind;
/// the repository is written as `name = "url"` unless a standard group
/// table already holds repository tables.
pub open spec fn group_edit_of(groups: TableKind, group: TableKind) -> Option<Edit> {
    match groups {
        TableKind::Absent => Some(
            Edit { create_outer: true, create_group: true, form: Form::Value },
        ),
        TableKind::Table { .. } => match group {
            TableKind::Absent => Some(
                Edit { create_outer: false, create_group: true, form: Form::Value },
            ),
            TableKind::Table { holds_tables } => Some(
                Edit {
                    create_outer: false,
                    create_group: false,
                    form: if holds_tables { Form::Table } else { Form::Value },
                },
            ),
            TableKind::Inline => Some(
                Edit { create_outer: false, create_group: false, form: Form::InlineValue },
            ),
            TableKind::Other => None,
        },
        TableKind::Inline => match group {
            TableKind::Absent => Some(
                Edit { create_outer: false, create_group: true, form: Form::InlineValue },
            ),
            TableKind::Inline => Some(
                Edit { create_outer: false, create_group: false, form: Form::InlineValue },
            ),
            _ => None,
        },
        TableKind::Other => None,
    }
}

pub fn group_edit(groups: TableKind, group_kind: TableKind, group: &str, destination: &str) -> (res:
    Result<Edit, AppError>)
    ensures
        match group_edit_of(groups, group_kind) {
            Some(edit) => res == Ok::<Edit, AppError>(edit),
            None => if groups is Other {
                res matches Err(AppError::ConfigError(m)) && m@ == groups_not_table_text(
                    destination@,
                )
            } else {
                res matches Err(AppError::ConfigError(m)) && m@ == group_not_table_text(
                    destination@,
                    group@,
                )
            },
        },
{
    let edit = match groups {
        TableKind::Absent => Some(
            Edit { create_outer: true, create_group: true, form: Form::Value },
        ),
        TableKind::Table { .. } => match group_kind {
            TableKind::Absent => Some(
                Edit { create_outer: false, create_group: true, form: Form::Value },
            ),
            TableKind::Table { holds_tables } => Some(
                Edit {
                    create_outer: false,
                    create_group: false,
                    form: if holds_tables {
                        Form::Table
                    } else {
                        Form::Value
                    },
                },
            ),
            TableKind::Inline => Some(
                Edit { create_outer: false, create_group: false, form: Form::InlineValue },
            ),
            TableKind::Other => None,
        },
        TableKind::Inline => match group_kind {
            TableKind::Absent => Some(
                Edit { create_outer: false, create_group: true, form: Form::InlineValue },
            ),
            TableKind::Inline => Some(
                Edit { create_outer: false, create_group: false, form: Form::InlineValue },
            ),
            _ => None,
        },
        TableKind::Other => None,
    };
    match edit {
        Some(edit) => Ok(edit),
        None => {
            let mut m = String::from_str(destination);
            match groups {
                TableKind::Other => {
                    push_str(&mut m, ": field 'groups' must be a table");
                },
                _ => {
                    push_str(&mut m, ": group '");
                    push_str(&mut m, group);
                    push_str(&mut m, "' must be a table");
                },
            }
            Err(AppError::ConfigError(m))
        },
    }
}

/// What the destination file holds now, read again just before writing.
#[derive(Debug, Clone, PartialEq, Eq)]
pub enum CurrentContents {
    Text(String),
    NotFound(AppError),
    Failed(AppError),
}

pub open spec fn changed_text(path: Seq<char>) -> Seq<char> {
    path + " changed while gv add was running; no changes were written"@
}

pub open spec fn appeared_text(path: Seq<char>) -> Seq<char> {
    path + " appeared while gv add was running; no changes were written"@
}

/// The check before replacing the destination: the file must still hold what
/// was read when the session opened, or still be absent if it was absent.
pub fn check_unchanged(path: &str, baseline: Option<&str>, current: CurrentContents) -> (res: Result<
    (),
    AppError,
>)
    ensures
        match (baseline, current) {
            (Some(expected), CurrentContents::Text(actual)) => if actual@ == expected@ {
                res is Ok
            } else {
                res matches Err(AppError::ConfigError(m)) && m@ == changed_text(path@)
            },
            (Some(_), CurrentContents::NotFound(e)) => res == Err::<(), AppError>(e),
            (Some(_), CurrentContents::Failed(e)) => res == Err::<(), AppError>(e),
            (None, CurrentContents::NotFound(_)) => res is Ok,
            (None, _) => res matches Err(AppError::ConfigError(m)) && m@ == appeared_text(path@),
        },
{
    match baseline {
        Some(expected) => match current {
            CurrentContents::Text(actual) => if crate::app::sync::prepare::same_str(
                actual.as_str(),
                expected,
            ) {
                Ok(())
            } else {
                let mut m = String::from_str(path);
                push_str(&mut m, " changed while gv add was running; no changes were written");
                Err(AppError::ConfigError(m))
            },
            CurrentContents::NotFound(e) => Err(e),
            CurrentContents::Failed(e) => Err(e),
        },
        None => match current {
            CurrentContents::NotFound(_) => Ok(()),
            _ => {
                let mut m = String::from_str(path);
                push_str(&mut m, " appeared while gv add was running; no changes were written");
                Err(AppError::ConfigError(m))
            },
        },
    }
}

pub open spec fn unconfirmed_text(path: Seq<char>, error: Seq<char>) -> Seq<char> {
    path + " was written, but syncing its directory failed: "@ + error
        + "; verify the file before retrying"@
}

/// The outcome of an addition once the file is written: added, or written
/// with its durability unconfirmed when syncing the directory failed.
pub fn written_addition(name: String, display_path: String, path: &str, sync: Result<(), AppError>) -> (a:
    Addition)
    ensures
        match sync {
            Ok(()) => a == (Addition::Added { name, display_path }),
            Err(e) => a matches Addition::DurabilityUnconfirmed { name: n, display_path: d, message }
                && n == name && d == display_path && message@ == unconfirmed_text(path@, e.text()),
        },
{
    match sync {
        Ok(()) => Addition::Added { name, display_path },
        Err(e) => {
            let mut message = String::from_str(path);
            push_str(&mut message, " was written, but syncing its directory failed: ");
            let text = e.message();
            push_str(&mut message, text.as_str());
            push_str(&mut message, "; verify the file before retrying");
            Addition::DurabilityUnconfirmed { name, display_path, message }
        },
    }
}

} // verus!
