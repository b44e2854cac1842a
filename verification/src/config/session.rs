//! The edit of a configuration file by `add`: the file opened once, each
//! repository checked against what is configured, written where the
//! configuration's layout says, and the result re-read before it replaces
//! the file.

use vstd::prelude::*;
use crate::app::sync::prepare::same_str;
use crate::config::addition::{
    below, group_edit_of, group_not_table_text, groups_not_table_text, last_slash, repos_not_table_text, root_edit_of,
    climbs_below, configured_parents, has_parent, invalid_component_text, leaves_root_text,
    multiple_parents_text, name_taken_text, parent_of, check_unchanged, configured_display_path, different_url_text, existing_addition, first_at,
    first_named, group_edit, insertion_target, relative_path, root_edit, same_path,
    verify_added_repository, written_addition, Addition, CurrentContents, Edit, InsertionTarget,
    TableKind,
};
use crate::config::document::{
    child_get, doc_get, edited_items, kind_of_item, table_kind, ConfigDocument, DocItem, Place,
};
use crate::config::load::{load, parent_directory, read_sibling_override, sibling_override_path, ConfigFiles};
use crate::config::resolved::{GroupDirectory, ResolvedConfig};
use crate::config::validation::ResolutionError;
use crate::error::AppError;
use crate::paths::{components, is_absolute, join_parts, render, starts_with};
use crate::repositories::RepositoryDefinition;
use crate::text::push_str;

verus! {

/// The file system where `add` writes.
pub trait ConfigWriter {
    /// What the file holds now.
    fn current(&self, path: &str) -> CurrentContents;

    /// Replaces the file through a temporary file in its directory; the inner
    /// result says whether syncing the directory afterwards succeeded.
    fn write(&self, path: &str, contents: &str) -> Result<Result<(), AppError>, AppError>;
}

/// The file system with one file read as if it held other contents.
pub struct Replacing<'a, F: ConfigFiles> {
    pub files: &'a F,
    pub path: &'a str,
    pub contents: &'a str,
}

impl<'a, F: ConfigFiles> ConfigFiles for Replacing<'a, F> {
    fn current_dir(&self) -> Result<String, AppError> {
        self.files.current_dir()
    }

    /// The replaced file leads to itself; any other path as the file system
    /// says.
    open spec fn resolves_link(&self, path: Seq<char>, answer: Result<String, String>) -> bool {
        if path == self.path@ {
            answer matches Ok(t) && t@ == path
        } else {
            self.files.resolves_link(path, answer)
        }
    }

    fn canonicalize(&self, path: &str) -> (res: Result<String, String>)
        ensures
            path@ == self.path@ ==> (res matches Ok(t) && t@ == path@),
    {
        if same_str(path, self.path) {
            Ok(String::from_str(path))
        } else {
            self.files.canonicalize(path)
        }
    }

    /// The replaced file is there; anything else as the file system says.
    open spec fn finds_entry(&self, path: Seq<char>, answer: Result<bool, String>) -> bool {
        if path == self.path@ {
            answer == Ok::<bool, String>(true)
        } else {
            self.files.finds_entry(path, answer)
        }
    }

    fn entry_exists(&self, path: &str) -> (res: Result<bool, String>)
        ensures
            path@ == self.path@ ==> res == Ok::<bool, String>(true),
    {
        if same_str(path, self.path) {
            Ok(true)
        } else {
            self.files.entry_exists(path)
        }
    }

    fn is_file(&self, path: &str) -> (res: bool)
        ensures
            path@ == self.path@ ==> res,
    {
        same_str(path, self.path) || self.files.is_file(path)
    }

    /// The replaced file holds the new contents; any other file what the file
    /// system says.
    open spec fn holds_text(&self, path: Seq<char>, answer: Result<String, AppError>) -> bool {
        if path == self.path@ {
            answer matches Ok(t) && t@ == self.contents@
        } else {
            self.files.holds_text(path, answer)
        }
    }

    fn read_text(&self, path: &str) -> (res: Result<String, AppError>)
        ensures
            path@ == self.path@ ==> (res matches Ok(t) && t@ == self.contents@),
    {
        if same_str(path, self.path) {
            Ok(String::from_str(self.contents))
        } else {
            self.files.read_text(path)
        }
    }

    fn resolve_operational(&self, lexical: &str, root: &str) -> Option<Result<String, ResolutionError>> {
        self.files.resolve_operational(lexical, root)
    }
}

/// The file `add` writes to: the configuration itself, or with the override
/// option its sibling override, where it exists or would be created.
pub fn edit_destination<F: ConfigFiles>(files: &F, root_path: &str, override_file: bool) -> (res:
    Result<String, AppError>)
    ensures
        !override_file ==> (res matches Ok(d) && d@ == root_path@),
{
    if !override_file {
        return Ok(String::from_str(root_path));
    }
    match read_sibling_override(files, root_path) {
        Ok(Some((resolved, _))) => Ok(resolved),
        Ok(None) => Ok(sibling_override_path(root_path)),
        Err(e) => Err(e),
    }
}

/// The configuration holds the repository: under its name, at its path,
/// with its URL.
pub open spec fn holds_repository(
    repositories: Seq<RepositoryDefinition>,
    name: Seq<char>,
    path: Seq<char>,
    url: Seq<char>,
) -> bool {
    let named = first_named(repositories, name, repositories.len() as int);
    &&& named >= 0
    &&& same_path(repositories[named].path_view(), path)
    &&& repositories[named].url_view() == url
}

/// The path of a repository below the grove root, as `relative_path` gives
/// it when it does not refuse.
pub open spec fn relative_text(root: Seq<char>, repository: Seq<char>) -> Seq<char> {
    if below(root, repository).len() == 0 {
        "."@
    } else {
        join_parts(below(root, repository))
    }
}

/// The path a repository is written under when the library's own checks
/// pass: its configured group's path and its name when its parent directory
/// is one group directory, its path below the root otherwise.
pub open spec fn display_for(groups: Seq<GroupDirectory>, root: Seq<char>, repository: Seq<char>, name: Seq<char>) -> Seq<char> {
    let parents = configured_parents(groups, groups.len() as int, parent_of(repository));
    if has_parent(repository) && parents.len() == 1 {
        parents[0] + "/"@ + name
    } else {
        relative_text(root, repository)
    }
}

/// Where a display path puts a repository (`insertion_target`).
pub open spec fn place_for(display: Seq<char>, name: Seq<char>) -> Place {
    let cut = last_slash(display);
    if display == name {
        Place::Root(None)
    } else if cut > 0 && display.subrange(cut + 1, display.len() as int) == name {
        Place::Group(display.subrange(0, cut))
    } else {
        Place::Root(Some(display))
    }
}

/// The edit the document's tables allow at a place, if any.
pub open spec fn edit_for(items: Seq<(Seq<char>, DocItem)>, place: Place) -> Option<Edit> {
    match place {
        Place::Root(path) => root_edit_of(kind_of_item(doc_get(items, "repos"@)), path is Some),
        Place::Group(group) => group_edit_of(
            kind_of_item(doc_get(items, "groups"@)),
            kind_of_item(child_get(items, "groups"@, group)),
        ),
    }
}

/// Why the document's tables refuse a place.
pub open spec fn edit_refusal_text(items: Seq<(Seq<char>, DocItem)>, place: Place, destination: Seq<char>) -> Seq<char> {
    match place {
        Place::Root(_) => repos_not_table_text(destination),
        Place::Group(group) => if kind_of_item(doc_get(items, "groups"@)) is Other {
            groups_not_table_text(destination)
        } else {
            group_not_table_text(destination, group)
        },
    }
}

/// The document holds the repository written at `place` as the tables allow.
pub open spec fn written_at(
    before: Seq<(Seq<char>, DocItem)>,
    after: Seq<(Seq<char>, DocItem)>,
    place: Place,
    name: Seq<char>,
    url: Seq<char>,
) -> bool {
    match edit_for(before, place) {
        Some(edit) => edited_items(before, place, edit, name, url) == Some(after),
        None => false,
    }
}

/// The library's own checks let the repository through: its path and name
/// are new, it lies below the root, and its parent is at most one group.
pub open spec fn passes_checks(
    repositories: Seq<RepositoryDefinition>,
    groups: Seq<GroupDirectory>,
    root: Seq<char>,
    repository: Seq<char>,
    name: Seq<char>,
) -> bool {
    &&& first_at(repositories, repository, repositories.len() as int) < 0
    &&& first_named(repositories, name, repositories.len() as int) < 0
    &&& starts_with(repository, root)
    &&& !climbs_below(root, repository)
    &&& !(has_parent(repository) && configured_parents(groups, groups.len() as int, parent_of(repository)).len() > 1)
}

/// A configuration file open for additions, with the configuration as it
/// stands after the additions so far.
pub struct EditSession {
    pub root_path: String,
    pub root_directory: String,
    pub destination: String,
    pub document: ConfigDocument,
    pub baseline: Option<String>,
    pub resolved: ResolvedConfig,
    pub dry_run: bool,
}

impl EditSession {
    /// Opens `destination` for additions to the configuration rooted at
    /// `root_path`. Only an override may be missing; a document whose text
    /// would not survive an edit unchanged is refused.
    pub fn open<F: ConfigFiles, W: ConfigWriter>(
        files: &F,
        writer: &W,
        root_path: &str,
        destination: String,
        override_file: bool,
        dry_run: bool,
    ) -> (res: Result<Self, AppError>)
        ensures
            res matches Ok(s) ==> s.root_path@ == root_path@ && s.destination == destination
                && s.dry_run == dry_run && (s.baseline is None ==> override_file),
            res matches Ok(s) ==> s.root_directory@ == render(
                is_absolute(root_path@),
                components(root_path@).drop_last(),
            ),
            components(root_path@).len() == 0 ==> (res matches Err(AppError::ConfigError(m)) && m@
                == root_path@ + " has no parent"@),
            res matches Ok(s) ==> s.document.renders(),
            res matches Ok(s) ==> match s.baseline {
                Some(b) => s.document.text@ == b@,
                None => s.document.text@ == Seq::<char>::empty(),
            },
    {
        let root_directory = parent_directory(root_path)?;
        let resolved = load(files, Some(root_path))?;
        let baseline = match writer.current(destination.as_str()) {
            CurrentContents::Text(c) => Some(c),
            CurrentContents::NotFound(e) => if override_file {
                None
            } else {
                return Err(e);
            },
            CurrentContents::Failed(e) => return Err(e),
        };
        let contents = match &baseline {
            Some(c) => c.clone(),
            None => String::new(),
        };
        let document = match ConfigDocument::parse(contents.as_str()) {
            Ok(d) => d,
            Err(message) => {
                let mut m = destination.clone();
                push_str(&mut m, ": invalid TOML: ");
                push_str(&mut m, message.as_str());
                return Err(AppError::ConfigError(m));
            },
        };
        let rendered = document.render();
        if !(rendered == contents) {
            let mut m = destination.clone();
            push_str(&mut m, ": cannot preserve this TOML formatting; add the repository manually");
            return Err(AppError::ConfigError(m));
        }
        Ok(
            EditSession {
                root_path: String::from_str(root_path),
                root_directory,
                destination,
                document,
                baseline,
                resolved,
                dry_run,
            },
        )
    }

    /// Adds the worktree at `repository_path` (already canonical) under
    /// `name`. A path configured with the same URL is left unchanged; one
    /// configured with another URL, or a name configured elsewhere, is
    /// refused. Otherwise the repository is written where the layout of the
    /// configuration says, the whole configuration is loaded again with the
    /// edited text and must hold the repository, and only then, outside a
    /// dry run, does the text replace the file. A refusal leaves the session
    /// as it was.
    pub fn add<F: ConfigFiles, W: ConfigWriter>(
        &mut self,
        files: &F,
        writer: &W,
        name: &str,
        repository_path: &str,
        url: &str,
    ) -> (res: Result<Addition, AppError>)
        ensures
            final(self).root_path == old(self).root_path,
            final(self).root_directory == old(self).root_directory,
            final(self).destination == old(self).destination,
            final(self).dry_run == old(self).dry_run,
            res is Err ==> *final(self) == *old(self),
            ({
                let repositories = old(self).resolved.repositories@;
                let at = first_at(repositories, repository_path@, repositories.len() as int);
                &&& at >= 0 && repositories[at].url_view() == url@ ==> (res matches Ok(
                    Addition::Unchanged { name: n, display_path: d },
                ) && n@ == repositories[at].name_view() && d@ == repositories[at].display_path_view()
                    && *final(self) == *old(self))
                &&& at >= 0 && repositories[at].url_view() != url@ ==> (res matches Err(
                    AppError::ConfigError(m),
                ) && m@ == different_url_text(repository_path@, repositories[at].name_view()))
            }),
            ({
                let repositories = old(self).resolved.repositories@;
                let at = first_at(repositories, repository_path@, repositories.len() as int);
                let named = first_named(repositories, name@, repositories.len() as int);
                let root = old(self).root_directory@;
                let groups = old(self).resolved.groups@;
                let parents = configured_parents(groups, groups.len() as int, parent_of(repository_path@));
                &&& at < 0 && named >= 0 ==> (res matches Err(AppError::ConfigError(m)) && m@
                    == name_taken_text(name@, repositories[named].path_view()))
                &&& at < 0 && named < 0 && !starts_with(repository_path@, root) ==> (res matches Err(
                    AppError::ConfigError(m),
                ) && m@ == leaves_root_text(repository_path@, root))
                &&& at < 0 && named < 0 && climbs_below(root, repository_path@) ==> (res matches Err(
                    AppError::Internal(m),
                ) && m@ == invalid_component_text())
                &&& at < 0 && named < 0 && starts_with(repository_path@, root) && !climbs_below(
                    root,
                    repository_path@,
                ) && has_parent(repository_path@) && parents.len() > 1 ==> (res matches Err(
                    AppError::ConfigError(m),
                ) && m@ == multiple_parents_text(parent_of(repository_path@), parents, name@))
            }),
            res matches Ok(Addition::Added { name: n, .. }) ==> n@ == name@ && holds_repository(
                final(self).resolved.repositories@,
                name@,
                repository_path@,
                url@,
            ),
            res matches Ok(Addition::DurabilityUnconfirmed { name: n, .. }) ==> n@ == name@
                && holds_repository(
                final(self).resolved.repositories@,
                name@,
                repository_path@,
                url@,
            ),
            old(self).dry_run ==> final(self).baseline == old(self).baseline && !(res matches Ok(
                Addition::DurabilityUnconfirmed { .. },
            )),
            ({
                let before = old(self).document.items();
                let display = display_for(
                    old(self).resolved.groups@,
                    old(self).root_directory@,
                    repository_path@,
                    name@,
                );
                let place = place_for(display, name@);
                &&& passes_checks(
                    old(self).resolved.repositories@,
                    old(self).resolved.groups@,
                    old(self).root_directory@,
                    repository_path@,
                    name@,
                ) && edit_for(before, place) is None ==> (res matches Err(AppError::ConfigError(m))
                    && m@ == edit_refusal_text(before, place, old(self).destination@))
                &&& res matches Ok(Addition::Added { display_path: d, .. }) ==> d@ == display
                    && written_at(before, final(self).document.items(), place, name@, url@)
                &&& res matches Ok(Addition::DurabilityUnconfirmed { display_path: d, .. }) ==> d@
                    == display && written_at(before, final(self).document.items(), place, name@, url@)
            }),
            !old(self).dry_run && (res matches Ok(Addition::Added { .. }) || res matches Ok(
                Addition::DurabilityUnconfirmed { .. },
            )) ==> (final(self).baseline matches Some(b) && b@ == final(self).document.text@),
            (res matches Ok(Addition::Added { .. }) || res matches Ok(Addition::DurabilityUnconfirmed { .. }))
                ==> final(self).document.renders(),
            old(self).document.renders() ==> final(self).document.renders(),
    {
        match existing_addition(self.resolved.repositories.as_slice(), name, repository_path, url) {
            Ok(Some(existing)) => return Ok(existing),
            Ok(None) => {},
            Err(e) => return Err(e),
        }
        let relative = relative_path(self.root_directory.as_str(), repository_path)?;
        let display = configured_display_path(
            self.resolved.groups.as_slice(),
            repository_path,
            relative.as_str(),
            name,
        )?;
        let destination = self.destination.as_str();
        let target = insertion_target(display.as_str(), name);
        let edit = match &target {
            InsertionTarget::Root { path } => root_edit(
                table_kind(&self.document.top_shape("repos")),
                path.is_some(),
                destination,
            )?,
            InsertionTarget::Group { group } => group_edit(
                table_kind(&self.document.top_shape("groups")),
                table_kind(&self.document.group_shape(group.as_str())),
                group.as_str(),
                destination,
            )?,
        };
        let candidate = self.document.with_repository(&target, edit, name, url)?;
        let contents = candidate.render();
        let replacing = Replacing { files, path: destination, contents: contents.as_str() };
        let resolved = load(&replacing, Some(self.root_path.as_str()))?;
        verify_added_repository(resolved.repositories.as_slice(), name, repository_path, url)?;
        let addition = if self.dry_run {
            Addition::Added { name: String::from_str(name), display_path: display }
        } else {
            let baseline = match &self.baseline {
                Some(b) => Some(b.as_str()),
                None => None,
            };
            check_unchanged(destination, baseline, writer.current(destination))?;
            let synced = writer.write(destination, contents.as_str())?;
            let addition = written_addition(String::from_str(name), display, destination, synced);
            self.baseline = Some(contents);
            addition
        };
        self.document = candidate;
        self.resolved = resolved;
        Ok(addition)
    }
}

} // verus!
