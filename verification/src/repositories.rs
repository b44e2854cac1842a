//! The repository vocabulary: validated names, branch names, remote URLs and
//! the resolved definition of one managed repository.

use vstd::prelude::*;
use crate::error::AppError;
use crate::text::{chars_of, push_str};

verus! {

/// A character allowed in a repository name: an ASCII letter or digit, `-`,
/// `_` or `.`.
pub open spec fn is_name_char(c: char) -> bool {
    ('a' <= c && c <= 'z') || ('A' <= c && c <= 'Z') || ('0' <= c && c <= '9') || c == '-' || c
        == '_' || c == '.'
}

/// A usable repository name: non-empty, made of name characters, and not `.`
/// or `..` (which name no directory of their own).
pub open spec fn valid_repository_name(s: Seq<char>) -> bool {
    &&& s.len() > 0
    &&& forall|i: int| 0 <= i < s.len() ==> is_name_char(#[trigger] s[i])
    &&& s != seq!['.']
    &&& s != seq!['.', '.']
}

/// Whitespace and control characters, which never belong in a branch name or
/// a remote URL.
pub open spec fn is_blank_or_control(c: char) -> bool {
    c == ' ' || c == '\t' || c == '\n' || c == '\r' || (c as u32) < 0x20 || c as u32 == 0x7f
}

/// A non-empty text without whitespace or control characters.
pub open spec fn valid_token(s: Seq<char>) -> bool {
    &&& s.len() > 0
    &&& forall|i: int| 0 <= i < s.len() ==> !is_blank_or_control(#[trigger] s[i])
}

fn is_name_character(c: char) -> (res: bool)
    ensures
        res == is_name_char(c),
{
    ('a' <= c && c <= 'z') || ('A' <= c && c <= 'Z') || ('0' <= c && c <= '9') || c == '-' || c
        == '_' || c == '.'
}

fn is_blank_or_control_character(c: char) -> (res: bool)
    ensures
        res == is_blank_or_control(c),
{
    c == ' ' || c == '\t' || c == '\n' || c == '\r' || (c as u32) < 0x20 || c as u32 == 0x7f
}

fn check_token(s: &str) -> (res: bool)
    ensures
        res == valid_token(s@),
{
    let chars = chars_of(s);
    if chars.len() == 0 {
        return false;
    }
    let mut i: usize = 0;
    while i < chars.len()
        invariant
            chars@ == s@,
            i <= chars@.len(),
            forall|j: int| 0 <= j < i ==> !is_blank_or_control(#[trigger] chars@[j]),
        decreases chars@.len() - i,
    {
        if is_blank_or_control_character(chars[i]) {
            return false;
        }
        i = i + 1;
    }
    true
}

/// Whether `s` is a usable repository name.
pub fn check_repository_name(s: &str) -> (res: bool)
    ensures
        res == valid_repository_name(s@),
{
    let chars = chars_of(s);
    if chars.len() == 0 {
        return false;
    }
    let mut i: usize = 0;
    while i < chars.len()
        invariant
            chars@ == s@,
            i <= chars@.len(),
            forall|j: int| 0 <= j < i ==> is_name_char(#[trigger] chars@[j]),
        decreases chars@.len() - i,
    {
        if !is_name_character(chars[i]) {
            return false;
        }
        i = i + 1;
    }
    if crate::paths::is_dot(s) || crate::paths::is_dot_dot(s) {
        return false;
    }
    true
}

/// The name of a managed repository.
#[derive(Debug, Clone, PartialEq, Eq)]
pub struct RepositoryName {
    value: String,
}

impl RepositoryName {
    pub closed spec fn view(&self) -> Seq<char> {
        self.value@
    }

    /// A copy of the value.
    pub fn duplicate(&self) -> (d: Self)
        ensures
            d == *self,
    {
        RepositoryName { value: self.value.clone() }
    }

    /// Validates a repository name.
    pub fn new(name: &str) -> (res: Result<RepositoryName, AppError>)
        ensures
            res matches Ok(n) ==> n.view() == name@,
            res is Ok <==> valid_repository_name(name@),
            res matches Err(e) ==> e is InvalidArguments,
    {
        if check_repository_name(name) {
            Ok(RepositoryName { value: String::from_str(name) })
        } else {
            let mut m = String::new();
            push_str(&mut m, "invalid repository name '");
            push_str(&mut m, name);
            push_str(&mut m, "'; names may contain only ASCII letters, digits, '-', '_' and '.'");
            Err(AppError::InvalidArguments(m))
        }
    }

    pub fn as_str(&self) -> (s: &str)
        ensures
            s@ == self.view(),
    {
        self.value.as_str()
    }
}

/// The name of a Git branch, as written in configuration.
#[derive(Debug, Clone, PartialEq, Eq)]
pub struct BranchName {
    value: String,
}

impl BranchName {
    pub closed spec fn view(&self) -> Seq<char> {
        self.value@
    }

    /// A copy of the value.
    pub fn duplicate(&self) -> (d: Self)
        ensures
            d == *self,
    {
        BranchName { value: self.value.clone() }
    }

    /// Validates a branch name: non-empty, without whitespace or control
    /// characters.
    pub fn new(name: &str) -> (res: Result<BranchName, AppError>)
        ensures
            res matches Ok(b) ==> b.view() == name@,
            res is Ok <==> valid_token(name@),
            res matches Err(e) ==> e is InvalidArguments,
    {
        if check_token(name) {
            Ok(BranchName { value: String::from_str(name) })
        } else {
            let mut m = String::new();
            push_str(&mut m, "invalid branch name '");
            push_str(&mut m, name);
            push_str(&mut m, "'");
            Err(AppError::InvalidArguments(m))
        }
    }

    pub fn as_str(&self) -> (s: &str)
        ensures
            s@ == self.view(),
    {
        self.value.as_str()
    }
}

/// A remote URL as configured.
#[derive(Debug, Clone, PartialEq, Eq)]
pub struct RemoteUrl {
    value: String,
}

impl RemoteUrl {
    pub closed spec fn view(&self) -> Seq<char> {
        self.value@
    }

    /// A copy of the value.
    pub fn duplicate(&self) -> (d: Self)
        ensures
            d == *self,
    {
        RemoteUrl { value: self.value.clone() }
    }

    /// Validates a remote URL: non-empty, without whitespace or control
    /// characters.
    pub fn new(url: &str) -> (res: Result<RemoteUrl, AppError>)
        ensures
            res matches Ok(u) ==> u.view() == url@,
            res is Ok <==> valid_token(url@),
            res matches Err(e) ==> e is InvalidArguments,
    {
        if check_token(url) {
            Ok(RemoteUrl { value: String::from_str(url) })
        } else {
            Err(AppError::InvalidArguments(String::from_str("invalid remote URL")))
        }
    }

    pub fn as_str(&self) -> (s: &str)
        ensures
            s@ == self.view(),
    {
        self.value.as_str()
    }
}

/// One managed repository, fully resolved from configuration.
#[derive(Debug, Clone)]
pub struct RepositoryDefinition {
    name: RepositoryName,
    path: String,
    display_path: String,
    url: RemoteUrl,
    default_branch: Option<BranchName>,
    source_config: String,
    root: String,
}

impl RepositoryDefinition {
    pub closed spec fn name_view(&self) -> Seq<char> {
        self.name.view()
    }

    pub closed spec fn path_view(&self) -> Seq<char> {
        self.path@
    }

    pub closed spec fn display_path_view(&self) -> Seq<char> {
        self.display_path@
    }

    pub closed spec fn url_view(&self) -> Seq<char> {
        self.url.view()
    }

    pub closed spec fn default_branch_view(&self) -> Option<Seq<char>> {
        match self.default_branch {
            Some(b) => Some(b.view()),
            None => None,
        }
    }

    pub closed spec fn source_config_view(&self) -> Seq<char> {
        self.source_config@
    }

    pub closed spec fn root_view(&self) -> Seq<char> {
        self.root@
    }

    pub fn new(
        name: RepositoryName,
        path: String,
        display_path: String,
        url: RemoteUrl,
        default_branch: Option<BranchName>,
        source_config: String,
        root: String,
    ) -> (d: RepositoryDefinition)
        ensures
            d.name_view() == name.view(),
            d.path_view() == path@,
            d.display_path_view() == display_path@,
            d.url_view() == url.view(),
            d.default_branch_view() == (match default_branch {
                Some(b) => Some(b.view()),
                None => None,
            }),
            d.source_config_view() == source_config@,
            d.root_view() == root@,
    {
        RepositoryDefinition { name, path, display_path, url, default_branch, source_config, root }
    }

    pub fn name(&self) -> (n: &RepositoryName)
        ensures
            n.view() == self.name_view(),
    {
        &self.name
    }

    pub fn path(&self) -> (p: &str)
        ensures
            p@ == self.path_view(),
    {
        self.path.as_str()
    }

    pub fn display_path(&self) -> (p: &str)
        ensures
            p@ == self.display_path_view(),
    {
        self.display_path.as_str()
    }

    pub fn url(&self) -> (u: &RemoteUrl)
        ensures
            u.view() == self.url_view(),
    {
        &self.url
    }

    pub fn default_branch(&self) -> (b: Option<&BranchName>)
        ensures
            match b {
                Some(b) => self.default_branch_view() == Some(b.view()),
                None => self.default_branch_view() is None,
            },
    {
        self.default_branch.as_ref()
    }

    pub fn source_config(&self) -> (p: &str)
        ensures
            p@ == self.source_config_view(),
    {
        self.source_config.as_str()
    }

    /// The directory of the root `grove.toml` this repository belongs to.
    pub fn root(&self) -> (p: &str)
        ensures
            p@ == self.root_view(),
    {
        self.root.as_str()
    }

    /// A copy of the definition.
    pub fn duplicate(&self) -> (d: Self)
        ensures
            d == *self,
    {
        RepositoryDefinition {
            name: self.name.duplicate(),
            path: self.path.clone(),
            display_path: self.display_path.clone(),
            url: self.url.duplicate(),
            default_branch: match &self.default_branch {
                Some(b) => Some(b.duplicate()),
                None => None,
            },
            source_config: self.source_config.clone(),
            root: self.root.clone(),
        }
    }
}

/// A command-line target names a repository by its name or its path as
/// configured.
pub open spec fn matches_target(repository: RepositoryDefinition, target: Seq<char>) -> bool {
    repository.name_view() == target || repository.display_path_view() == target
}

pub open spec fn targeted(repository: RepositoryDefinition, targets: Seq<String>) -> bool {
    exists|k: int| 0 <= k < targets.len() && matches_target(repository, (#[trigger] targets[k])@)
}

pub open spec fn known_target(repositories: Seq<RepositoryDefinition>, target: Seq<char>) -> bool {
    exists|i: int| 0 <= i < repositories.len() && matches_target(#[trigger] repositories[i], target)
}

pub open spec fn unknown_target_text(target: Seq<char>) -> Seq<char> {
    "unknown repository '"@ + target + "'"@
}

fn matches_any(repository: &RepositoryDefinition, targets: &Vec<String>) -> (res: bool)
    ensures
        res == targeted(*repository, targets@),
{
    let mut k: usize = 0;
    while k < targets.len()
        invariant
            k <= targets@.len(),
            forall|j: int| 0 <= j < k ==> !matches_target(*repository, (#[trigger] targets@[j])@),
        decreases targets@.len() - k,
    {
        let t = targets[k].as_str();
        if crate::app::sync::prepare::same_str(repository.name().as_str(), t)
            || crate::app::sync::prepare::same_str(repository.display_path(), t) {
            assert(matches_target(*repository, targets@[k as int]@));
            return true;
        }
        k = k + 1;
    }
    false
}

fn is_known(repositories: &[RepositoryDefinition], target: &str) -> (res: bool)
    ensures
        res == known_target(repositories@, target@),
{
    let mut i: usize = 0;
    while i < repositories.len()
        invariant
            i <= repositories@.len(),
            forall|j: int| 0 <= j < i ==> !matches_target(#[trigger] repositories@[j], target@),
        decreases repositories@.len() - i,
    {
        if crate::app::sync::prepare::same_str(repositories[i].name().as_str(), target)
            || crate::app::sync::prepare::same_str(repositories[i].display_path(), target) {
            assert(matches_target(repositories@[i as int], target@));
            return true;
        }
        i = i + 1;
    }
    false
}

/// The positions of the repositories a command works on: increasing, in
/// range, and exactly those a target names (all of them without targets).
pub open spec fn selection_of(repositories: Seq<RepositoryDefinition>, targets: Seq<String>, idx: Seq<usize>) -> bool {
    &&& forall|a: int, b: int| 0 <= a < b < idx.len() ==> idx[a] < idx[b]
    &&& forall|k: int| 0 <= k < idx.len() ==> idx[k] < repositories.len()
    &&& forall|i: usize|
        i < repositories.len() ==> (idx.contains(i) <==> (targets.len() == 0 || targeted(
            repositories[i as int],
            targets,
        )))
}

/// The repositories at the given positions, in order.
pub open spec fn picked(repositories: Seq<RepositoryDefinition>, idx: Seq<usize>) -> Seq<RepositoryDefinition> {
    Seq::new(idx.len(), |k: int| repositories[idx[k] as int])
}

/// The repositories a command works on, by position, in configuration
/// order: all of them when no target is given, otherwise those a target
/// names. A target that names no repository is refused.
pub fn select_repositories(repositories: &[RepositoryDefinition], targets: &Vec<String>) -> (res:
    Result<Vec<usize>, AppError>)
    ensures
        (forall|k: int| 0 <= k < targets@.len() ==> known_target(repositories@, (#[trigger] targets@[k])@))
            ==> (res matches Ok(out) && selection_of(repositories@, targets@, out@)),
        !(forall|k: int| 0 <= k < targets@.len() ==> known_target(repositories@, (#[trigger] targets@[k])@))
            ==> (res matches Err(AppError::InvalidArguments(m)) && exists|k: int|
            0 <= k < targets@.len() && !known_target(repositories@, targets@[k]@) && m@
                == unknown_target_text(targets@[k]@)),
{
    let mut k: usize = 0;
    while k < targets.len()
        invariant
            k <= targets@.len(),
            forall|j: int| 0 <= j < k ==> known_target(repositories@, (#[trigger] targets@[j])@),
        decreases targets@.len() - k,
    {
        if !is_known(repositories, targets[k].as_str()) {
            let mut m = String::from_str("unknown repository '");
            push_str(&mut m, targets[k].as_str());
            push_str(&mut m, "'");
            return Err(AppError::InvalidArguments(m));
        }
        k = k + 1;
    }
    let all = targets.len() == 0;
    let mut out: Vec<usize> = Vec::new();
    let mut i: usize = 0;
    while i < repositories.len()
        invariant
            i <= repositories@.len(),
            all == (targets@.len() == 0),
            forall|a: int, b: int| 0 <= a < b < out@.len() ==> out@[a] < out@[b],
            forall|j: int| 0 <= j < out@.len() ==> out@[j] < i,
            forall|j: usize|
                j < i ==> (out@.contains(j) <==> (all || targeted(repositories@[j as int], targets@))),
        decreases repositories@.len() - i,
    {
        let selected = all || matches_any(&repositories[i], targets);
        let ghost before = out@;
        if selected {
            out.push(i);
        }
        assert(forall|j: int| 0 <= j < out@.len() ==> out@[j] < i + 1);
        assert forall|j: usize|
            j < i + 1 implies (out@.contains(j) <==> (all || targeted(
                repositories@[j as int],
                targets@,
            ))) by {
            if j < i {
                if before.contains(j) {
                    let t = choose|t: int| 0 <= t < before.len() && before[t] == j;
                    assert(out@[t] == before[t]);
                }
                if out@.contains(j) {
                    let t = choose|t: int| 0 <= t < out@.len() && out@[t] == j;
                    if t < before.len() {
                        assert(before[t] == out@[t]);
                    }
                }
            } else {
                if selected {
                    assert(out@[out@.len() - 1] == i);
                } else {
                    assert(out@ == before);
                    if before.contains(i) {
                        let t = choose|t: int| 0 <= t < before.len() && before[t] == i;
                        assert(before[t] < i);
                    }
                }
            }
        }
        i = i + 1;
    }
    Ok(out)
}

} // verus!
