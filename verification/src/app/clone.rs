//! `gv clone`: one repository through the local cache, independent of any
//! configuration file.

use vstd::prelude::*;
use std::time::Duration;
use crate::cache::Outcome as CacheOutcome;
use crate::app::context::{AppContext, CacheStore, Clock};
use crate::error::AppError;
use crate::git::GitClient;
use crate::paths::{join, join_path};
use crate::repositories::RemoteUrl;
use crate::zoxide::ZoxideClient;

verus! {

/// The result of a clone.
#[derive(Debug, PartialEq, Eq)]
pub struct Report {
    pub destination: String,
    pub url: String,
    pub cache: CacheOutcome,
    pub elapsed: Duration,
}

impl Report {
    pub fn new(destination: String, url: String, cache: CacheOutcome, elapsed: Duration) -> (r:
        Report)
        ensures
            r.destination == destination,
            r.url == url,
            r.cache == cache,
            r.elapsed == elapsed,
    {
        Report { destination, url, cache, elapsed }
    }

    pub fn destination(&self) -> (s: &str)
        ensures
            s@ == self.destination@,
    {
        self.destination.as_str()
    }

    pub fn url(&self) -> (s: &str)
        ensures
            s@ == self.url@,
    {
        self.url.as_str()
    }

    pub fn cache(&self) -> (c: CacheOutcome)
        ensures
            c == self.cache,
    {
        self.cache
    }

    pub fn elapsed(&self) -> (d: Duration)
        ensures
            d == self.elapsed,
    {
        self.elapsed
    }
}

/// The part of a URL before any query (`?`) or fragment (`#`).
pub open spec fn before_query(s: Seq<char>) -> Seq<char>
    decreases s.len(),
{
    if s.len() == 0 {
        s
    } else {
        let prev = before_query(s.drop_last());
        if prev.len() < s.len() - 1 || s.last() == '?' || s.last() == '#' {
            prev
        } else {
            s
        }
    }
}

/// `s` without trailing `/`.
pub open spec fn trim_slashes(s: Seq<char>) -> Seq<char>
    decreases s.len(),
{
    if s.len() > 0 && s.last() == '/' {
        trim_slashes(s.drop_last())
    } else {
        s
    }
}

/// The part of `s` after its last `/` or `:`.
pub open spec fn last_segment(s: Seq<char>) -> Seq<char>
    decreases s.len(),
{
    if s.len() == 0 {
        s
    } else if s.last() == '/' || s.last() == ':' {
        Seq::empty()
    } else {
        last_segment(s.drop_last()).push(s.last())
    }
}

pub open spec fn git_suffix() -> Seq<char> {
    seq!['.', 'g', 'i', 't']
}

/// `s` without a trailing `.git`.
pub open spec fn strip_git(s: Seq<char>) -> Seq<char> {
    if s.len() >= 4 && s.subrange(s.len() - 4, s.len() as int) == git_suffix() {
        s.subrange(0, s.len() - 4)
    } else {
        s
    }
}

/// The directory name `gv clone` infers: the last path segment of the URL,
/// with queries, fragments, trailing slashes and a `.git` suffix removed.
/// Queries and fragments can carry credentials, so they never reach it.
pub open spec fn inferred_name(url: Seq<char>) -> Seq<char> {
    strip_git(last_segment(trim_slashes(before_query(url))))
}

pub open spec fn usable_name(name: Seq<char>) -> bool {
    name.len() > 0 && name != seq!['.'] && name != seq!['.', '.']
}

pub open spec fn cannot_infer_text() -> Seq<char> {
    "cannot infer a destination directory from the URL; specify one explicitly"@
}

proof fn lemma_before_query_prefix(s: Seq<char>)
    ensures
        before_query(s).len() <= s.len(),
        before_query(s) == s.subrange(0, before_query(s).len() as int),
    decreases s.len(),
{
    if s.len() > 0 {
        lemma_before_query_prefix(s.drop_last());
        assert(s.drop_last().subrange(0, before_query(s.drop_last()).len() as int) == s.subrange(
            0,
            before_query(s.drop_last()).len() as int,
        ));
    }
}

fn query_start(chars: &Vec<char>) -> (n: usize)
    ensures
        n <= chars@.len(),
        chars@.subrange(0, n as int) == before_query(chars@),
{
    let mut i: usize = 0;
    while i < chars.len()
        invariant
            i <= chars@.len(),
            before_query(chars@.subrange(0, i as int)) == chars@.subrange(0, i as int),
        decreases chars@.len() - i,
    {
        assert(chars@.subrange(0, i + 1).drop_last() == chars@.subrange(0, i as int));
        if chars[i] == '?' || chars[i] == '#' {
            proof {
                lemma_query_fixed(chars@, i as int, chars@.len() as int);
                assert(chars@.subrange(0, chars@.len() as int) == chars@);
            }
            return i;
        }
        i = i + 1;
    }
    assert(chars@.subrange(0, i as int) == chars@);
    i
}

proof fn lemma_query_fixed(s: Seq<char>, i: int, n: int)
    requires
        0 <= i < n <= s.len(),
        before_query(s.subrange(0, i)) == s.subrange(0, i),
        s[i] == '?' || s[i] == '#',
    ensures
        before_query(s.subrange(0, n)) == s.subrange(0, i),
    decreases n,
{
    if n == i + 1 {
        assert(s.subrange(0, n).drop_last() == s.subrange(0, i));
    } else {
        lemma_query_fixed(s, i, n - 1);
        assert(s.subrange(0, n).drop_last() == s.subrange(0, n - 1));
        lemma_before_query_prefix(s.subrange(0, n - 1));
    }
}

proof fn lemma_before_query_clean(s: Seq<char>)
    ensures
        forall|i: int|
            0 <= i < before_query(s).len() ==> before_query(s)[i] != '?' && before_query(s)[i]
                != '#',
    decreases s.len(),
{
    if s.len() > 0 {
        lemma_before_query_clean(s.drop_last());
        lemma_before_query_prefix(s.drop_last());
        let prev = before_query(s.drop_last());
        if !(prev.len() < s.len() - 1 || s.last() == '?' || s.last() == '#') {
            assert(prev =~= s.drop_last());
            assert forall|i: int| 0 <= i < s.len() implies s[i] != '?' && s[i] != '#' by {
                if i < s.len() - 1 {
                    assert(s[i] == prev[i]);
                }
            }
        }
    }
}

proof fn lemma_trim_slashes_prefix(s: Seq<char>)
    ensures
        trim_slashes(s).len() <= s.len(),
        forall|i: int| 0 <= i < trim_slashes(s).len() ==> trim_slashes(s)[i] == s[i],
    decreases s.len(),
{
    if s.len() > 0 && s.last() == '/' {
        lemma_trim_slashes_prefix(s.drop_last());
        assert forall|i: int| 0 <= i < trim_slashes(s).len() implies trim_slashes(s)[i] == s[i] by {
            assert(s.drop_last()[i] == s[i]);
        }
    }
}

proof fn lemma_last_segment_suffix(s: Seq<char>)
    ensures
        last_segment(s).len() <= s.len(),
        forall|i: int|
            0 <= i < last_segment(s).len() ==> last_segment(s)[i] == s[s.len() - last_segment(
                s,
            ).len() + i],
        forall|i: int|
            0 <= i < last_segment(s).len() ==> last_segment(s)[i] != '/' && last_segment(s)[i]
                != ':',
    decreases s.len(),
{
    if s.len() > 0 && !(s.last() == '/' || s.last() == ':') {
        lemma_last_segment_suffix(s.drop_last());
        let prev = last_segment(s.drop_last());
        assert forall|i: int| 0 <= i < last_segment(s).len() implies last_segment(s)[i] == s[s.len()
            - last_segment(s).len() + i] by {
            if i < prev.len() {
                assert(last_segment(s)[i] == prev[i]);
            }
        }
    }
}

/// The inferred directory name is one path component that never carries a
/// query or fragment: it holds no `/`, `:`, `?` or `#`, so credentials given
/// as `?access_token=...` never reach the file system.
pub proof fn law_inferred_name_is_one_clean_component(url: Seq<char>)
    ensures
        forall|i: int|
            0 <= i < inferred_name(url).len() ==> {
                let c = #[trigger] inferred_name(url)[i];
                c != '/' && c != ':' && c != '?' && c != '#'
            },
{
    let q = before_query(url);
    lemma_before_query_clean(url);
    let t = trim_slashes(q);
    lemma_trim_slashes_prefix(q);
    let seg = last_segment(t);
    lemma_last_segment_suffix(t);
    let name = strip_git(seg);
    assert forall|i: int| 0 <= i < name.len() implies {
        let c = #[trigger] name[i];
        c != '/' && c != ':' && c != '?' && c != '#'
    } by {
        assert(name[i] == seg[i]);
        let j = t.len() - seg.len() + i;
        assert(seg[i] == t[j]);
        assert(t[j] == q[j]);
    }
}

/// The directory name for a clone of `url` when none is given.
pub fn default_destination_name(url: &str) -> (res: Result<String, AppError>)
    ensures
        usable_name(inferred_name(url@)) ==> (res matches Ok(n) && n@ == inferred_name(url@)),
        !usable_name(inferred_name(url@)) ==> (res matches Err(AppError::InvalidArguments(m)) && m@
            == cannot_infer_text()),
{
    let chars = crate::text::chars_of(url);
    let end = query_start(&chars);
    let ghost path = chars@.subrange(0, end as int);
    // Trailing slashes.
    let mut stop = end;
    while stop > 0 && chars[stop - 1] == '/'
        invariant
            stop <= end <= chars@.len(),
            path == chars@.subrange(0, end as int),
            trim_slashes(chars@.subrange(0, stop as int)) == trim_slashes(path),
        decreases stop,
    {
        assert(chars@.subrange(0, stop as int).drop_last() == chars@.subrange(0, stop - 1));
        stop = stop - 1;
    }
    assert(trim_slashes(chars@.subrange(0, stop as int)) == chars@.subrange(0, stop as int));
    // The last segment.
    let mut start = stop;
    while start > 0 && chars[start - 1] != '/' && chars[start - 1] != ':'
        invariant
            start <= stop <= chars@.len(),
            last_segment(chars@.subrange(0, stop as int)) == last_segment(
                chars@.subrange(0, start as int),
            ) + chars@.subrange(start as int, stop as int),
        decreases start,
    {
        let ghost prefix = chars@.subrange(0, start as int);
        assert(prefix.drop_last() == chars@.subrange(0, start - 1));
        assert(chars@.subrange(start - 1, stop as int) == seq![prefix.last()] + chars@.subrange(
            start as int,
            stop as int,
        ));
        assert(last_segment(prefix) == last_segment(prefix.drop_last()).push(prefix.last()));
        assert(last_segment(prefix.drop_last()).push(prefix.last()) + chars@.subrange(
            start as int,
            stop as int,
        ) == last_segment(prefix.drop_last()) + chars@.subrange(start - 1, stop as int));
        start = start - 1;
    }
    assert(last_segment(chars@.subrange(0, start as int)) == Seq::<char>::empty()) by {
        if start > 0 {
            assert(chars@.subrange(0, start as int).last() == chars@[start - 1]);
        }
    }
    assert(last_segment(chars@.subrange(0, stop as int)) == chars@.subrange(start as int, stop as int));
    // A `.git` suffix.
    let mut finish = stop;
    if stop - start >= 4 && chars[stop - 4] == '.' && chars[stop - 3] == 'g' && chars[stop - 2]
        == 'i' && chars[stop - 1] == 't' {
        finish = stop - 4;
        assert(chars@.subrange(start as int, stop as int).subrange(
            (stop - start) - 4,
            (stop - start) as int,
        ) == git_suffix());
    } else {
        proof {
            let seg = chars@.subrange(start as int, stop as int);
            if seg.len() >= 4 && seg.subrange(seg.len() - 4, seg.len() as int) == git_suffix() {
                assert(seg.subrange(seg.len() - 4, seg.len() as int)[0] == chars@[stop - 4]);
                assert(seg.subrange(seg.len() - 4, seg.len() as int)[1] == chars@[stop - 3]);
                assert(seg.subrange(seg.len() - 4, seg.len() as int)[2] == chars@[stop - 2]);
                assert(seg.subrange(seg.len() - 4, seg.len() as int)[3] == chars@[stop - 1]);
            }
        }
    }
    assert(chars@.subrange(start as int, finish as int) == inferred_name(url@));
    let mut name = String::new();
    let mut k = start;
    while k < finish
        invariant
            start <= k <= finish <= chars@.len(),
            name@ == chars@.subrange(start as int, k as int),
        decreases finish - k,
    {
        crate::text::push_char(&mut name, chars[k]);
        k = k + 1;
        assert(name@ == chars@.subrange(start as int, k as int));
    }
    if name.unicode_len() == 0 || crate::paths::is_dot(name.as_str()) || crate::paths::is_dot_dot(
        name.as_str(),
    ) {
        Err(
            AppError::InvalidArguments(
                String::from_str(
                    "cannot infer a destination directory from the URL; specify one explicitly",
                ),
            ),
        )
    } else {
        Ok(name)
    }
}

/// Where a clone goes: the given destination, or the name inferred from
/// the URL, below the working directory.
pub fn resolve_destination(url: &str, destination: Option<&str>, cwd: &str) -> (res: Result<
    String,
    AppError,
>)
    ensures
        destination matches Some(d) ==> (res matches Ok(p) && p@ == join(cwd@, d@)),
        destination is None && usable_name(inferred_name(url@)) ==> (res matches Ok(p) && p@
            == join(cwd@, inferred_name(url@))),
        destination is None && !usable_name(inferred_name(url@)) ==> (res matches Err(
            AppError::InvalidArguments(m),
        ) && m@ == cannot_infer_text()),
{
    match destination {
        Some(d) => Ok(join_path(cwd, d)),
        None => match default_destination_name(url) {
            Ok(name) => Ok(join_path(cwd, name.as_str())),
            Err(e) => Err(e),
        },
    }
}

/// `gv clone`: one repository through the cache, into the given or the
/// inferred destination.
pub fn execute<G: GitClient, Z: ZoxideClient, C: CacheStore, K: Clock>(
    ctx: &AppContext<G, Z>,
    cache: &C,
    clock: &K,
    cwd: &str,
    url: &str,
    destination: Option<&str>,
) -> (res: Result<Report, AppError>)
    ensures
        res matches Ok(r) ==> r.url@ == url@,
        res matches Ok(r) ==> match destination {
            Some(d) => r.destination@ == join(cwd@, d@),
            None => r.destination@ == join(cwd@, inferred_name(url@)),
        },
        res is Ok ==> crate::repositories::valid_token(url@),
        destination is None && !usable_name(inferred_name(url@)) ==> res is Err,
        res matches Ok(r) ==> cache.places(url@, r.destination@, None, None, Ok::<CacheOutcome, AppError>(r.cache)),
{
    match ctx.git().verify_available() {
        Ok(()) => {},
        Err(e) => return Err(e),
    }
    let remote = match RemoteUrl::new(url) {
        Ok(r) => r,
        Err(e) => return Err(e),
    };
    let target = match resolve_destination(url, destination, cwd) {
        Ok(t) => t,
        Err(e) => return Err(e),
    };
    let mark = clock.mark();
    let outcome = match cache.place(remote.as_str(), target.as_str(), None, None) {
        Ok(o) => o,
        Err(e) => return Err(e),
    };
    Ok(Report::new(target, String::from_str(url), outcome, clock.elapsed_since(mark)))
}

} // verus!
