//! The local clone cache: naming of entries, and the decisions taken when an
//! entry is placed, seeded or located.

use vstd::prelude::*;
use crate::config::validation::ResolutionError;
use crate::error::AppError;
use crate::text::{chars_of, hexadecimal_fixed, push_char, push_hexadecimal_fixed, push_str};

verus! {

/// What happened to the cache entry backing a placement.
#[derive(Debug, Clone, Copy, PartialEq, Eq)]
pub enum Outcome {
    /// No entry existed; a new one was created.
    Miss,
    /// The entry existed and the branch it follows was refreshed.
    Hit,
    /// The entry was unusable and rebuilt from the remote.
    Rebuilt,
    /// The entry was pointed at a different branch, then refreshed.
    Retargeted,
}

pub open spec fn is_ascii_alphanumeric(c: char) -> bool {
    ('a' <= c && c <= 'z') || ('A' <= c && c <= 'Z') || ('0' <= c && c <= '9')
}

pub open spec fn ascii_lower(c: char) -> char {
    if 'A' <= c && c <= 'Z' {
        ((c as u32) + 32) as char
    } else {
        c
    }
}

/// The slug built so far over `s`, and whether a separator is pending: runs
/// of ASCII letters and digits, lowercased, joined by single `-`; other
/// characters only separate runs.
pub open spec fn slug_state(s: Seq<char>) -> (Seq<char>, bool)
    decreases s.len(),
{
    if s.len() == 0 {
        (Seq::empty(), false)
    } else {
        let (acc, pending) = slug_state(s.drop_last());
        let c = s.last();
        if is_ascii_alphanumeric(c) {
            (if pending { acc.push('-') } else { acc }.push(ascii_lower(c)), false)
        } else if acc.len() > 0 {
            (acc, true)
        } else {
            (acc, pending)
        }
    }
}

/// `s` without trailing `-`.
pub open spec fn trim_dashes(s: Seq<char>) -> Seq<char>
    decreases s.len(),
{
    if s.len() > 0 && s.last() == '-' {
        trim_dashes(s.drop_last())
    } else {
        s
    }
}

/// The readable part of a cache entry's name: at most 48 characters.
pub open spec fn slug_of(s: Seq<char>) -> Seq<char> {
    let full = slug_state(s).0;
    trim_dashes(if full.len() > 48 { full.take(48) } else { full })
}

fn lower(c: char) -> (r: char)
    ensures
        r == ascii_lower(c),
{
    if 'A' <= c && c <= 'Z' {
        let b: u8 = c as u8;
        (b + 32) as char
    } else {
        c
    }
}

pub fn slug(url: &str) -> (out: String)
    ensures
        out@ == slug_of(url@),
{
    let chars = chars_of(url);
    let mut acc: Vec<char> = Vec::new();
    let mut pending = false;
    let mut i: usize = 0;
    while i < chars.len()
        invariant
            chars@ == url@,
            i <= chars@.len(),
            (acc@, pending) == slug_state(chars@.subrange(0, i as int)),
            acc@.len() <= 2 * i,
        decreases chars@.len() - i,
    {
        assert(chars@.subrange(0, i + 1).drop_last() == chars@.subrange(0, i as int));
        let c = chars[i];
        if ('a' <= c && c <= 'z') || ('A' <= c && c <= 'Z') || ('0' <= c && c <= '9') {
            if pending {
                acc.push('-');
                pending = false;
            }
            acc.push(lower(c));
        } else if acc.len() > 0 {
            pending = true;
        }
        i = i + 1;
    }
    assert(chars@.subrange(0, i as int) == url@);
    let mut end = if acc.len() > 48 {
        48
    } else {
        acc.len()
    };
    let ghost taken = if acc@.len() > 48 {
        acc@.take(48)
    } else {
        acc@
    };
    assert(acc@.subrange(0, end as int) == taken);
    while end > 0 && acc[end - 1] == '-'
        invariant
            end <= acc@.len(),
            trim_dashes(acc@.subrange(0, end as int)) == trim_dashes(taken),
        decreases end,
    {
        assert(acc@.subrange(0, end as int).drop_last() == acc@.subrange(0, end - 1));
        end = end - 1;
    }
    assert(trim_dashes(acc@.subrange(0, end as int)) == acc@.subrange(0, end as int));
    let mut out = String::new();
    let mut k: usize = 0;
    while k < end
        invariant
            end <= acc@.len(),
            k <= end,
            out@ == acc@.subrange(0, k as int),
        decreases end - k,
    {
        push_char(&mut out, acc[k]);
        k = k + 1;
        assert(out@ == acc@.subrange(0, k as int));
    }
    out
}

/// The FNV-1a hash of a byte sequence.
pub open spec fn fnv1a_of(bytes: Seq<u8>) -> u64
    decreases bytes.len(),
{
    if bytes.len() == 0 {
        0xcbf2_9ce4_8422_2325u64
    } else {
        vstd::wrapping::u64_specs::wrapping_mul(
            fnv1a_of(bytes.drop_last()) ^ (bytes.last() as u64),
            0x0000_0100_0000_01b3u64,
        )
    }
}

pub fn fnv1a(bytes: &[u8]) -> (hash: u64)
    ensures
        hash == fnv1a_of(bytes@),
{
    let mut hash: u64 = 0xcbf2_9ce4_8422_2325;
    let mut i: usize = 0;
    while i < bytes.len()
        invariant
            i <= bytes@.len(),
            hash == fnv1a_of(bytes@.subrange(0, i as int)),
        decreases bytes@.len() - i,
    {
        assert(bytes@.subrange(0, i + 1).drop_last() == bytes@.subrange(0, i as int));
        hash = hash ^ (bytes[i] as u64);
        hash = hash.wrapping_mul(0x0000_0100_0000_01b3);
        i = i + 1;
    }
    assert(bytes@.subrange(0, i as int) == bytes@);
    hash
}

/// The part of a URL shown in an entry's name: what follows its last `@`, so
/// that credentials in the URL never reach a directory name.
pub open spec fn display_source(url: Seq<char>) -> Seq<char>
    decreases url.len(),
{
    if url.len() == 0 {
        url
    } else if url.last() == '@' {
        Seq::empty()
    } else {
        display_source(url.drop_last()).push(url.last())
    }
}

pub fn redact_for_name(url: &str) -> (out: String)
    ensures
        out@ == display_source(url@),
{
    let chars = chars_of(url);
    let mut start = chars.len();
    assert(chars@.subrange(0, chars@.len() as int) == chars@);
    assert(chars@.subrange(chars@.len() as int, chars@.len() as int) == Seq::<char>::empty());
    while start > 0 && chars[start - 1] != '@'
        invariant
            chars@ == url@,
            start <= chars@.len(),
            display_source(chars@) == display_source(chars@.subrange(0, start as int))
                + chars@.subrange(start as int, chars@.len() as int),
        decreases start,
    {
        let ghost prefix = chars@.subrange(0, start as int);
        assert(prefix.drop_last() == chars@.subrange(0, start - 1));
        assert(chars@.subrange(start - 1, chars@.len() as int) == seq![prefix.last()]
            + chars@.subrange(start as int, chars@.len() as int));
        start = start - 1;
    }
    assert(display_source(chars@.subrange(0, start as int)) == Seq::<char>::empty()) by {
        if start > 0 {
            assert(chars@.subrange(0, start as int).last() == chars@[start - 1]);
        }
    }
    assert(chars@.subrange(0, chars@.len() as int) == chars@);
    let mut out = String::new();
    let mut k = start;
    while k < chars.len()
        invariant
            start <= k <= chars@.len(),
            out@ == chars@.subrange(start as int, k as int),
        decreases chars@.len() - k,
    {
        push_char(&mut out, chars[k]);
        k = k + 1;
        assert(out@ == chars@.subrange(start as int, k as int));
    }
    out
}

/// The directory name of the cache entry for `url`: the slug of its display
/// form, a `-`, and the FNV-1a hash of the verbatim URL's UTF-8 bytes as
/// sixteen hexadecimal digits (the hash alone when the slug is empty).
pub open spec fn entry_name_of(url: Seq<char>) -> Seq<char> {
    let slug = slug_of(display_source(url));
    let hash = hexadecimal_fixed(fnv1a_of(vstd::utf8::encode_utf8(url)) as nat, 16);
    if slug.len() == 0 {
        hash
    } else {
        slug + seq!['-'] + hash
    }
}

pub fn entry_directory_name(url: &str) -> (name: String)
    ensures
        name@ == entry_name_of(url@),
{
    let shown = redact_for_name(url);
    let mut name = slug(shown.as_str());
    let hash = fnv1a(url.as_bytes());
    if name.unicode_len() > 0 {
        push_char(&mut name, '-');
    }
    push_hexadecimal_fixed(&mut name, hash, 16);
    name
}

/// A character that can stand in a directory name on any platform without
/// quoting: a lowercase ASCII letter, a digit, or `-`.
pub open spec fn safe_name_char(c: char) -> bool {
    ('a' <= c && c <= 'z') || ('0' <= c && c <= '9') || c == '-'
}

proof fn lemma_slug_state_safe(s: Seq<char>)
    ensures
        forall|i: int| 0 <= i < slug_state(s).0.len() ==> safe_name_char(#[trigger] slug_state(s).0[i]),
    decreases s.len(),
{
    if s.len() > 0 {
        lemma_slug_state_safe(s.drop_last());
        let (acc, pending) = slug_state(s.drop_last());
        let c = s.last();
        if is_ascii_alphanumeric(c) {
            let with_sep = if pending {
                acc.push('-')
            } else {
                acc
            };
            assert(safe_name_char(ascii_lower(c))) by {
                if 'A' <= c && c <= 'Z' {
                    assert(((c as u32) + 32) as char as u32 == (c as u32) + 32);
                }
            }
            assert forall|i: int| 0 <= i < with_sep.len() implies safe_name_char(with_sep[i]) by {
                if i < acc.len() {
                    assert(with_sep[i] == acc[i]);
                }
            }
            let out = with_sep.push(ascii_lower(c));
            assert forall|i: int| 0 <= i < out.len() implies safe_name_char(out[i]) by {
                if i < with_sep.len() {
                    assert(out[i] == with_sep[i]);
                }
            }
        }
    }
}

proof fn lemma_trim_dashes_prefix(s: Seq<char>)
    ensures
        trim_dashes(s).len() <= s.len(),
        forall|i: int| 0 <= i < trim_dashes(s).len() ==> trim_dashes(s)[i] == s[i],
    decreases s.len(),
{
    if s.len() > 0 && s.last() == '-' {
        lemma_trim_dashes_prefix(s.drop_last());
        assert forall|i: int| 0 <= i < trim_dashes(s).len() implies trim_dashes(s)[i] == s[i] by {
            assert(s.drop_last()[i] == s[i]);
        }
    }
}

proof fn lemma_hexadecimal_fixed_safe(n: nat, width: nat)
    ensures
        hexadecimal_fixed(n, width).len() == width,
        forall|i: int|
            0 <= i < hexadecimal_fixed(n, width).len() ==> safe_name_char(
                #[trigger] hexadecimal_fixed(n, width)[i],
            ),
    decreases width,
{
    if width > 0 {
        lemma_hexadecimal_fixed_safe(n / 16, (width - 1) as nat);
        let prev = hexadecimal_fixed(n / 16, (width - 1) as nat);
        assert forall|i: int| 0 <= i < hexadecimal_fixed(n, width).len() implies safe_name_char(
            hexadecimal_fixed(n, width)[i],
        ) by {
            if i < prev.len() {
                assert(hexadecimal_fixed(n, width)[i] == prev[i]);
            }
        }
    }
}

/// A cache entry is named by safe characters only: whatever the URL holds
/// (credentials, separators, spaces), its entry's directory name is made of
/// lowercase letters, digits and `-`, and ends in the sixteen hexadecimal
/// digits of the URL's hash.
pub proof fn law_entry_names_are_safe(url: Seq<char>)
    ensures
        forall|i: int| 0 <= i < entry_name_of(url).len() ==> safe_name_char(
            #[trigger] entry_name_of(url)[i],
        ),
        entry_name_of(url).len() >= 16,
{
    let source = display_source(url);
    let full = slug_state(source).0;
    lemma_slug_state_safe(source);
    let taken = if full.len() > 48 {
        full.take(48)
    } else {
        full
    };
    assert forall|i: int| 0 <= i < taken.len() implies safe_name_char(taken[i]) by {
        assert(taken[i] == full[i]);
    }
    lemma_trim_dashes_prefix(taken);
    let slug = slug_of(source);
    assert forall|i: int| 0 <= i < slug.len() implies safe_name_char(slug[i]) by {
        assert(slug[i] == taken[i]);
    }
    let hash = hexadecimal_fixed(fnv1a_of(vstd::utf8::encode_utf8(url)) as nat, 16);
    lemma_hexadecimal_fixed_safe(fnv1a_of(vstd::utf8::encode_utf8(url)) as nat, 16);
    if slug.len() > 0 {
        let name = slug + seq!['-'] + hash;
        assert forall|i: int| 0 <= i < name.len() implies safe_name_char(name[i]) by {
            if i < slug.len() {
                assert(name[i] == slug[i]);
            } else if i == slug.len() {
                assert(name[i] == '-');
            } else {
                assert(name[i] == hash[i - slug.len() - 1]);
            }
        }
    }
}

/// The name under which an entry is built before it replaces the real one.
pub fn temporary_name(name: &str) -> (t: String)
    ensures
        t@ == name@ + ".tmp"@,
{
    let mut t = String::from_str(name);
    push_str(&mut t, ".tmp");
    t
}

pub open spec fn no_cache_directory_text() -> Seq<char> {
    "cannot determine the cache directory: set XDG_CACHE_HOME or HOME"@
}

/// The cache root: `$XDG_CACHE_HOME/grove`, else `$HOME/.cache/grove`; an
/// unset or empty variable does not count, and with neither set there is no
/// cache rather than some other location.
pub fn cache_root(xdg_cache_home: Option<&str>, home: Option<&str>) -> (res: Result<String, AppError>)
    ensures
        xdg_cache_home matches Some(x) && x@.len() > 0 ==> (res matches Ok(p) && p@
            == crate::paths::join(xdg_cache_home.unwrap()@, "grove"@)),
        !(xdg_cache_home matches Some(x) && x@.len() > 0) && (home matches Some(h) && h@.len() > 0)
            ==> (res matches Ok(p) && p@ == crate::paths::join(
            crate::paths::join(home.unwrap()@, ".cache"@),
            "grove"@,
        )),
        !(xdg_cache_home matches Some(x) && x@.len() > 0) && !(home matches Some(h) && h@.len()
            > 0) ==> (res matches Err(AppError::CacheState(m)) && m@ == no_cache_directory_text()),
{
    match xdg_cache_home {
        Some(x) => if x.unicode_len() > 0 {
            return Ok(crate::paths::join_path(x, "grove"));
        },
        None => {},
    }
    match home {
        Some(h) => if h.unicode_len() > 0 {
            let cache = crate::paths::join_path(h, ".cache");
            return Ok(crate::paths::join_path(cache.as_str(), "grove"));
        },
        None => {},
    }
    Err(
        AppError::CacheState(
            String::from_str("cannot determine the cache directory: set XDG_CACHE_HOME or HOME"),
        ),
    )
}

pub open spec fn different_url_text(container: Seq<char>) -> Seq<char> {
    "cache entry '"@ + container + "' records a different URL"@
}

/// What the URL recorded in an existing entry says: the entry is the one
/// for `url` (`None`: go on), it must be rebuilt (no URL recorded), or it
/// belongs to another URL, which is refused.
pub fn recorded_url_step(container: &str, recorded: Option<&str>, url: &str) -> (res: Result<
    Option<Outcome>,
    AppError,
>)
    ensures
        match recorded {
            None => res == Ok::<Option<Outcome>, AppError>(Some(Outcome::Rebuilt)),
            Some(r) => if r@ == url@ {
                res == Ok::<Option<Outcome>, AppError>(None)
            } else {
                res matches Err(AppError::CacheState(m)) && m@ == different_url_text(container@)
            },
        },
{
    match recorded {
        None => Ok(Some(Outcome::Rebuilt)),
        Some(r) => if crate::app::sync::prepare::same_str(r, url) {
            Ok(None)
        } else {
            let mut m = String::from_str("cache entry '");
            push_str(&mut m, container);
            push_str(&mut m, "' records a different URL");
            Err(AppError::CacheState(m))
        },
    }
}

/// What becomes of an entry recorded for the right URL: rebuilt when Git no
/// longer accepts it, retargeted when another branch is wanted than the one
/// it tracks, and otherwise refreshed (a hit).
pub open spec fn settled_entry(verified: bool, wanted: Option<Seq<char>>, current_branch: Option<Seq<char>>) -> Outcome {
    if !verified {
        Outcome::Rebuilt
    } else if wanted is Some && current_branch != wanted {
        Outcome::Retargeted
    } else {
        Outcome::Hit
    }
}

pub fn verified_entry_step(verified: bool, wanted: Option<&str>, current_branch: Option<&str>) -> (o:
    Outcome)
    ensures
        o == settled_entry(
            verified,
            match wanted {
                Some(w) => Some(w@),
                None => None,
            },
            match current_branch {
                Some(t) => Some(t@),
                None => None,
            },
        ),
{
    if !verified {
        return Outcome::Rebuilt;
    }
    match wanted {
        Some(w) => {
            let same = match current_branch {
                Some(t) => crate::app::sync::prepare::same_str(t, w),
                None => false,
            };
            if same {
                Outcome::Hit
            } else {
                Outcome::Retargeted
            }
        },
        None => Outcome::Hit,
    }
}

/// What is at a clone destination.
#[derive(Debug, Clone, Copy, PartialEq, Eq)]
pub enum DestinationState {
    Missing,
    EmptyDirectory,
    NonEmptyDirectory,
    /// Something other than a directory.
    Other,
}

pub open spec fn changed_destination_text(destination: Seq<char>, resolved: Seq<char>) -> Seq<char> {
    "clone destination changed after validation: '"@ + destination + "' resolves to '"@ + resolved
        + "'"@
}

pub open spec fn destination_leaves_root_text(destination: Seq<char>) -> Seq<char> {
    "clone destination '"@ + destination + "' leaves the grove root"@
}

pub open spec fn not_empty_text(destination: Seq<char>) -> Seq<char> {
    "destination '"@ + destination + "' already exists and is not empty"@
}

pub open spec fn exists_text(destination: Seq<char>) -> Seq<char> {
    "destination '"@ + destination + "' already exists"@
}

/// The check before a clone is placed. Inside a grove (`resolution` given),
/// the destination must still resolve to itself within the root; in any case
/// it must be missing or an empty directory.
pub fn guard_destination(
    destination: &str,
    resolution: Option<Result<String, ResolutionError>>,
    state: DestinationState,
) -> (res: Result<(), AppError>)
    ensures
        match resolution {
            Some(Ok(resolved)) => if resolved@ != destination@ {
                res matches Err(AppError::CacheState(m)) && m@ == changed_destination_text(
                    destination@,
                    resolved@,
                )
            } else {
                guard_state(destination@, state, res)
            },
            Some(Err(ResolutionError::OutsideRoot)) => res matches Err(AppError::CacheState(m)) && m@
                == destination_leaves_root_text(destination@),
            Some(Err(ResolutionError::Io(message))) => res == Err::<(), AppError>(
                AppError::Io(message),
            ),
            None => guard_state(destination@, state, res),
        },
{
    match resolution {
        Some(Ok(resolved)) => if !crate::app::sync::prepare::same_str(resolved.as_str(), destination) {
            let mut m = String::from_str("clone destination changed after validation: '");
            push_str(&mut m, destination);
            push_str(&mut m, "' resolves to '");
            push_str(&mut m, resolved.as_str());
            push_str(&mut m, "'");
            return Err(AppError::CacheState(m));
        },
        Some(Err(ResolutionError::OutsideRoot)) => {
            let mut m = String::from_str("clone destination '");
            push_str(&mut m, destination);
            push_str(&mut m, "' leaves the grove root");
            return Err(AppError::CacheState(m));
        },
        Some(Err(ResolutionError::Io(message))) => {
            return Err(AppError::Io(message));
        },
        None => {},
    }
    check_destination_state(destination, state)
}

/// A destination may be missing or an empty directory.
pub open spec fn guard_state(destination: Seq<char>, state: DestinationState, res: Result<(), AppError>) -> bool {
    match state {
        DestinationState::Missing | DestinationState::EmptyDirectory => res is Ok,
        DestinationState::NonEmptyDirectory => res matches Err(AppError::CacheState(m)) && m@
            == not_empty_text(destination),
        DestinationState::Other => res matches Err(AppError::CacheState(m)) && m@ == exists_text(
            destination,
        ),
    }
}

pub fn check_destination_state(destination: &str, state: DestinationState) -> (res: Result<(), AppError>)
    ensures
        guard_state(destination@, state, res),
{
    match state {
        DestinationState::Missing | DestinationState::EmptyDirectory => Ok(()),
        DestinationState::NonEmptyDirectory => {
            let mut m = String::from_str("destination '");
            push_str(&mut m, destination);
            push_str(&mut m, "' already exists and is not empty");
            Err(AppError::CacheState(m))
        },
        DestinationState::Other => {
            let mut m = String::from_str("destination '");
            push_str(&mut m, destination);
            push_str(&mut m, "' already exists");
            Err(AppError::CacheState(m))
        },
    }
}

/// The result of `gv cache clean`: how many entries were removed, and the
/// selected repositories that had none.
#[derive(Debug, Clone, PartialEq, Eq)]
pub struct CleanReport {
    pub removed: usize,
    pub absent: Vec<String>,
}

impl CleanReport {
    pub fn new(removed: usize, absent: Vec<String>) -> (r: CleanReport)
        ensures
            r.removed == removed,
            r.absent == absent,
    {
        CleanReport { removed, absent }
    }

    pub fn removed(&self) -> (n: usize)
        ensures
            n == self.removed,
    {
        self.removed
    }

    pub fn absent(&self) -> (a: &[String])
        ensures
            a@ == self.absent@,
    {
        self.absent.as_slice()
    }
}

} // verus!
