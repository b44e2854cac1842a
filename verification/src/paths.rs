//! A lexical model of Unix paths: splitting into segments, components,
//! normalization of `.` and `..`, joining, prefix tests and display forms.
//! Paths are held as strings; nothing here touches the file system.

use vstd::prelude::*;
use crate::text::{chars_of, push_char, push_str};

verus! {

/// The `/`-separated segments of `s`, empty ones included.
pub open spec fn segments(s: Seq<char>) -> Seq<Seq<char>>
    decreases s.len(),
{
    if s.len() == 0 {
        seq![Seq::<char>::empty()]
    } else {
        let prev = segments(s.drop_last());
        if s.last() == '/' {
            prev.push(Seq::<char>::empty())
        } else {
            prev.update(prev.len() - 1, prev.last().push(s.last()))
        }
    }
}

pub proof fn lemma_segments_nonempty(s: Seq<char>)
    ensures
        segments(s).len() >= 1,
    decreases s.len(),
{
    if s.len() > 0 {
        lemma_segments_nonempty(s.drop_last());
    }
}

/// A segment that names something: neither empty nor `.`.
pub open spec fn is_component(seg: Seq<char>) -> bool {
    seg.len() > 0 && seg != seq!['.']
}

pub open spec fn is_parent_reference(seg: Seq<char>) -> bool {
    seg == seq!['.', '.']
}

/// The segments that are components, in order.
pub open spec fn components_of(segs: Seq<Seq<char>>) -> Seq<Seq<char>>
    decreases segs.len(),
{
    if segs.len() == 0 {
        Seq::empty()
    } else {
        let prev = components_of(segs.drop_last());
        if is_component(segs.last()) {
            prev.push(segs.last())
        } else {
            prev
        }
    }
}

/// The components of a path: its non-empty segments other than `.`.
pub open spec fn components(s: Seq<char>) -> Seq<Seq<char>> {
    components_of(segments(s))
}

/// Lexical normalization: `.` and empty segments vanish, `..` removes the
/// preceding component (and is dropped when there is none).
pub open spec fn normalized_of(segs: Seq<Seq<char>>) -> Seq<Seq<char>>
    decreases segs.len(),
{
    if segs.len() == 0 {
        Seq::empty()
    } else {
        let prev = normalized_of(segs.drop_last());
        let seg = segs.last();
        if !is_component(seg) {
            prev
        } else if is_parent_reference(seg) {
            if prev.len() > 0 { prev.drop_last() } else { prev }
        } else {
            prev.push(seg)
        }
    }
}

/// Components joined by `/`.
pub open spec fn join_parts(parts: Seq<Seq<char>>) -> Seq<char>
    decreases parts.len(),
{
    if parts.len() == 0 {
        Seq::empty()
    } else if parts.len() == 1 {
        parts[0]
    } else {
        join_parts(parts.drop_last()) + seq!['/'] + parts.last()
    }
}

pub open spec fn is_absolute(s: Seq<char>) -> bool {
    s.len() > 0 && s[0] == '/'
}

/// The text of a path made of `parts`, rooted when `absolute`.
pub open spec fn render(absolute: bool, parts: Seq<Seq<char>>) -> Seq<char> {
    if absolute {
        seq!['/'] + join_parts(parts)
    } else {
        join_parts(parts)
    }
}

/// The lexically normalized form of a path.
pub open spec fn normalize(s: Seq<char>) -> Seq<char> {
    render(is_absolute(s), normalized_of(segments(s)))
}

/// `base.join(rel)`: an absolute `rel` replaces `base`; otherwise the two are
/// joined with one separator.
pub open spec fn join(base: Seq<char>, rel: Seq<char>) -> Seq<char> {
    if is_absolute(rel) {
        rel
    } else if base.len() == 0 || base.last() == '/' {
        base + rel
    } else {
        base + seq!['/'] + rel
    }
}

/// Component-wise prefix test, as `Path::starts_with`.
pub open spec fn starts_with(path: Seq<char>, base: Seq<char>) -> bool {
    &&& is_absolute(path) == is_absolute(base)
    &&& components(base).len() <= components(path).len()
    &&& components(path).subrange(0, components(base).len() as int) == components(base)
}

/// Components other than `..`: what survives a filter on normal components.
pub open spec fn normal_parts(parts: Seq<Seq<char>>) -> Seq<Seq<char>>
    decreases parts.len(),
{
    if parts.len() == 0 {
        Seq::empty()
    } else {
        let prev = normal_parts(parts.drop_last());
        if is_parent_reference(parts.last()) {
            prev
        } else {
            prev.push(parts.last())
        }
    }
}

/// The path of `path` below `root`, or `path` itself when it is not below it,
/// as normal components joined by `/`.
pub open spec fn relative_display(root: Seq<char>, path: Seq<char>) -> Seq<char> {
    let rest = if starts_with(path, root) {
        components(path).subrange(components(root).len() as int, components(path).len() as int)
    } else {
        components(path)
    };
    join_parts(normal_parts(rest))
}

pub open spec fn views(v: Seq<String>) -> Seq<Seq<char>> {
    v.map_values(|s: String| s@)
}

proof fn lemma_update_last_push<A>(a: Seq<A>, x: A, y: A)
    ensures
        a.push(x).update(a.len() as int, y) == a.push(y),
{
    assert(a.push(x).update(a.len() as int, y) =~= a.push(y));
}

/// Splits a path into its `/`-separated segments.
pub fn split_segments(path: &str) -> (out: Vec<String>)
    ensures
        out.deep_view() == segments(path@),
{
    let chars = chars_of(path);
    let mut done: Vec<String> = Vec::new();
    let mut cur = String::new();
    let mut i: usize = 0;
    assert(chars@.take(0) =~= Seq::<char>::empty());
    assert(done.deep_view().push(cur@) =~= segments(chars@.take(0)));
    while i < chars.len()
        invariant
            chars@ == path@,
            i <= chars@.len(),
            done.deep_view().push(cur@) == segments(chars@.take(i as int)),
        decreases chars@.len() - i,
    {
        let c = chars[i];
        let ghost before = chars@.take(i as int);
        let ghost after = chars@.take(i + 1);
        assert(after.drop_last() =~= before);
        assert(after.last() == c);
        if c == '/' {
            let finished = cur;
            done.push(finished);
            cur = String::new();
            assert(done.deep_view().push(cur@) =~= segments(before).push(Seq::<char>::empty()));
        } else {
            let ghost old_cur = cur@;
            push_char(&mut cur, c);
            proof {
                lemma_update_last_push(done.deep_view(), old_cur, cur@);
            }
            assert(done.deep_view().push(cur@) =~= segments(after));
        }
        i = i + 1;
    }
    assert(chars@.take(chars@.len() as int) =~= chars@);
    done.push(cur);
    done
}

/// Whether a string is exactly `.`.
pub fn is_dot(s: &str) -> (res: bool)
    ensures
        res == (s@ == seq!['.']),
{
    let n = s.unicode_len();
    if n != 1 {
        return false;
    }
    let c = s.get_char(0);
    if c == '.' {
        assert(s@ =~= seq!['.']);
        true
    } else {
        false
    }
}

/// Whether a string is exactly `..`.
pub fn is_dot_dot(s: &str) -> (res: bool)
    ensures
        res == (s@ == seq!['.', '.']),
{
    let n = s.unicode_len();
    if n != 2 {
        return false;
    }
    let a = s.get_char(0);
    let b = s.get_char(1);
    if a == '.' && b == '.' {
        assert(s@ =~= seq!['.', '.']);
        true
    } else {
        false
    }
}

/// Whether a segment is a component (non-empty, not `.`).
pub fn segment_is_component(s: &str) -> (res: bool)
    ensures
        res == is_component(s@),
{
    s.unicode_len() > 0 && !is_dot(s)
}

/// The components of a path.
pub fn path_components(path: &str) -> (out: Vec<String>)
    ensures
        out.deep_view() == components(path@),
{
    let segs = split_segments(path);
    let mut out: Vec<String> = Vec::new();
    let mut i: usize = 0;
    assert(segs.deep_view().take(0) =~= Seq::<Seq<char>>::empty());
    while i < segs.len()
        invariant
            segs.deep_view() == segments(path@),
            i <= segs.len(),
            out.deep_view() == components_of(segs.deep_view().take(i as int)),
        decreases segs.len() - i,
    {
        let ghost taken = segs.deep_view().take(i + 1);
        assert(taken.drop_last() =~= segs.deep_view().take(i as int));
        assert(taken.last() == segs[i as int]@);
        if segment_is_component(segs[i].as_str()) {
            out.push(segs[i].clone());
        }
        assert(out.deep_view() =~= components_of(taken));
        i = i + 1;
    }
    assert(segs.deep_view().take(segs.len() as int) =~= segs.deep_view());
    out
}

/// The normalized components of a path.
pub fn normalized_components(path: &str) -> (out: Vec<String>)
    ensures
        out.deep_view() == normalized_of(segments(path@)),
{
    let segs = split_segments(path);
    let mut out: Vec<String> = Vec::new();
    let mut i: usize = 0;
    assert(segs.deep_view().take(0) =~= Seq::<Seq<char>>::empty());
    while i < segs.len()
        invariant
            segs.deep_view() == segments(path@),
            i <= segs.len(),
            out.deep_view() == normalized_of(segs.deep_view().take(i as int)),
        decreases segs.len() - i,
    {
        let ghost taken = segs.deep_view().take(i + 1);
        assert(taken.drop_last() =~= segs.deep_view().take(i as int));
        assert(taken.last() == segs[i as int]@);
        if segment_is_component(segs[i].as_str()) {
            if is_dot_dot(segs[i].as_str()) {
                if out.len() > 0 {
                    out.pop();
                }
            } else {
                out.push(segs[i].clone());
            }
        }
        assert(out.deep_view() =~= normalized_of(taken));
        i = i + 1;
    }
    assert(segs.deep_view().take(segs.len() as int) =~= segs.deep_view());
    out
}

/// Joins parts with `/`.
pub fn join_with_slash(parts: &Vec<String>) -> (s: String)
    ensures
        s@ == join_parts(parts.deep_view()),
{
    let mut s = String::new();
    let mut i: usize = 0;
    assert(parts.deep_view().take(0) =~= Seq::<Seq<char>>::empty());
    while i < parts.len()
        invariant
            i <= parts.len(),
            s@ == join_parts(parts.deep_view().take(i as int)),
        decreases parts.len() - i,
    {
        let ghost taken = parts.deep_view().take(i + 1);
        assert(taken.drop_last() =~= parts.deep_view().take(i as int));
        assert(taken.last() == parts[i as int]@);
        if i > 0 {
            push_char(&mut s, '/');
        } else {
            assert(taken =~= seq![parts[0]@]);
        }
        push_str(&mut s, parts[i].as_str());
        i = i + 1;
    }
    assert(parts.deep_view().take(parts.len() as int) =~= parts.deep_view());
    s
}

/// The text of a path made of `parts`.
pub fn render_path(absolute: bool, parts: &Vec<String>) -> (s: String)
    ensures
        s@ == render(absolute, parts.deep_view()),
{
    let joined = join_with_slash(parts);
    if absolute {
        let mut s = String::new();
        push_char(&mut s, '/');
        push_str(&mut s, joined.as_str());
        s
    } else {
        joined
    }
}

/// Whether a path is absolute (begins with `/`).
pub fn path_is_absolute(path: &str) -> (res: bool)
    ensures
        res == is_absolute(path@),
{
    path.unicode_len() > 0 && path.get_char(0) == '/'
}

/// The lexically normalized form of a path.
pub fn normalize_lexically(path: &str) -> (s: String)
    ensures
        s@ == normalize(path@),
{
    let parts = normalized_components(path);
    render_path(path_is_absolute(path), &parts)
}

/// `base.join(rel)`.
pub fn join_path(base: &str, rel: &str) -> (s: String)
    ensures
        s@ == join(base@, rel@),
{
    if path_is_absolute(rel) {
        return String::from_str(rel);
    }
    let n = base.unicode_len();
    let mut s = String::from_str(base);
    if n > 0 && base.get_char(n - 1) != '/' {
        push_char(&mut s, '/');
    }
    push_str(&mut s, rel);
    s
}

fn prefix_matches(path: &Vec<String>, base: &Vec<String>) -> (res: bool)
    ensures
        res == (base.deep_view().len() <= path.deep_view().len() && path.deep_view().subrange(
            0,
            base.deep_view().len() as int,
        ) == base.deep_view()),
{
    if base.len() > path.len() {
        return false;
    }
    let mut i: usize = 0;
    while i < base.len()
        invariant
            base.len() <= path.len(),
            i <= base.len(),
            forall|j: int| 0 <= j < i ==> path.deep_view()[j] == base.deep_view()[j],
        decreases base.len() - i,
    {
        if path[i] != base[i] {
            assert(path.deep_view().subrange(0, base.deep_view().len() as int)[i as int]
                != base.deep_view()[i as int]);
            return false;
        }
        i = i + 1;
    }
    assert(path.deep_view().subrange(0, base.deep_view().len() as int) =~= base.deep_view());
    true
}

/// `path.starts_with(base)`, component-wise.
pub fn path_starts_with(path: &str, base: &str) -> (res: bool)
    ensures
        res == starts_with(path@, base@),
{
    if path_is_absolute(path) != path_is_absolute(base) {
        return false;
    }
    let p = path_components(path);
    let b = path_components(base);
    prefix_matches(&p, &b)
}

fn drop_parent_references(parts: &Vec<String>) -> (out: Vec<String>)
    ensures
        out.deep_view() == normal_parts(parts.deep_view()),
{
    let mut out: Vec<String> = Vec::new();
    let mut i: usize = 0;
    assert(parts.deep_view().take(0) =~= Seq::<Seq<char>>::empty());
    while i < parts.len()
        invariant
            i <= parts.len(),
            out.deep_view() == normal_parts(parts.deep_view().take(i as int)),
        decreases parts.len() - i,
    {
        let ghost taken = parts.deep_view().take(i + 1);
        assert(taken.drop_last() =~= parts.deep_view().take(i as int));
        assert(taken.last() == parts[i as int]@);
        if !is_dot_dot(parts[i].as_str()) {
            out.push(parts[i].clone());
        }
        assert(out.deep_view() =~= normal_parts(taken));
        i = i + 1;
    }
    assert(parts.deep_view().take(parts.len() as int) =~= parts.deep_view());
    out
}

/// The part of `path` below `root` (or `path` itself), as normal components
/// joined by `/`.
pub fn relative_display_path(root: &str, path: &str) -> (s: String)
    ensures
        s@ == relative_display(root@, path@),
{
    let p = path_components(path);
    let rest: Vec<String> = if path_starts_with(path, root) {
        let r = path_components(root);
        let mut rest: Vec<String> = Vec::new();
        let mut i: usize = r.len();
        while i < p.len()
            invariant
                r.len() <= i <= p.len(),
                rest.deep_view() == p.deep_view().subrange(r.len() as int, i as int),
            decreases p.len() - i,
        {
            let item = p[i].clone();
            let ghost old_rest = rest.deep_view();
            assert(item@ == p.deep_view()[i as int]);
            rest.push(item);
            assert(rest.deep_view() =~= old_rest.push(item@));
            i = i + 1;
            assert(rest.deep_view() =~= p.deep_view().subrange(r.len() as int, i as int));
        }
        rest
    } else {
        p
    };
    let normal = drop_parent_references(&rest);
    join_with_slash(&normal)
}

} // verus!
