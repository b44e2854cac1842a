//! Text as the command line shows it: control characters escaped, ANSI
//! styling removed, counts in words.

use vstd::prelude::*;
use crate::cache::Outcome as CacheOutcome;
use crate::text::{chars_of, hexadecimal, push_char, push_decimal, push_hexadecimal, push_str, decimal};

verus! {

/// A control character (Unicode category Cc).
pub open spec fn is_control(c: char) -> bool {
    (c as u32) <= 0x1f || (0x7f <= (c as u32) && (c as u32) <= 0x9f)
}

/// How a control character is shown: `\t`, `\r` and `\n` by name, any other
/// as `\u{..}` with its code in lowercase hexadecimal.
pub open spec fn escaped(c: char) -> Seq<char> {
    if c == '\t' {
        seq!['\\', 't']
    } else if c == '\r' {
        seq!['\\', 'r']
    } else if c == '\n' {
        seq!['\\', 'n']
    } else {
        seq!['\\', 'u', '{'] + hexadecimal(c as nat) + seq!['}']
    }
}

/// The text with every control character escaped.
pub open spec fn terminal_view(s: Seq<char>) -> Seq<char>
    decreases s.len(),
{
    if s.len() == 0 {
        s
    } else {
        terminal_view(s.drop_last()) + if is_control(s.last()) {
            escaped(s.last())
        } else {
            seq![s.last()]
        }
    }
}

/// The text with every control character but the line break escaped.
pub open spec fn multiline_view(s: Seq<char>) -> Seq<char>
    decreases s.len(),
{
    if s.len() == 0 {
        s
    } else {
        multiline_view(s.drop_last()) + if s.last() != '\n' && is_control(s.last()) {
            escaped(s.last())
        } else {
            seq![s.last()]
        }
    }
}

fn control(c: char) -> (res: bool)
    ensures
        res == is_control(c),
{
    let code = c as u32;
    code <= 0x1f || (0x7f <= code && code <= 0x9f)
}

fn push_escaped(out: &mut String, c: char)
    ensures
        final(out)@ == old(out)@ + escaped(c),
{
    if c == '\t' {
        push_str(out, "\\t");
        assert("\\t"@ == seq!['\\', 't']) by {
            reveal_strlit("\\t");
        }
    } else if c == '\r' {
        push_str(out, "\\r");
        assert("\\r"@ == seq!['\\', 'r']) by {
            reveal_strlit("\\r");
        }
    } else if c == '\n' {
        push_str(out, "\\n");
        assert("\\n"@ == seq!['\\', 'n']) by {
            reveal_strlit("\\n");
        }
    } else {
        let ghost start = out@;
        push_char(out, '\\');
        push_char(out, 'u');
        push_char(out, '{');
        push_hexadecimal(out, c as u32 as u64);
        push_char(out, '}');
        assert(out@ =~= start + escaped(c));
    }
}

proof fn lemma_hexadecimal_printable(n: nat)
    ensures
        forall|i: int| 0 <= i < hexadecimal(n).len() ==> !is_control(#[trigger] hexadecimal(n)[i]),
    decreases n,
{
    if n >= 16 {
        lemma_hexadecimal_printable(n / 16);
        let prev = hexadecimal(n / 16);
        assert forall|i: int| 0 <= i < hexadecimal(n).len() implies !is_control(
            hexadecimal(n)[i],
        ) by {
            if i < prev.len() {
                assert(hexadecimal(n)[i] == prev[i]);
            }
        }
    }
}

/// Escaped text holds no control character: whatever a repository name, a
/// URL or a Git message contains, what reaches the terminal cannot drive it.
pub proof fn law_terminal_text_has_no_controls(s: Seq<char>)
    ensures
        forall|i: int| 0 <= i < terminal_view(s).len() ==> !is_control(#[trigger] terminal_view(s)[i]),
    decreases s.len(),
{
    if s.len() > 0 {
        law_terminal_text_has_no_controls(s.drop_last());
        let prev = terminal_view(s.drop_last());
        let c = s.last();
        let tail = if is_control(c) {
            escaped(c)
        } else {
            seq![c]
        };
        if is_control(c) {
            lemma_hexadecimal_printable(c as nat);
            let h = hexadecimal(c as nat);
            assert forall|i: int| 0 <= i < tail.len() implies !is_control(tail[i]) by {
                if c != '\t' && c != '\r' && c != '\n' {
                    if 3 <= i < 3 + h.len() {
                        assert(tail[i] == h[i - 3]);
                    }
                }
            }
        }
        assert forall|i: int| 0 <= i < terminal_view(s).len() implies !is_control(
            terminal_view(s)[i],
        ) by {
            if i < prev.len() {
                assert(terminal_view(s)[i] == prev[i]);
            } else {
                assert(terminal_view(s)[i] == tail[i - prev.len()]);
            }
        }
    }
}

/// Escapes control characters so that text from Git, a file or a URL cannot
/// move the cursor or restyle the terminal.
pub fn terminal_text(value: &str) -> (s: String)
    ensures
        s@ == terminal_view(value@),
{
    let chars = chars_of(value);
    let mut out = String::new();
    let mut i: usize = 0;
    while i < chars.len()
        invariant
            chars@ == value@,
            i <= chars@.len(),
            out@ == terminal_view(chars@.subrange(0, i as int)),
        decreases chars@.len() - i,
    {
        assert(chars@.subrange(0, i + 1).drop_last() == chars@.subrange(0, i as int));
        let c = chars[i];
        if control(c) {
            push_escaped(&mut out, c);
        } else {
            push_char(&mut out, c);
        }
        i = i + 1;
    }
    assert(chars@.subrange(0, i as int) == value@);
    out
}

/// As `terminal_text`, keeping line breaks.
pub fn terminal_multiline_text(value: &str) -> (s: String)
    ensures
        s@ == multiline_view(value@),
{
    let chars = chars_of(value);
    let mut out = String::new();
    let mut i: usize = 0;
    while i < chars.len()
        invariant
            chars@ == value@,
            i <= chars@.len(),
            out@ == multiline_view(chars@.subrange(0, i as int)),
        decreases chars@.len() - i,
    {
        assert(chars@.subrange(0, i + 1).drop_last() == chars@.subrange(0, i as int));
        let c = chars[i];
        if c != '\n' && control(c) {
            push_escaped(&mut out, c);
        } else {
            push_char(&mut out, c);
        }
        i = i + 1;
    }
    assert(chars@.subrange(0, i as int) == value@);
    out
}

/// The final character of an escape sequence.
pub open spec fn is_final(c: char) -> bool {
    '@' <= c && c <= '~'
}

/// The text with ANSI escape sequences (`ESC [` up to a final character in
/// `@`..=`~`) removed; a sequence cut off by the end of the text is removed
/// to the end.
pub open spec fn strip_view(s: Seq<char>) -> Seq<char>
    decreases s.len(),
{
    if s.len() == 0 {
        s
    } else if s.len() >= 2 && s[0] == '\u{1b}' && s[1] == '[' {
        proof {
            lemma_after_sequence_len(s.skip(2));
        }
        strip_view(after_sequence(s.skip(2)))
    } else {
        seq![s[0]] + strip_view(s.skip(1))
    }
}

/// What follows the first final character of `s`, or nothing.
pub open spec fn after_sequence(s: Seq<char>) -> Seq<char>
    decreases s.len(),
{
    if s.len() == 0 {
        s
    } else if is_final(s[0]) {
        s.skip(1)
    } else {
        after_sequence(s.skip(1))
    }
}

pub proof fn lemma_after_sequence_len(s: Seq<char>)
    ensures
        after_sequence(s).len() <= s.len(),
        after_sequence(s) == s.skip(s.len() - after_sequence(s).len()),
    decreases s.len(),
{
    if s.len() > 0 && !is_final(s[0]) {
        lemma_after_sequence_len(s.skip(1));
        assert(s.skip(1).skip(s.skip(1).len() - after_sequence(s.skip(1)).len()) =~= s.skip(
            s.len() - after_sequence(s).len(),
        ));
    } else if s.len() > 0 {
        assert(s.skip(1) =~= s.skip(s.len() - (s.len() - 1)));
    } else {
        assert(s.skip(0) =~= s);
    }
}

/// Text without an escape character is left as it is by the removal of
/// styling.
pub proof fn lemma_strip_without_escape(s: Seq<char>)
    requires
        forall|i: int| 0 <= i < s.len() ==> s[i] != '\u{1b}',
    ensures
        strip_view(s) == s,
    decreases s.len(),
{
    if s.len() > 0 {
        lemma_strip_without_escape(s.skip(1));
        assert(seq![s[0]] + s.skip(1) =~= s);
    }
}

/// Escaped text comes through the removal of styling unchanged: it holds no
/// escape character that could be taken for the start of a style, so what a
/// repository name or a Git message shows is the same on a terminal and in
/// plain output.
pub proof fn law_escaped_text_survives_stripping(s: Seq<char>)
    ensures
        strip_view(terminal_view(s)) == terminal_view(s),
{
    law_terminal_text_has_no_controls(s);
    let shown = terminal_view(s);
    assert forall|i: int| 0 <= i < shown.len() implies shown[i] != '\u{1b}' by {
        assert(!is_control(shown[i]));
    }
    lemma_strip_without_escape(shown);
}

/// Removes ANSI styling, for output that is not a terminal.
pub fn strip_ansi(value: &str) -> (s: String)
    ensures
        s@ == strip_view(value@),
{
    let chars = chars_of(value);
    let mut out = String::new();
    let mut i: usize = 0;
    assert(chars@.skip(0) =~= chars@);
    while i < chars.len()
        invariant
            chars@ == value@,
            i <= chars@.len(),
            out@ + strip_view(chars@.skip(i as int)) == strip_view(value@),
        decreases chars@.len() - i,
    {
        let ghost rest = chars@.skip(i as int);
        if chars[i] == '\u{1b}' && i + 1 < chars.len() && chars[i + 1] == '[' {
            assert(rest[0] == '\u{1b}' && rest[1] == '[');
            let mut j = i + 2;
            assert(chars@.skip(j as int) =~= rest.skip(2));
            while j < chars.len() && !('@' <= chars[j] && chars[j] <= '~')
                invariant
                    i + 2 <= j <= chars@.len(),
                    after_sequence(rest.skip(2)) == after_sequence(chars@.skip(j as int)),
                decreases chars@.len() - j,
            {
                assert(chars@.skip(j as int).skip(1) =~= chars@.skip(j + 1));
                j = j + 1;
            }
            if j < chars.len() {
                assert(chars@.skip(j as int).skip(1) =~= chars@.skip(j + 1));
                j = j + 1;
            } else {
                assert(chars@.skip(j as int) =~= Seq::<char>::empty());
            }
            assert(after_sequence(rest.skip(2)) == chars@.skip(j as int));
            i = j;
        } else {
            assert(rest.skip(1) =~= chars@.skip(i + 1));
            assert(rest[0] == chars@[i as int]);
            push_char(&mut out, chars[i]);
            i = i + 1;
        }
    }
    assert(chars@.skip(i as int) =~= Seq::<char>::empty());
    out
}

pub open spec fn repositories_text(count: nat) -> Seq<char> {
    if count == 1 {
        "1 repository"@
    } else {
        decimal(count) + " repositories"@
    }
}

/// A count of repositories in words.
pub fn repositories(count: usize) -> (s: String)
    ensures
        s@ == repositories_text(count as nat),
{
    if count == 1 {
        String::from_str("1 repository")
    } else {
        let mut s = String::new();
        push_decimal(&mut s, count as u64);
        push_str(&mut s, " repositories");
        s
    }
}

pub open spec fn annotation_text(cache: CacheOutcome) -> Seq<char> {
    match cache {
        CacheOutcome::Miss => "(cached)"@,
        CacheOutcome::Hit => "(from cache)"@,
        CacheOutcome::Rebuilt => "(cache rebuilt)"@,
        CacheOutcome::Retargeted => "(cache retargeted)"@,
    }
}

/// The note shown beside a clone for what the cache did.
pub fn cache_annotation(cache: CacheOutcome) -> (s: &'static str)
    ensures
        s@ == annotation_text(cache),
{
    match cache {
        CacheOutcome::Miss => "(cached)",
        CacheOutcome::Hit => "(from cache)",
        CacheOutcome::Rebuilt => "(cache rebuilt)",
        CacheOutcome::Retargeted => "(cache retargeted)",
    }
}

} // verus!
