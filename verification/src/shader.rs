//! The source of a display filter, made ready for the compiler.
//!
//! A filter is one text that holds both the vertex and the fragment stage.
//! Each stage is compiled from the same text behind two lines of its own:
//! the language version and a definition that says which stage is meant. A
//! version line that the text brings along is taken out first.

use crate::pokes::{char_is_whitespace, is_whitespace};
use crate::text::chars_of;
use vstd::prelude::*;

verus! {

/// `s` without the white space it starts with.
pub open spec fn trimmed_start(s: Seq<char>) -> Seq<char>
    decreases s.len(),
{
    if s.len() > 0 && is_whitespace(s[0]) {
        trimmed_start(s.skip(1))
    } else {
        s
    }
}

/// Whether `s` starts with `prefix`.
pub open spec fn starts_with(s: Seq<char>, prefix: Seq<char>) -> bool {
    s.len() >= prefix.len() && s.take(prefix.len() as int) == prefix
}

/// What follows the first line of `s`: all after the first line feed, and
/// nothing where there is none.
pub open spec fn after_first_line(s: Seq<char>) -> Seq<char>
    decreases s.len(),
{
    if s.len() == 0 {
        Seq::empty()
    } else if s[0] == '\n' {
        s.skip(1)
    } else {
        after_first_line(s.skip(1))
    }
}

/// `s` with every carriage return taken out that stands right before a line
/// feed.
pub open spec fn unix_breaks(s: Seq<char>) -> Seq<char>
    decreases s.len(),
{
    if s.len() == 0 {
        Seq::empty()
    } else {
        let before = unix_breaks(s.drop_last());
        if s.last() == '\n' && s.len() >= 2 && s[s.len() - 2] == '\r' {
            before.drop_last().push('\n')
        } else {
            before.push(s.last())
        }
    }
}

/// `s` without the line feed it ends with, if it ends with one.
pub open spec fn without_last_break(s: Seq<char>) -> Seq<char> {
    if s.len() > 0 && s.last() == '\n' {
        s.drop_last()
    } else {
        s
    }
}

/// Whether the text brings its own version line: it starts, after white
/// space, with `#version`.
pub open spec fn has_version_line(source: Seq<char>) -> bool {
    starts_with(trimmed_start(source), "#version"@)
}

/// The text without a version line of its own.
///
/// Where the text starts, after white space, with `#version`, its first line
/// goes, and the lines that follow are joined by line feeds alone, with none
/// after the last. Any other text stays as it is.
pub open spec fn clean_source(source: Seq<char>) -> Seq<char> {
    if has_version_line(source) {
        without_last_break(unix_breaks(after_first_line(source)))
    } else {
        source
    }
}

/// The text that the vertex stage is compiled from.
pub open spec fn vertex_source(source: Seq<char>) -> Seq<char> {
    "#version 330 core\n#define VERTEX\n"@ + clean_source(source)
}

/// The text that the fragment stage is compiled from.
pub open spec fn fragment_source(source: Seq<char>) -> Seq<char> {
    "#version 330 core\n#define FRAGMENT\n"@ + clean_source(source)
}

/// Where the text starts after its leading white space.
fn skip_white_space(s: &Vec<char>) -> (i: usize)
    ensures
        i <= s.len(),
        trimmed_start(s@) == s@.skip(i as int),
{
    let mut i: usize = 0;
    assert(s@.skip(0) =~= s@);
    while i < s.len() && char_is_whitespace(s[i])
        invariant
            i <= s.len(),
            trimmed_start(s@) == trimmed_start(s@.skip(i as int)),
        decreases s.len() - i,
    {
        assert(s@.skip(i as int).skip(1) =~= s@.skip(i + 1));
        i += 1;
    }
    i
}

/// Whether `prefix` stands in `s` at `at`.
fn has_prefix_at(s: &Vec<char>, at: usize, prefix: &Vec<char>) -> (b: bool)
    requires
        at <= s.len(),
    ensures
        b == starts_with(s@.skip(at as int), prefix@),
{
    if s.len() - at < prefix.len() {
        return false;
    }
    let ghost rest = s@.skip(at as int);
    let mut k: usize = 0;
    while k < prefix.len()
        invariant
            k <= prefix.len(),
            at + prefix.len() <= s.len(),
            rest == s@.skip(at as int),
            forall|j: int| 0 <= j < k ==> rest[j] == prefix@[j],
        decreases prefix.len() - k,
    {
        if s[at + k] != prefix[k] {
            assert(rest.take(prefix.len() as int)[k as int] != prefix@[k as int]);
            return false;
        }
        k += 1;
    }
    assert(rest.take(prefix.len() as int) =~= prefix@);
    true
}

/// Where the second line starts; the end of the text where it has one line.
fn first_line_end(s: &Vec<char>) -> (start: usize)
    ensures
        start <= s.len(),
        after_first_line(s@) == s@.skip(start as int),
{
    let mut i: usize = 0;
    assert(s@.skip(0) =~= s@);
    while i < s.len()
        invariant
            i <= s.len(),
            after_first_line(s@) == after_first_line(s@.skip(i as int)),
        decreases s.len() - i,
    {
        assert(s@.skip(i as int).skip(1) =~= s@.skip(i + 1));
        if s[i] == '\n' {
            return i + 1;
        }
        i += 1;
    }
    assert(s@.skip(s.len() as int) =~= Seq::<char>::empty());
    i
}

/// Takes a version line of its own out of the text of a filter.
pub fn clean_shader_source(source: &Vec<char>) -> (out: Vec<char>)
    ensures
        out@ == clean_source(source@),
{
    let marker = chars_of("#version");
    let text_start = skip_white_space(source);
    let mut out: Vec<char> = Vec::new();
    if !has_prefix_at(source, text_start, &marker) {
        let mut k: usize = 0;
        while k < source.len()
            invariant
                k <= source.len(),
                out@ == source@.take(k as int),
            decreases source.len() - k,
        {
            out.push(source[k]);
            assert(out@ =~= source@.take(k + 1));
            k += 1;
        }
        assert(source@.take(source.len() as int) =~= source@);
        return out;
    }
    let start = first_line_end(source);
    let ghost rest = source@.skip(start as int);
    let mut k: usize = start;
    assert(rest.take(0) =~= Seq::<char>::empty());
    while k < source.len()
        invariant
            start <= k <= source.len(),
            rest == source@.skip(start as int),
            out@ == unix_breaks(rest.take(k - start)),
            k > start && source@[k - 1] == '\r' ==> out@.len() > 0,
        decreases source.len() - k,
    {
        let c = source[k];
        proof {
            let next = rest.take(k + 1 - start);
            assert(next.drop_last() =~= rest.take(k - start));
            assert(next.last() == c);
            if k > start {
                assert(next[next.len() - 2] == source@[k - 1]);
            }
        }
        if c == '\n' && k > start && source[k - 1] == '\r' {
            out.pop();
            out.push('\n');
        } else {
            out.push(c);
        }
        k += 1;
    }
    assert(rest.take(source.len() - start) =~= rest);
    if out.len() > 0 && out[out.len() - 1] == '\n' {
        out.pop();
    }
    out
}

/// `head` followed by `tail`.
fn join(head: &str, tail: &Vec<char>) -> (out: Vec<char>)
    ensures
        out@ == head@ + tail@,
{
    let mut out = chars_of(head);
    let mut k: usize = 0;
    while k < tail.len()
        invariant
            k <= tail.len(),
            out@ == head@ + tail@.take(k as int),
        decreases tail.len() - k,
    {
        out.push(tail[k]);
        assert(out@ =~= head@ + tail@.take(k + 1));
        k += 1;
    }
    assert(tail@.take(tail.len() as int) =~= tail@);
    out
}

/// The texts that the two stages of a filter are compiled from: the vertex
/// stage first, then the fragment stage.
pub fn shader_sources(source: &str) -> (stages: (Vec<char>, Vec<char>))
    ensures
        stages.0@ == vertex_source(source@),
        stages.1@ == fragment_source(source@),
{
    let chars = chars_of(source);
    let clean = clean_shader_source(&chars);
    (
        join("#version 330 core\n#define VERTEX\n", &clean),
        join("#version 330 core\n#define FRAGMENT\n", &clean),
    )
}

} // verus!
