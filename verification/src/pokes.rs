//! The patch list: single-byte memory patches, one per line of text.
//!
//! A line is cut into fields at white space. It is a patch when it has at
//! least five fields, the first of them `M` or `Z`, and the third, fourth
//! and fifth are decimal numbers that fit an address, a byte and a byte.
//! Every other line is passed over.

use crate::text::chars_of;
use vstd::prelude::*;

verus! {

/// One patch: the byte to write at an address, and the byte that was there.
#[derive(Clone, Copy, Debug, PartialEq, Eq, Structural)]
pub struct PokeEntry {
    pub addr: u16,
    pub value: u8,
    pub original: u8,
}

/// Whether `c` is white space: a character with the Unicode property
/// `White_Space`.
pub open spec fn is_whitespace(c: char) -> bool {
    let u = c as u32;
    (0x09 <= u <= 0x0D) || u == 0x20 || u == 0x85 || u == 0xA0 || u == 0x1680 || (0x2000 <= u
        <= 0x200A) || u == 0x2028 || u == 0x2029 || u == 0x202F || u == 0x205F || u == 0x3000
}

/// Whether `c` ends a run: a line feed where text is cut into lines, white
/// space where a line is cut into fields.
pub open spec fn separates(lines: bool, c: char) -> bool {
    if lines {
        c == '\n'
    } else {
        is_whitespace(c)
    }
}

/// The runs of `s`: its longest stretches without a separator, in order.
pub open spec fn runs(s: Seq<char>, lines: bool) -> Seq<Seq<char>>
    decreases s.len(),
{
    if s.len() == 0 {
        Seq::empty()
    } else {
        let before = runs(s.drop_last(), lines);
        let c = s.last();
        if separates(lines, c) {
            before
        } else if s.len() >= 2 && !separates(lines, s[s.len() - 2]) {
            before.drop_last().push(before.last().push(c))
        } else {
            before.push(seq![c])
        }
    }
}

/// Whether `c` is one of the digits `0` to `9`.
pub open spec fn is_digit(c: char) -> bool {
    0x30 <= c as u32 <= 0x39
}

/// The number that a string of digits writes, or `None` where a character
/// is no digit. The empty string writes zero.
pub open spec fn digits_value(s: Seq<char>) -> Option<nat>
    decreases s.len(),
{
    if s.len() == 0 {
        Some(0nat)
    } else {
        match digits_value(s.drop_last()) {
            Some(v) => if is_digit(s.last()) {
                Some((10 * v + (s.last() as u32 - 0x30)) as nat)
            } else {
                None
            },
            None => None,
        }
    }
}

/// The digits of a number field: the field without a leading plus sign.
pub open spec fn unsigned_part(field: Seq<char>) -> Seq<char> {
    if field.len() > 0 && field[0] == '+' {
        field.skip(1)
    } else {
        field
    }
}

/// The number in `field`, if it is an optional plus sign and at least one
/// digit, and the number is at most `max`.
pub open spec fn number_in(field: Seq<char>, max: nat) -> Option<nat> {
    let digits = unsigned_part(field);
    if digits.len() == 0 {
        None
    } else {
        match digits_value(digits) {
            Some(v) => if v <= max {
                Some(v)
            } else {
                None
            },
            None => None,
        }
    }
}

/// Whether `field` is the one letter `M` or the one letter `Z`.
pub open spec fn is_patch_mark(field: Seq<char>) -> bool {
    field.len() == 1 && (field[0] == 'M' || field[0] == 'Z')
}

/// The patch that the fields of a line give, if they give one.
pub open spec fn poke_of_fields(fields: Seq<Seq<char>>) -> Option<PokeEntry> {
    if fields.len() >= 5 && is_patch_mark(fields[0]) {
        match (number_in(fields[2], 65535), number_in(fields[3], 255), number_in(fields[4], 255)) {
            (Some(addr), Some(value), Some(original)) => Some(
                PokeEntry { addr: addr as u16, value: value as u8, original: original as u8 },
            ),
            _ => None,
        }
    } else {
        None
    }
}

/// The patches in these lines, in order.
pub open spec fn pokes_of_lines(lines: Seq<Seq<char>>) -> Seq<PokeEntry>
    decreases lines.len(),
{
    if lines.len() == 0 {
        Seq::empty()
    } else {
        let before = pokes_of_lines(lines.drop_last());
        match poke_of_fields(runs(lines.last(), false)) {
            Some(entry) => before.push(entry),
            None => before,
        }
    }
}

/// The patches in a patch list, in order.
pub open spec fn parse_pokes(content: Seq<char>) -> Seq<PokeEntry> {
    pokes_of_lines(runs(content, true))
}

/// The character sequences that `v` holds.
pub open spec fn views(v: Seq<Vec<char>>) -> Seq<Seq<char>> {
    Seq::new(v.len(), |k: int| v[k]@)
}

/// Whether `c` is white space.
pub fn char_is_whitespace(c: char) -> (b: bool)
    ensures
        b == is_whitespace(c),
{
    let u = c as u32;
    (0x09 <= u && u <= 0x0D) || u == 0x20 || u == 0x85 || u == 0xA0 || u == 0x1680 || (0x2000 <= u
        && u <= 0x200A) || u == 0x2028 || u == 0x2029 || u == 0x202F || u == 0x205F || u == 0x3000
}

/// Whether `c` ends a run.
fn char_separates(lines: bool, c: char) -> (b: bool)
    ensures
        b == separates(lines, c),
{
    if lines {
        c == '\n'
    } else {
        char_is_whitespace(c)
    }
}

/// Cuts `s` into its runs: lines where `lines` is set, fields otherwise.
pub fn split_runs(s: &Vec<char>, lines: bool) -> (out: Vec<Vec<char>>)
    ensures
        views(out@) == runs(s@, lines),
{
    let mut done: Vec<Vec<char>> = Vec::new();
    let mut current: Vec<char> = Vec::new();
    let mut in_run = false;
    let mut i: usize = 0;
    assert(s@.take(0) =~= Seq::<char>::empty());
    assert(views(done@) =~= Seq::<Seq<char>>::empty());
    while i < s.len()
        invariant
            i <= s.len(),
            in_run == (i > 0 && !separates(lines, s@[i - 1])),
            runs(s@.take(i as int), lines) == if in_run {
                views(done@).push(current@)
            } else {
                views(done@)
            },
        decreases s.len() - i,
    {
        let c = s[i];
        let ghost before = runs(s@.take(i as int), lines);
        let ghost shown = views(done@);
        proof {
            let next = s@.take(i + 1);
            assert(next.drop_last() =~= s@.take(i as int));
            assert(next.last() == c);
            if i > 0 {
                assert(next[next.len() - 2] == s@[i - 1]);
            }
        }
        if char_separates(lines, c) {
            if in_run {
                done.push(current);
                current = Vec::new();
                in_run = false;
                assert(views(done@) =~= before);
            }
        } else if in_run {
            current.push(c);
            assert(before.drop_last() =~= shown);
            assert(views(done@) =~= shown);
        } else {
            current = Vec::new();
            current.push(c);
            in_run = true;
            assert(current@ =~= seq![c]);
            assert(views(done@) =~= shown);
        }
        i += 1;
    }
    assert(s@.take(s.len() as int) =~= s@);
    if in_run {
        let ghost shown = views(done@);
        done.push(current);
        assert(views(done@) =~= shown.push(current@));
    }
    done
}

/// Reads the number in `field`, if it is one and at most `max`.
pub fn parse_number(field: &Vec<char>, max: u32) -> (r: Option<u32>)
    requires
        max <= 65535,
    ensures
        r is Some == number_in(field@, max as nat) is Some,
        r matches Some(v) ==> number_in(field@, max as nat) == Some(v as nat),
{
    let start: usize = if field.len() > 0 && field[0] == '+' {
        1
    } else {
        0
    };
    let ghost digits = unsigned_part(field@);
    assert(digits =~= field@.skip(start as int));
    if start == field.len() {
        return None;
    }
    let mut i: usize = start;
    let mut valid = true;
    let mut acc: u32 = 0;
    assert(digits.take(0) =~= Seq::<char>::empty());
    while i < field.len()
        invariant
            start <= i <= field.len(),
            max <= 65535,
            digits == field@.skip(start as int),
            valid == digits_value(digits.take(i - start)) is Some,
            valid ==> acc <= max + 1,
            valid ==> (digits_value(digits.take(i - start))->0 <= max ==> acc == digits_value(
                digits.take(i - start),
            )->0),
            valid ==> (digits_value(digits.take(i - start))->0 > max ==> acc == max + 1),
        decreases field.len() - i,
    {
        let c = field[i];
        let u = c as u32;
        proof {
            let next = digits.take(i + 1 - start);
            assert(next.drop_last() =~= digits.take(i - start));
            assert(next.last() == c);
        }
        if valid && 0x30 <= u && u <= 0x39 {
            let wider: u32 = 10 * acc + (u - 0x30);
            acc = if wider > max {
                max + 1
            } else {
                wider
            };
        } else {
            valid = false;
        }
        i += 1;
    }
    assert(digits.take(field.len() - start) =~= digits);
    if valid && acc <= max {
        Some(acc)
    } else {
        None
    }
}

/// Whether `field` is the one letter `M` or the one letter `Z`.
fn is_mark(field: &Vec<char>) -> (b: bool)
    ensures
        b == is_patch_mark(field@),
{
    field.len() == 1 && (field[0] == 'M' || field[0] == 'Z')
}

/// The patch that a line gives, if it gives one.
pub fn parse_poke_line(line: &Vec<char>) -> (r: Option<PokeEntry>)
    ensures
        r == poke_of_fields(runs(line@, false)),
{
    let fields = split_runs(line, false);
    if fields.len() < 5 {
        return None;
    }
    assert(views(fields@)[0] == fields@[0]@);
    assert(views(fields@)[2] == fields@[2]@);
    assert(views(fields@)[3] == fields@[3]@);
    assert(views(fields@)[4] == fields@[4]@);
    if !is_mark(&fields[0]) {
        return None;
    }
    match (parse_number(&fields[2], 65535), parse_number(&fields[3], 255), parse_number(
        &fields[4],
        255,
    )) {
        (Some(addr), Some(value), Some(original)) => Some(
            PokeEntry { addr: addr as u16, value: value as u8, original: original as u8 },
        ),
        _ => None,
    }
}

/// Reads a patch list.
///
/// Lines that are no patch, short or malformed, are passed over.
pub fn parse_pokes_content(content: &str) -> (pokes: Vec<PokeEntry>)
    ensures
        pokes@ == parse_pokes(content@),
{
    let chars = chars_of(content);
    let lines = split_runs(&chars, true);
    let mut pokes: Vec<PokeEntry> = Vec::new();
    let mut i: usize = 0;
    assert(views(lines@).take(0) =~= Seq::<Seq<char>>::empty());
    while i < lines.len()
        invariant
            i <= lines.len(),
            pokes@ == pokes_of_lines(views(lines@).take(i as int)),
        decreases lines.len() - i,
    {
        proof {
            let next = views(lines@).take(i + 1);
            assert(next.drop_last() =~= views(lines@).take(i as int));
            assert(next.last() == lines@[i as int]@);
        }
        match parse_poke_line(&lines[i]) {
            Some(entry) => pokes.push(entry),
            None => {},
        }
        i += 1;
    }
    assert(views(lines@).take(lines.len() as int) =~= views(lines@));
    pokes
}

/// The memory writes that switch the patches on or off: every patch's
/// address, with the patched byte to switch on and the byte that was there
/// to switch off.
pub open spec fn writes_of(pokes: Seq<PokeEntry>, enabled: bool) -> Seq<(u16, u8)> {
    Seq::new(
        pokes.len(),
        |k: int|
            (
                pokes[k].addr,
                if enabled {
                    pokes[k].value
                } else {
                    pokes[k].original
                },
            ),
    )
}

/// The memory writes that switch the patches on or off.
pub fn poke_writes(pokes: &Vec<PokeEntry>, enabled: bool) -> (writes: Vec<(u16, u8)>)
    ensures
        writes@ == writes_of(pokes@, enabled),
{
    let mut writes: Vec<(u16, u8)> = Vec::new();
    let mut i: usize = 0;
    while i < pokes.len()
        invariant
            i <= pokes.len(),
            writes@ == writes_of(pokes@, enabled).take(i as int),
        decreases pokes.len() - i,
    {
        let entry = pokes[i];
        let byte = if enabled {
            entry.value
        } else {
            entry.original
        };
        writes.push((entry.addr, byte));
        assert(writes@ =~= writes_of(pokes@, enabled).take(i + 1));
        i += 1;
    }
    assert(writes_of(pokes@, enabled).take(pokes.len() as int) =~= writes_of(pokes@, enabled));
    writes
}

} // verus!
