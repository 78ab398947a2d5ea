//! Kanji decomposition records, parsed from lines of the form
//! `radical:part part part`. Some characters in the source data stand for
//! a radical under another code point; those are normalized to the radical
//! form. Reading the file itself is the caller's work; the line format is
//! this module's.

use vstd::prelude::*;

verus! {

/// A kanji radical and the parts it decomposes into.
pub struct KanjiPart {
    pub radical: char,
    pub parts: Vec<char>,
}

/// The radical form a source character is normalized to; most characters
/// stand for themselves.
pub open spec fn spec_map_character(c: char) -> char {
    if c == '\u{5316}' {
        '\u{2E85}'
    } else if c == '\u{4E2A}' {
        '\u{513F}'
    } else if c == '\u{4E5E}' {
        '\u{4E59}'
    } else if c == '\u{5E76}' {
        '\u{5E72}'
    } else if c == '\u{9091}' {
        '\u{2ECF}'
    } else if c == '\u{5208}' {
        '\u{2E89}'
    } else if c == '\u{9621}' {
        '\u{2ED6}'
    } else if c == '\u{8FBC}' {
        '\u{2ECC}'
    } else if c == '\u{5C1A}' {
        '\u{2E8C}'
    } else if c == '\u{5FD9}' {
        '\u{2E96}'
    } else if c == '\u{624E}' {
        '\u{624B}'
    } else if c == '\u{6C41}' {
        '\u{2EA1}'
    } else if c == '\u{72AF}' {
        '\u{2EA8}'
    } else if c == '\u{827E}' {
        '\u{2EBE}'
    } else if c == '\u{90A6}' {
        '\u{2ECF}'
    } else if c == '\u{8001}' {
        '\u{2EB9}'
    } else if c == '\u{6770}' {
        '\u{2EA3}'
    } else if c == '\u{793C}' {
        '\u{2EAD}'
    } else if c == '\u{7594}' {
        '\u{7592}'
    } else if c == '\u{79B9}' {
        '\u{79B8}'
    } else if c == '\u{521D}' {
        '\u{2EC2}'
    } else if c == '\u{8CB7}' {
        '\u{2EB2}'
    } else if c == '\u{6EF4}' {
        '\u{5547}'
    } else {
        c
    }
}

/// Normalizes a source character to its radical form.
pub fn map_character(inp: char) -> (r: char)
    ensures
        r == spec_map_character(inp),
{
    if inp == '\u{5316}' {
        '\u{2E85}'
    } else if inp == '\u{4E2A}' {
        '\u{513F}'
    } else if inp == '\u{4E5E}' {
        '\u{4E59}'
    } else if inp == '\u{5E76}' {
        '\u{5E72}'
    } else if inp == '\u{9091}' {
        '\u{2ECF}'
    } else if inp == '\u{5208}' {
        '\u{2E89}'
    } else if inp == '\u{9621}' {
        '\u{2ED6}'
    } else if inp == '\u{8FBC}' {
        '\u{2ECC}'
    } else if inp == '\u{5C1A}' {
        '\u{2E8C}'
    } else if inp == '\u{5FD9}' {
        '\u{2E96}'
    } else if inp == '\u{624E}' {
        '\u{624B}'
    } else if inp == '\u{6C41}' {
        '\u{2EA1}'
    } else if inp == '\u{72AF}' {
        '\u{2EA8}'
    } else if inp == '\u{827E}' {
        '\u{2EBE}'
    } else if inp == '\u{90A6}' {
        '\u{2ECF}'
    } else if inp == '\u{8001}' {
        '\u{2EB9}'
    } else if inp == '\u{6770}' {
        '\u{2EA3}'
    } else if inp == '\u{793C}' {
        '\u{2EAD}'
    } else if inp == '\u{7594}' {
        '\u{7592}'
    } else if inp == '\u{79B9}' {
        '\u{79B8}'
    } else if inp == '\u{521D}' {
        '\u{2EC2}'
    } else if inp == '\u{8CB7}' {
        '\u{2EB2}'
    } else if inp == '\u{6EF4}' {
        '\u{5547}'
    } else {
        inp
    }
}

/// The position of the first `:` at or after `i`, or the length when none
/// follows.
pub open spec fn spec_find_colon(s: Seq<char>, i: int) -> int
    decreases s.len() - i when 0 <= i <= s.len()
{
    if i >= s.len() {
        s.len() as int
    } else if s[i] == ':' {
        i
    } else {
        spec_find_colon(s, i + 1)
    }
}

/// The parts a segment yields: spaces dropped, every other character
/// normalized, in order.
pub open spec fn spec_parts(s: Seq<char>) -> Seq<char>
    decreases s.len(),
{
    if s.len() == 0 {
        Seq::<char>::empty()
    } else {
        let rest = spec_parts(s.drop_last());
        if s.last() == ' ' {
            rest
        } else {
            rest.push(spec_map_character(s.last()))
        }
    }
}

fn find_colon(s: &str, from: usize) -> (r: usize)
    requires
        from <= s@.len(),
    ensures
        r == spec_find_colon(s@, from as int),
        from <= r <= s@.len(),
{
    let n = s.unicode_len();
    let mut i: usize = from;
    while i < n
        invariant
            from <= i <= n,
            n == s@.len(),
            spec_find_colon(s@, i as int) == spec_find_colon(s@, from as int),
        decreases n - i,
    {
        if s.get_char(i) == ':' {
            return i;
        }
        i = i + 1;
    }
    i
}

/// Parses one line of a kanji decomposition file: the radical is the first
/// character before the first `:`; the parts come from the text between
/// the first and second `:` (or the line's end), spaces dropped and each
/// character normalized. A line without a `:`, or with nothing before it,
/// is invalid.
pub fn parse_item(line: &str) -> (r: Option<KanjiPart>)
    ensures
        ({
            let s = line@;
            let c1 = spec_find_colon(s, 0);
            let c2 = spec_find_colon(s, c1 + 1);
            &&& (r is Some <==> (0 < c1 < s.len()))
            &&& (r matches Some(k) ==> k.radical == s[0] && k.parts@ == spec_parts(
                s.subrange(c1 + 1, c2),
            ))
        }),
{
    let n = line.unicode_len();
    let c1 = find_colon(line, 0);
    if c1 == 0 || c1 >= n {
        return None;
    }
    let radical = line.get_char(0);
    let c2 = if c1 + 1 <= n {
        find_colon(line, c1 + 1)
    } else {
        n
    };
    let ghost seg = line@.subrange(c1 + 1, c2 as int);
    let mut parts: Vec<char> = Vec::new();
    let mut i: usize = c1 + 1;
    while i < c2
        invariant
            c1 + 1 <= i <= c2 <= n,
            n == line@.len(),
            seg == line@.subrange(c1 + 1, c2 as int),
            parts@ == spec_parts(line@.subrange(c1 + 1, i as int)),
        decreases c2 - i,
    {
        let c = line.get_char(i);
        proof {
            assert(line@.subrange(c1 + 1, i + 1).drop_last() =~= line@.subrange(
                c1 + 1,
                i as int,
            ));
            assert(line@.subrange(c1 + 1, i + 1).last() == c);
        }
        if c != ' ' {
            parts.push(map_character(c));
        }
        i = i + 1;
    }
    proof {
        assert(line@.subrange(c1 + 1, c2 as int) =~= line@.subrange(c1 + 1, i as int));
    }
    Some(KanjiPart { radical, parts })
}

} // verus!
