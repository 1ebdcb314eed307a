use vstd::prelude::*;
use crate::lines::{lemma_pieces_len, pieces, same_chars, split, to_text, trim, trimmed, views};
use crate::text::chars_of;

verus! {

/// The graphics adapter as `glxinfo` describes it.
pub struct GpuInfo {
    pub name: String,
    pub mem_size: String,
}

/// The value of a `key: value` line whose key is `key`, both trimmed; the
/// value ends at the next colon.
pub open spec fn field_value(line: Seq<char>, key: Seq<char>) -> Option<Seq<char>> {
    let cols = pieces(line, Some(':'));
    if cols.len() >= 2 && trimmed(cols[0]) == key {
        Some(trimmed(cols[1]))
    } else {
        None
    }
}

/// The value of the last of `lines` whose key is `key`.
pub open spec fn last_value(lines: Seq<Seq<char>>, key: Seq<char>) -> Option<Seq<char>>
    decreases lines.len(),
{
    if lines.len() == 0 {
        None
    } else {
        match field_value(lines.last(), key) {
            Some(v) => Some(v),
            None => last_value(lines.drop_last(), key),
        }
    }
}

/// The value of the last line of `text` whose key is `key`, or `default`.
pub open spec fn field_or(text: Seq<char>, key: Seq<char>, default: Seq<char>) -> Seq<char> {
    match last_value(pieces(text, Some('\n')), key) {
        Some(v) => v,
        None => default,
    }
}

fn line_value(line: &Vec<char>, key: &Vec<char>) -> (r: Option<Vec<char>>)
    ensures
        match r {
            Some(v) => field_value(line@, key@) == Some(v@),
            None => field_value(line@, key@) is None,
        },
{
    let cols = split(line, Some(':'));
    proof {
        lemma_pieces_len(line@, Some(':'));
        assert(cols@[0]@ == pieces(line@, Some(':'))[0]);
    }
    if cols.len() >= 2 {
        assert(cols@[1]@ == pieces(line@, Some(':'))[1]);
        let k = trim(&cols[0]);
        if same_chars(&k, key) {
            return Some(trim(&cols[1]));
        }
    }
    None
}

/// Reads the adapter's name and video memory from the output of
/// `glxinfo`: the values of its last `Device` and `Video memory` lines.
/// A field that no line gives reads `not parsed yet` and `-1`.
pub fn parse_gpuinfo(contents: &str) -> (r: GpuInfo)
    ensures
        r.name@ == field_or(contents@, "Device"@, "not parsed yet"@),
        r.mem_size@ == field_or(contents@, "Video memory"@, "-1"@),
{
    let device = chars_of("Device");
    let video = chars_of("Video memory");
    let text = chars_of(contents);
    let lines = split(&text, Some('\n'));
    let ghost ls = pieces(contents@, Some('\n'));
    let mut name: Option<Vec<char>> = None;
    let mut mem: Option<Vec<char>> = None;
    let mut i: usize = 0;
    while i < lines.len()
        invariant
            i <= lines@.len(),
            views(lines@) == ls,
            device@ == "Device"@,
            video@ == "Video memory"@,
            match name {
                Some(v) => last_value(ls.subrange(0, i as int), device@) == Some(v@),
                None => last_value(ls.subrange(0, i as int), device@) is None,
            },
            match mem {
                Some(v) => last_value(ls.subrange(0, i as int), video@) == Some(v@),
                None => last_value(ls.subrange(0, i as int), video@) is None,
            },
        decreases lines.len() - i,
    {
        proof {
            let sub = ls.subrange(0, i + 1);
            assert(sub.drop_last() =~= ls.subrange(0, i as int));
            assert(sub.last() == lines@[i as int]@);
        }
        match line_value(&lines[i], &device) {
            Some(v) => name = Some(v),
            None => {},
        }
        match line_value(&lines[i], &video) {
            Some(v) => mem = Some(v),
            None => {},
        }
        i = i + 1;
    }
    assert(ls.subrange(0, ls.len() as int) =~= ls);
    let name = match name {
        Some(v) => to_text(&v),
        None => String::from_str("not parsed yet"),
    };
    let mem_size = match mem {
        Some(v) => to_text(&v),
        None => String::from_str("-1"),
    };
    GpuInfo { name, mem_size }
}

} // verus!
