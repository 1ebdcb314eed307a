use vstd::prelude::*;
use crate::lines::{pieces, same_chars, split, split_whitespace, to_text, views, words};
use crate::text::chars_of;

verus! {

/// The file system mounted at `/`, as `df -h` reports it.
pub struct HddInfo {
    pub name: String,
    pub mount: String,
    pub used: String,
    pub avail: String,
}

/// The columns of a `df` row for the root mount: six or more columns, the
/// sixth being `/`.
pub open spec fn root_row(line: Seq<char>) -> Option<Seq<Seq<char>>> {
    let cols = words(line);
    if cols.len() >= 6 && cols[5] == "/"@ {
        Some(cols)
    } else {
        None
    }
}

/// The columns of the last root row among `lines`.
pub open spec fn last_root_row(lines: Seq<Seq<char>>) -> Option<Seq<Seq<char>>>
    decreases lines.len(),
{
    if lines.len() == 0 {
        None
    } else {
        match root_row(lines.last()) {
            Some(cols) => Some(cols),
            None => last_root_row(lines.drop_last()),
        }
    }
}

/// Column `k` of the last root row of `text`, or `not parsed yet`.
pub open spec fn root_column(text: Seq<char>, k: int) -> Seq<char> {
    match last_root_row(pieces(text, Some('\n'))) {
        Some(cols) => cols[k],
        None => "not parsed yet"@,
    }
}

/// Reads the root file system's device, mount point, used and available
/// space from the output of `df -h`, from its last row whose mount point is
/// `/`. Each field that no row gives reads `not parsed yet`.
pub fn parse_hddinfo(contents: &str) -> (r: HddInfo)
    ensures
        r.name@ == root_column(contents@, 0),
        r.mount@ == root_column(contents@, 5),
        r.used@ == root_column(contents@, 2),
        r.avail@ == root_column(contents@, 3),
{
    let root = chars_of("/");
    let text = chars_of(contents);
    let lines = split(&text, Some('\n'));
    let ghost ls = pieces(contents@, Some('\n'));
    let mut found: Option<Vec<Vec<char>>> = None;
    let mut i: usize = 0;
    while i < lines.len()
        invariant
            i <= lines@.len(),
            views(lines@) == ls,
            root@ == "/"@,
            found is Some ==> found.unwrap()@.len() >= 6,
            match found {
                Some(cols) => last_root_row(ls.subrange(0, i as int)) == Some(views(cols@)),
                None => last_root_row(ls.subrange(0, i as int)) is None,
            },
        decreases lines.len() - i,
    {
        proof {
            let sub = ls.subrange(0, i + 1);
            assert(sub.drop_last() =~= ls.subrange(0, i as int));
            assert(sub.last() == lines@[i as int]@);
        }
        let cols = split_whitespace(&lines[i]);
        if cols.len() >= 6 {
            assert(views(cols@)[5] == cols@[5]@);
            if same_chars(&cols[5], &root) {
                found = Some(cols);
            }
        }
        i = i + 1;
    }
    assert(ls.subrange(0, ls.len() as int) =~= ls);
    match found {
        Some(cols) => {
            assert(views(cols@)[0] == cols@[0]@ && views(cols@)[2] == cols@[2]@);
            assert(views(cols@)[3] == cols@[3]@ && views(cols@)[5] == cols@[5]@);
            HddInfo {
                name: to_text(&cols[0]),
                mount: to_text(&cols[5]),
                used: to_text(&cols[2]),
                avail: to_text(&cols[3]),
            }
        },
        None => HddInfo {
            name: String::from_str("not parsed yet"),
            mount: String::from_str("not parsed yet"),
            used: String::from_str("not parsed yet"),
            avail: String::from_str("not parsed yet"),
        },
    }
}

} // verus!
