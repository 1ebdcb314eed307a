use vstd::prelude::*;
use crate::process::Proc;
use crate::text::{decimal, padded, push_decimal, push_str, right_pad};
use crate::units::{bytes_text, bytes_to_str, fixed2, percent_to_str};

verus! {

/// What the table shows where a field is unknown.
pub open spec fn unknown_text() -> Seq<char> {
    seq!['n', '/', 'a']
}

/// An optional text as shown, `n/a` where it is absent.
pub open spec fn shown_text(t: Option<String>) -> Seq<char> {
    match t {
        Some(s) => s@,
        None => unknown_text(),
    }
}

fn show_text(t: &Option<String>) -> (r: String)
    ensures
        r@ == shown_text(*t),
{
    let mut r = String::new();
    match t {
        Some(s) => push_str(&mut r, s.as_str()),
        None => {
            push_str(&mut r, "n/a");
            proof {
                reveal_strlit("n/a");
            }
        },
    }
    assert(r@ =~= shown_text(*t));
    r
}

/// The cells of a process's row, in the table's fixed column order: pid,
/// name, memory, CPU usage with two decimals and a percent sign, user and
/// parent pid.
pub open spec fn row_cells(p: Proc) -> Seq<Seq<char>> {
    seq![
        decimal(p.pid as nat),
        shown_text(p.name),
        bytes_text(p.memory as nat),
        match p.cpu_usage {
            Some(c) => fixed2(c as nat).push('%'),
            None => unknown_text(),
        },
        shown_text(p.user),
        match p.ppid {
            Some(x) => decimal(x as nat),
            None => unknown_text(),
        },
    ]
}

/// Writes the cells of a process's row in the table.
pub fn table_row(p: &Proc) -> (r: Vec<String>)
    ensures
        r@.len() == 6,
        forall|k: int| 0 <= k < 6 ==> #[trigger] r@[k]@ == row_cells(*p)[k],
{
    let mut pid = String::new();
    push_decimal(&mut pid, p.pid as u64);
    let cpu = match p.cpu_usage {
        Some(c) => {
            let mut s = percent_to_str(c);
            crate::text::push_char(&mut s, '%');
            s
        },
        None => show_text(&None),
    };
    let ppid = match p.ppid {
        Some(x) => {
            let mut s = String::new();
            push_decimal(&mut s, x as u64);
            s
        },
        None => show_text(&None),
    };
    let mut r: Vec<String> = Vec::new();
    r.push(pid);
    r.push(show_text(&p.name));
    r.push(bytes_to_str(p.memory));
    r.push(cpu);
    r.push(show_text(&p.user));
    r.push(ppid);
    proof {
        assert(pid@ == decimal(p.pid as nat));
    }
    r
}

/// A `key: value` line with the key padded to `width` characters.
pub fn labeled(key: &str, width: usize, value: &str) -> (r: String)
    ensures
        r@ == padded(key@, width as nat) + seq![':', ' '] + value@,
{
    let mut r = String::new();
    push_str(&mut r, key);
    right_pad(&mut r, width);
    push_str(&mut r, ": ");
    proof {
        reveal_strlit(": ");
    }
    push_str(&mut r, value);
    assert(key@ =~= Seq::<char>::empty() + key@);
    r
}

} // verus!
