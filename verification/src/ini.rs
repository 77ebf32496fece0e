//! The INI dialect of FFmpegEncoder.ini: `[section]` headers, `key=value`
//! settings, and comment lines starting with `;` or `#`. Section names and
//! keys are compared in lower case; keys and values are trimmed.
use vstd::prelude::*;

use crate::text::{
    chars_of, first_index_of, find_char, lines, lower_seq, lowercase, slice_of, split_lines, trim,
    trimmed,
};

verus! {

/// One `key=value` setting with the section it appears in.
pub struct IniEntry {
    pub section: Vec<char>,
    pub key: Vec<char>,
    pub value: Vec<char>,
}

pub open spec fn entry_view(e: IniEntry) -> (Seq<char>, Seq<char>, Seq<char>) {
    (e.section@, e.key@, e.value@)
}

pub open spec fn entry_views(v: Seq<IniEntry>) -> Seq<(Seq<char>, Seq<char>, Seq<char>)> {
    v.map_values(|e: IniEntry| entry_view(e))
}

/// Reading one line: the settings so far and the current section.
#[verifier::opaque]
pub open spec fn ini_step(
    st: (Seq<(Seq<char>, Seq<char>, Seq<char>)>, Seq<char>),
    raw: Seq<char>,
) -> (Seq<(Seq<char>, Seq<char>, Seq<char>)>, Seq<char>) {
    let line = trim(raw);
    if line.len() == 0 || line[0] == ';' || line[0] == '#' {
        st
    } else if line[0] == '[' && line.last() == ']' {
        (st.0, lower_seq(trim(line.subrange(1, line.len() - 1))))
    } else {
        match first_index_of(line, '=') {
            None => st,
            Some(eq) => (
                st.0.push((st.1, lower_seq(trim(line.take(eq))), trim(line.skip(eq + 1)))),
                st.1,
            ),
        }
    }
}

pub open spec fn ini_scan(ls: Seq<Seq<char>>) -> (Seq<(Seq<char>, Seq<char>, Seq<char>)>, Seq<char>)
    decreases ls.len(),
{
    if ls.len() == 0 {
        (seq![], seq![])
    } else {
        ini_step(ini_scan(ls.drop_last()), ls.last())
    }
}

/// The settings of a file, in the order they appear.
pub open spec fn ini_entries(text: Seq<char>) -> Seq<(Seq<char>, Seq<char>, Seq<char>)> {
    ini_scan(lines(text)).0
}

/// The settings of `text`, in order.
#[verifier::rlimit(50)]
#[verifier::spinoff_prover]
pub fn read_entries(text: &str) -> (r: Vec<IniEntry>)
    ensures
        entry_views(r@) == ini_entries(text@),
{
    let tv = chars_of(text);
    let ls = split_lines(tv.as_slice());
    let ghost lv = ls@.map_values(|w: Vec<char>| w@);
    let mut out: Vec<IniEntry> = Vec::new();
    let mut section: Vec<char> = Vec::new();
    let mut i: usize = 0;
    while i < ls.len()
        invariant
            i <= ls.len(),
            lv == ls@.map_values(|w: Vec<char>| w@),
            lv == lines(text@),
            (entry_views(out@), section@) == ini_scan(lv.take(i as int)),
        decreases ls.len() - i,
    {
        let ghost before = entry_views(out@);
        let ghost st = (before, section@);
        assert(lv.take(i + 1).drop_last() =~= lv.take(i as int));
        assert(lv[i as int] == ls@[i as int]@);
        let line = trimmed(ls[i].as_slice());
        let n = line.len();
        if n == 0 || line[0] == ';' || line[0] == '#' {
        } else if line[0] == '[' && line[n - 1] == ']' {
            let inner = slice_of(line.as_slice(), 1, n - 1);
            let t = trimmed(inner.as_slice());
            section = lowercase(t.as_slice());
        } else {
            match find_char(line.as_slice(), '=') {
                None => {},
                Some(eq) => {
                    let k = slice_of(line.as_slice(), 0, eq);
                    let kt = trimmed(k.as_slice());
                    let key = lowercase(kt.as_slice());
                    let v = slice_of(line.as_slice(), eq + 1, n);
                    let value = trimmed(v.as_slice());
                    assert(line@.take(eq as int) =~= line@.subrange(0, eq as int));
                    assert(line@.skip(eq + 1) =~= line@.subrange(eq + 1, n as int));
                    let ghost ev = (section@, key@, value@);
                    out.push(IniEntry { section: section.clone(), key, value });
                    assert(entry_views(out@) =~= before.push(ev));
                },
            }
        }
        i = i + 1;
        assert((entry_views(out@), section@) == ini_step(st, lv[i - 1])) by {
            reveal(ini_step);
        }
    }
    assert(lv.take(i as int) =~= lv);
    out
}

} // verus!
