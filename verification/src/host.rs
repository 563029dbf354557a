//! What the host machine reports, read as text: total RAM from
//! `/proc/meminfo` or `sysctl -n hw.memsize`, the directories of a search
//! path, and the home directory. Reading files, running `sysctl` and
//! testing for files are the caller's part.

use vstd::prelude::*;
use crate::config::opt_view;
use crate::numbers::{parse_u64, parse_unsigned_spec};
use crate::paths::{join_path, join_spec};
use crate::text::{
    char_is_whitespace, chars_of, is_whitespace_char, lines, lines_spec, skip_whitespace,
    starts_with_at, starts_with_spec, string_of_range, trim, trim_spec, trim_start_spec, views,
};

verus! {

// ---------------------------------------------------------------------------
// Words
// ---------------------------------------------------------------------------

/// The characters of `t` up to its first whitespace character.
pub open spec fn word_from(t: Seq<char>) -> Seq<char>
    decreases t.len(),
{
    if t.len() == 0 || is_whitespace_char(t[0]) {
        seq![]
    } else {
        seq![t[0]] + word_from(t.drop_first())
    }
}

/// The first whitespace-separated word of `s` (`s.split_whitespace().next()`).
pub open spec fn first_word_spec(s: Seq<char>) -> Option<Seq<char>> {
    let t = trim_start_spec(s);
    if t.len() == 0 {
        None
    } else {
        Some(word_from(t))
    }
}

proof fn lemma_word_step(s: Seq<char>, i: int)
    requires
        0 <= i < s.len(),
        !is_whitespace_char(s[i]),
    ensures
        word_from(s.skip(i)) == seq![s[i]] + word_from(s.skip(i + 1)),
{
    assert(s.skip(i).drop_first() =~= s.skip(i + 1));
    assert(s.skip(i)[0] == s[i]);
}

/// `s.split_whitespace().next()`.
pub fn first_word(s: &str) -> (r: Option<String>)
    ensures
        opt_view(r) == first_word_spec(s@),
{
    let cs = chars_of(s);
    let lo = skip_whitespace(&cs, 0);
    assert(cs@.skip(0) =~= cs@);
    if lo == cs.len() {
        assert(cs@.skip(lo as int) =~= Seq::<char>::empty());
        return None;
    }
    let mut hi = lo;
    while hi < cs.len() && !char_is_whitespace(cs[hi])
        invariant
            lo <= hi <= cs.len(),
            word_from(cs@.skip(lo as int)) == cs@.subrange(lo as int, hi as int) + word_from(
                cs@.skip(hi as int),
            ),
        decreases cs.len() - hi,
    {
        proof {
            lemma_word_step(cs@, hi as int);
            assert(cs@.subrange(lo as int, hi as int) + seq![cs@[hi as int]] =~= cs@.subrange(
                lo as int,
                hi + 1,
            ));
        }
        hi += 1;
    }
    proof {
        if hi == cs.len() {
            assert(cs@.skip(hi as int) =~= Seq::<char>::empty());
        } else {
            assert(cs@.skip(hi as int)[0] == cs@[hi as int]);
        }
        assert(cs@.subrange(lo as int, hi as int) + Seq::<char>::empty() =~= cs@.subrange(
            lo as int,
            hi as int,
        ));
    }
    Some(string_of_range(&cs, lo, hi))
}

// ---------------------------------------------------------------------------
// Total RAM
// ---------------------------------------------------------------------------

/// The kB figure of a `MemTotal:` line of `/proc/meminfo`, when the line is
/// one and its first word parses as a `u64`.
pub open spec fn meminfo_line_kb(line: Seq<char>) -> Option<int> {
    if starts_with_spec(line, "MemTotal:"@) {
        match first_word_spec(line.skip("MemTotal:"@.len() as int)) {
            Some(w) => parse_unsigned_spec(w, u64::MAX as int),
            None => None,
        }
    } else {
        None
    }
}

/// Whole GB from the first usable `MemTotal:` line among `ls`.
pub open spec fn meminfo_scan(ls: Seq<Seq<char>>) -> Option<int>
    decreases ls.len(),
{
    if ls.len() == 0 {
        None
    } else {
        match meminfo_line_kb(ls[0]) {
            Some(kb) => Some(kb / 1024 / 1024),
            None => meminfo_scan(ls.drop_first()),
        }
    }
}

/// Total RAM in whole GB as `/proc/meminfo` states it.
pub open spec fn meminfo_total_gb_spec(text: Seq<char>) -> Option<int> {
    meminfo_scan(lines_spec(text))
}

fn meminfo_line(line: &str) -> (r: Option<u64>)
    ensures
        match meminfo_line_kb(line@) {
            Some(kb) => r == Some(kb as u64),
            None => r is None,
        },
        r matches Some(kb) ==> meminfo_line_kb(line@) == Some(kb as int),
{
    let cs = chars_of(line);
    let p = chars_of("MemTotal:");
    if !starts_with_at(&cs, 0, &p) {
        proof {
            assert(cs@.skip(0) =~= cs@);
        }
        return None;
    }
    proof {
        assert(cs@.skip(0) =~= cs@);
        assert(cs@.skip(p@.len() as int) =~= cs@.subrange(p@.len() as int, cs@.len() as int));
    }
    let rest = string_of_range(&cs, p.len(), cs.len());
    match first_word(rest.as_str()) {
        Some(w) => parse_u64(w.as_str()),
        None => None,
    }
}

/// Total RAM in whole GB from the text of `/proc/meminfo`: the first
/// `MemTotal:` line whose figure parses, in kB divided by 1024 twice.
pub fn meminfo_total_gb(text: &str) -> (r: Option<u64>)
    ensures
        match meminfo_total_gb_spec(text@) {
            Some(g) => r == Some(g as u64),
            None => r is None,
        },
        r matches Some(g) ==> meminfo_total_gb_spec(text@) == Some(g as int),
{
    let ls = lines(text);
    let ghost lv = views(ls@);
    let mut i: usize = 0;
    assert(lv.skip(0) =~= lv);
    while i < ls.len()
        invariant
            0 <= i <= ls.len(),
            lv == views(ls@),
            lv == lines_spec(text@),
            meminfo_scan(lv.skip(i as int)) == meminfo_scan(lv),
        decreases ls.len() - i,
    {
        proof {
            assert(lv.skip(i as int).drop_first() =~= lv.skip(i + 1));
            assert(lv.skip(i as int)[0] == ls@[i as int]@);
        }
        match meminfo_line(ls[i].as_str()) {
            Some(kb) => {
                return Some(kb / 1024 / 1024);
            },
            None => {},
        }
        i += 1;
    }
    proof {
        assert(lv.skip(i as int) =~= Seq::<Seq<char>>::empty());
    }
    None
}

/// Total RAM in whole GB from the byte count that `sysctl -n hw.memsize`
/// prints (surrounding whitespace allowed).
pub open spec fn memsize_total_gb_spec(text: Seq<char>) -> Option<int> {
    match parse_unsigned_spec(trim_spec(text), u64::MAX as int) {
        Some(b) => Some(b / 1024 / 1024 / 1024),
        None => None,
    }
}

/// Total RAM in whole GB from the output of `sysctl -n hw.memsize`.
pub fn memsize_total_gb(text: &str) -> (r: Option<u64>)
    ensures
        match memsize_total_gb_spec(text@) {
            Some(g) => r == Some(g as u64),
            None => r is None,
        },
        r matches Some(g) ==> memsize_total_gb_spec(text@) == Some(g as int),
{
    let t = trim(text);
    match parse_u64(t.as_str()) {
        Some(b) => Some(b / 1024 / 1024 / 1024),
        None => None,
    }
}

/// Total RAM in whole GB: from `/proc/meminfo` when it was read and states
/// it, else from the `sysctl` output when there is one that parses, else 0.
pub open spec fn total_gb_spec(meminfo: Option<Seq<char>>, sysctl: Option<Seq<char>>) -> int {
    let from_meminfo = match meminfo {
        Some(t) => meminfo_total_gb_spec(t),
        None => None,
    };
    let from_sysctl = match sysctl {
        Some(t) => memsize_total_gb_spec(t),
        None => None,
    };
    match from_meminfo {
        Some(g) => g,
        None => match from_sysctl {
            Some(g) => g,
            None => 0,
        },
    }
}

/// Total RAM in whole GB from what the machine reported: the text of
/// `/proc/meminfo` and the output of `sysctl -n hw.memsize`, each when it
/// could be had.
pub fn total_gb(meminfo: &Option<String>, sysctl: &Option<String>) -> (r: u64)
    ensures
        r == total_gb_spec(opt_view(*meminfo), opt_view(*sysctl)),
{
    match meminfo {
        Some(t) => match meminfo_total_gb(t.as_str()) {
            Some(g) => {
                return g;
            },
            None => {},
        },
        None => {},
    }
    match sysctl {
        Some(t) => match memsize_total_gb(t.as_str()) {
            Some(g) => g,
            None => 0,
        },
        None => 0,
    }
}

// ---------------------------------------------------------------------------
// Search paths
// ---------------------------------------------------------------------------

/// The pieces of `s` between the `sep` characters (`str::split` with a
/// `char` pattern); `cur` is the piece already read.
pub open spec fn split_acc(s: Seq<char>, sep: char, cur: Seq<char>) -> Seq<Seq<char>>
    decreases s.len(),
{
    if s.len() == 0 {
        seq![cur]
    } else if s[0] == sep {
        seq![cur] + split_acc(s.drop_first(), sep, seq![])
    } else {
        split_acc(s.drop_first(), sep, cur.push(s[0]))
    }
}

/// `s.split(sep)`: always at least one piece, an empty one for an empty `s`.
pub open spec fn split_spec(s: Seq<char>, sep: char) -> Seq<Seq<char>> {
    split_acc(s, sep, seq![])
}

/// `s.split(sep)`, collected.
pub fn split_char(s: &str, sep: char) -> (r: Vec<String>)
    ensures
        views(r@) == split_spec(s@, sep),
{
    let cs = chars_of(s);
    let mut out: Vec<String> = Vec::new();
    let mut start: usize = 0;
    let mut i: usize = 0;
    proof {
        assert(cs@.skip(0) =~= cs@);
        assert(cs@.subrange(0, 0) =~= Seq::<char>::empty());
        assert(views(out@) =~= Seq::<Seq<char>>::empty());
        assert(Seq::<Seq<char>>::empty() + split_spec(s@, sep) =~= split_spec(s@, sep));
    }
    while i < cs.len()
        invariant
            0 <= start <= i <= cs.len(),
            cs@ == s@,
            views(out@) + split_acc(cs@.skip(i as int), sep, cs@.subrange(start as int, i as int))
                == split_spec(s@, sep),
        decreases cs.len() - i,
    {
        proof {
            assert(cs@.skip(i as int).drop_first() =~= cs@.skip(i + 1));
            assert(cs@.skip(i as int)[0] == cs@[i as int]);
        }
        if cs[i] == sep {
            let piece = string_of_range(&cs, start, i);
            let ghost before = views(out@);
            out.push(piece);
            proof {
                assert(views(out@) =~= before.push(piece@));
                assert(cs@.subrange(i + 1, i + 1) =~= Seq::<char>::empty());
                assert(before + (seq![piece@] + split_acc(cs@.skip(i + 1), sep, seq![])) =~= before.push(piece@)
                    + split_acc(cs@.skip(i + 1), sep, cs@.subrange(i + 1, i + 1)));
            }
            start = i + 1;
        } else {
            proof {
                assert(cs@.subrange(start as int, i as int).push(cs@[i as int]) =~= cs@.subrange(
                    start as int,
                    i + 1,
                ));
            }
        }
        i += 1;
    }
    let last = string_of_range(&cs, start, cs.len());
    let ghost before = views(out@);
    out.push(last);
    proof {
        assert(cs@.skip(i as int) =~= Seq::<char>::empty());
        assert(views(out@) =~= before.push(last@));
        assert(before + seq![last@] =~= before.push(last@));
    }
    out
}

/// Where a program called `name` is looked for: each directory of the
/// search path `path_var` (split at `sep`) joined with `name`.
pub open spec fn search_candidates_spec(path_var: Seq<char>, sep: char, name: Seq<char>) -> Seq<
    Seq<char>,
> {
    split_spec(path_var, sep).map_values(|d: Seq<char>| join_spec(d, name))
}

/// The paths at which a program called `name` may be found on the search
/// path `path_var`, in search order.
pub fn search_candidates(path_var: &str, sep: char, name: &str) -> (r: Vec<String>)
    ensures
        views(r@) == search_candidates_spec(path_var@, sep, name@),
{
    let dirs = split_char(path_var, sep);
    let mut out: Vec<String> = Vec::new();
    let mut i: usize = 0;
    while i < dirs.len()
        invariant
            0 <= i <= dirs.len(),
            views(dirs@) == split_spec(path_var@, sep),
            views(out@) == split_spec(path_var@, sep).take(i as int).map_values(
                |d: Seq<char>| join_spec(d, name@),
            ),
        decreases dirs.len() - i,
    {
        let p = join_path(dirs[i].as_str(), name);
        let ghost before = views(out@);
        out.push(p);
        proof {
            assert(views(out@) =~= before.push(p@));
            assert(views(dirs@)[i as int] == dirs@[i as int]@);
            assert(split_spec(path_var@, sep).take(i + 1).map_values(
                |d: Seq<char>| join_spec(d, name@),
            ) =~= before.push(p@));
        }
        i += 1;
    }
    proof {
        assert(split_spec(path_var@, sep).take(i as int) =~= split_spec(path_var@, sep));
    }
    out
}

/// The home directory: `HOME` when it is set, else `USERPROFILE`, else `.`.
pub open spec fn home_dir_spec(home: Option<Seq<char>>, userprofile: Option<Seq<char>>) -> Seq<
    char,
> {
    match home {
        Some(h) => h,
        None => match userprofile {
            Some(u) => u,
            None => "."@,
        },
    }
}

/// The home directory from the values of `HOME` and `USERPROFILE`.
pub fn home_dir(home: &Option<String>, userprofile: &Option<String>) -> (r: String)
    ensures
        r@ == home_dir_spec(opt_view(*home), opt_view(*userprofile)),
{
    match home {
        Some(h) => h.clone(),
        None => match userprofile {
            Some(u) => u.clone(),
            None => ".".to_owned(),
        },
    }
}

} // verus!
