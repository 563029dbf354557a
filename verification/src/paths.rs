//! Path strings: joining (as `PathBuf::join` does on Unix), character
//! replacement, and a depth-limited search over a directory listing.

use vstd::prelude::*;
use crate::text::{chars_of, concat2, concat3, same_text, string_from_chars};

verus! {

/// `base.join(rel)` on Unix: an absolute `rel` replaces `base`; otherwise a
/// `/` separates the two unless `base` is empty or already ends in `/`.
pub open spec fn join_spec(base: Seq<char>, rel: Seq<char>) -> Seq<char> {
    if rel.len() > 0 && rel[0] == '/' {
        rel
    } else if base.len() == 0 || base.last() == '/' {
        base + rel
    } else {
        base + seq!['/'] + rel
    }
}

/// `s` with every `from` character replaced by the string `to`
/// (`str::replace` with a `char` pattern).
pub open spec fn replace_char_spec(s: Seq<char>, from: char, to: Seq<char>) -> Seq<char>
    decreases s.len(),
{
    if s.len() == 0 {
        seq![]
    } else {
        replace_char_spec(s.drop_last(), from, to) + (if s.last() == from {
            to
        } else {
            seq![s.last()]
        })
    }
}

/// `PathBuf::join` on Unix paths held as strings.
pub fn join_path(base: &str, rel: &str) -> (r: String)
    ensures
        r@ == join_spec(base@, rel@),
{
    let b = chars_of(base);
    let c = chars_of(rel);
    if c.len() > 0 && c[0] == '/' {
        return rel.to_owned();
    }
    if b.len() == 0 || b[b.len() - 1] == '/' {
        concat2(base, rel)
    } else {
        proof {
            reveal_strlit("/");
        }
        concat3(base, "/", rel)
    }
}

/// `s.replace(from, to)` for a single-character pattern.
pub fn replace_char(s: &str, from: char, to: &str) -> (r: String)
    ensures
        r@ == replace_char_spec(s@, from, to@),
{
    let cs = chars_of(s);
    let tos = chars_of(to);
    let mut out: Vec<char> = Vec::new();
    let mut i: usize = 0;
    while i < cs.len()
        invariant
            i <= cs.len(),
            tos@ == to@,
            out@ == replace_char_spec(cs@.take(i as int), from, to@),
        decreases cs.len() - i,
    {
        assert(cs@.take(i + 1).drop_last() =~= cs@.take(i as int));
        if cs[i] == from {
            let mut k: usize = 0;
            let ghost before = out@;
            while k < tos.len()
                invariant
                    k <= tos.len(),
                    out@ == before + tos@.take(k as int),
                decreases tos.len() - k,
            {
                out.push(tos[k]);
                k += 1;
                assert(out@ =~= before + tos@.take(k as int));
            }
            assert(tos@.take(k as int) =~= tos@);
        } else {
            out.push(cs[i]);
        }
        i += 1;
    }
    assert(cs@.take(i as int) =~= cs@);
    string_from_chars(&out)
}

// ---------------------------------------------------------------------------
// Directory listings
// ---------------------------------------------------------------------------

/// What reading one directory gave.
pub enum Listing {
    /// The directory could not be read.
    Unreadable,
    /// The readable entries, in the order the directory yielded them.
    Entries(Vec<DirEntry>),
}

/// One entry of a directory.
pub struct DirEntry {
    /// The entry's full path.
    pub path: String,
    /// Its final component, when that is valid Unicode.
    pub name: Option<String>,
    /// Whether it is (or links to) a regular file.
    pub is_file: bool,
    /// Whether it is (or links to) a directory.
    pub is_dir: bool,
    /// What reading it as a directory gave (only consulted for directories).
    pub contents: Listing,
}

/// Whether entry `e` is a file called `name`.
pub open spec fn is_file_named(e: DirEntry, name: Seq<char>) -> bool {
    &&& e.is_file
    &&& e.name matches Some(n) && n@ == name
}

/// The path of the first entry of `es`, from index `i` on, that is a file
/// called `name`.
pub open spec fn first_file_named(es: Seq<DirEntry>, i: int, name: Seq<char>) -> Option<Seq<char>>
    decreases es.len() - i,
{
    if i < 0 || i >= es.len() {
        None
    } else if is_file_named(es[i], name) {
        Some(es[i].path@)
    } else {
        first_file_named(es, i + 1, name)
    }
}

/// The search of `find_file`: the first matching file of this directory,
/// else, when `depth > 0`, the first hit in its subdirectories (searched in
/// order, each with one level less).
pub open spec fn find_spec(l: Listing, name: Seq<char>, depth: nat) -> Option<Seq<char>>
    decreases depth, 0int, 0int,
{
    match l {
        Listing::Unreadable => None,
        Listing::Entries(es) => {
            match first_file_named(es@, 0, name) {
                Some(p) => Some(p),
                None => if depth > 0 {
                    find_in_subdirs(es@, 0, name, (depth - 1) as nat)
                } else {
                    None
                },
            }
        },
    }
}

/// The first hit of `find_spec` among the directories of `es` from index
/// `i` on.
pub open spec fn find_in_subdirs(es: Seq<DirEntry>, i: int, name: Seq<char>, depth: nat) -> Option<
    Seq<char>,
>
    decreases depth, 1int, es.len() - i,
{
    if i < 0 || i >= es.len() {
        None
    } else {
        let here = if es[i].is_dir {
            find_spec(es[i].contents, name, depth)
        } else {
            None
        };
        match here {
            Some(p) => Some(p),
            None => find_in_subdirs(es, i + 1, name, depth),
        }
    }
}

fn first_file_named_exec(es: &Vec<DirEntry>, name: &str) -> (r: Option<String>)
    ensures
        r matches Some(p) ==> first_file_named(es@, 0, name@) == Some(p@),
        r is None ==> first_file_named(es@, 0, name@) is None,
{
    let mut i: usize = 0;
    while i < es.len()
        invariant
            i <= es.len(),
            first_file_named(es@, 0, name@) == first_file_named(es@, i as int, name@),
        decreases es.len() - i,
    {
        let e = &es[i];
        if e.is_file {
            match &e.name {
                Some(n) => {
                    if same_text(n.as_str(), name) {
                        return Some(e.path.clone());
                    }
                },
                None => {},
            }
        }
        i += 1;
    }
    None
}

/// Looks for a file called `name` in the listing `l` and, up to `depth`
/// levels down, in its subdirectories: the files of a directory are tried
/// before any of its subdirectories, and subdirectories in listing order.
pub fn find_file(l: &Listing, name: &str, depth: usize) -> (r: Option<String>)
    ensures
        r matches Some(p) ==> find_spec(*l, name@, depth as nat) == Some(p@),
        r is None ==> find_spec(*l, name@, depth as nat) is None,
    decreases depth, 0int, 0int,
{
    match l {
        Listing::Unreadable => None,
        Listing::Entries(es) => {
            match first_file_named_exec(es, name) {
                Some(p) => Some(p),
                None => {
                    if depth > 0 {
                        find_in_subdirs_exec(es, name, depth - 1)
                    } else {
                        None
                    }
                },
            }
        },
    }
}

fn find_in_subdirs_exec(es: &Vec<DirEntry>, name: &str, depth: usize) -> (r: Option<String>)
    ensures
        r matches Some(p) ==> find_in_subdirs(es@, 0, name@, depth as nat) == Some(p@),
        r is None ==> find_in_subdirs(es@, 0, name@, depth as nat) is None,
    decreases depth, 1int, 0int,
{
    let mut i: usize = 0;
    while i < es.len()
        invariant
            i <= es.len(),
            find_in_subdirs(es@, 0, name@, depth as nat) == find_in_subdirs(
                es@,
                i as int,
                name@,
                depth as nat,
            ),
        decreases es.len() - i,
    {
        let e = &es[i];
        if e.is_dir {
            match find_file(&e.contents, name, depth) {
                Some(p) => {
                    return Some(p);
                },
                None => {},
            }
        }
        i += 1;
    }
    None
}

} // verus!
