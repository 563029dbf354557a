//! The correlation graph `(:File {path,sig,name})-[:Mentions {count}]->(:Entity {name})`:
//! the Cypher statements that keep it up to date and query it, and the text
//! made of its answers. Running the statements against the database is the
//! caller's part.

use vstd::prelude::*;
use crate::config::opt_view;
use crate::entities::{extract_entities, ranked_entities};
use crate::numbers::{decimal_spec, format_u64};
use crate::text::{chars_of, contains_spec, occurs_at, same_text, string_from_chars, views};

verus! {

// ---------------------------------------------------------------------------
// Escaping
// ---------------------------------------------------------------------------

/// How one character is written inside a single-quoted Cypher string.
pub open spec fn esc_char(c: char) -> Seq<char> {
    if c == '\\' {
        seq!['\\', '\\']
    } else if c == '\'' {
        seq!['\\', '\'']
    } else {
        seq![c]
    }
}

/// `s` with each backslash doubled and each single quote preceded by a
/// backslash (`s.replace('\\', "\\\\").replace('\'', "\\'")`).
pub open spec fn esc_spec(s: Seq<char>) -> Seq<char>
    decreases s.len(),
{
    if s.len() == 0 {
        seq![]
    } else {
        esc_char(s[0]) + esc_spec(s.drop_first())
    }
}

/// Reading a Cypher string body back: a backslash takes the next character
/// literally.
pub open spec fn unescape_spec(t: Seq<char>) -> Seq<char>
    decreases t.len(),
{
    if t.len() == 0 {
        seq![]
    } else if t[0] == '\\' && t.len() >= 2 {
        seq![t[1]] + unescape_spec(t.skip(2))
    } else {
        seq![t[0]] + unescape_spec(t.drop_first())
    }
}

/// Escapes `s` for use inside a single-quoted Cypher string.
pub fn esc(s: &str) -> (r: String)
    ensures
        r@ == esc_spec(s@),
{
    let cs = chars_of(s);
    let mut out: Vec<char> = Vec::new();
    let mut i: usize = 0;
    assert(cs@.skip(0) =~= cs@);
    while i < cs.len()
        invariant
            i <= cs.len(),
            out@ + esc_spec(cs@.skip(i as int)) == esc_spec(cs@),
        decreases cs.len() - i,
    {
        let c = cs[i];
        assert(cs@.skip(i as int).drop_first() =~= cs@.skip(i + 1));
        let ghost before = out@;
        if c == '\\' {
            out.push('\\');
            out.push('\\');
        } else if c == '\'' {
            out.push('\\');
            out.push('\'');
        } else {
            out.push(c);
        }
        assert(out@ =~= before + esc_char(c));
        assert(out@ + esc_spec(cs@.skip(i + 1)) =~= before + esc_spec(cs@.skip(i as int)));
        i += 1;
    }
    assert(cs@.skip(i as int) =~= Seq::<char>::empty());
    assert(out@ =~= out@ + esc_spec(cs@.skip(i as int)));
    string_from_chars(&out)
}

/// Escaping loses nothing: reading an escaped string back gives the
/// string that was escaped.
pub proof fn law_esc_round_trip(s: Seq<char>)
    ensures
        unescape_spec(esc_spec(s)) == s,
    decreases s.len(),
{
    if s.len() > 0 {
        law_esc_round_trip(s.drop_first());
        let rest = esc_spec(s.drop_first());
        let e = esc_spec(s);
        assert(e == esc_char(s[0]) + rest);
        if s[0] == '\\' || s[0] == '\'' {
            assert(e.skip(2) =~= rest);
        } else {
            assert(e.drop_first() =~= rest);
        }
        assert(seq![s[0]] + s.drop_first() =~= s);
    }
}

/// Escaped text never ends a quoted string early: every single quote in it
/// comes right after a backslash that is not itself escaped away.
pub proof fn law_esc_quotes_guarded(s: Seq<char>)
    ensures
        esc_quotes_guarded(esc_spec(s)),
    decreases s.len(),
{
    if s.len() > 0 {
        law_esc_quotes_guarded(s.drop_first());
        let rest = esc_spec(s.drop_first());
        let e = esc_spec(s);
        if s[0] == '\\' || s[0] == '\'' {
            assert(e.skip(2) =~= rest);
        } else {
            assert(e.drop_first() =~= rest);
        }
    }
}

/// Read from the left, `t` never meets a bare single quote: quotes only come
/// as the second character of a backslash pair.
pub open spec fn esc_quotes_guarded(t: Seq<char>) -> bool
    decreases t.len(),
{
    if t.len() == 0 {
        true
    } else if t[0] == '\\' && t.len() >= 2 {
        esc_quotes_guarded(t.skip(2))
    } else {
        t[0] != '\'' && esc_quotes_guarded(t.drop_first())
    }
}

// ---------------------------------------------------------------------------
// Statements
// ---------------------------------------------------------------------------

/// The statements that create the graph's tables when they are missing.
pub fn schema_statements() -> (r: Vec<String>)
    ensures
        views(r@) == seq![
            "CREATE NODE TABLE IF NOT EXISTS File(path STRING, sig STRING, name STRING, PRIMARY KEY(path));"@,
            "CREATE NODE TABLE IF NOT EXISTS Entity(name STRING, PRIMARY KEY(name));"@,
            "CREATE REL TABLE IF NOT EXISTS Mentions(FROM File TO Entity, count INT64);"@,
        ],
{
    let mut v: Vec<String> = Vec::new();
    v.push(
        "CREATE NODE TABLE IF NOT EXISTS File(path STRING, sig STRING, name STRING, PRIMARY KEY(path));".to_owned(),
    );
    v.push("CREATE NODE TABLE IF NOT EXISTS Entity(name STRING, PRIMARY KEY(name));".to_owned());
    v.push("CREATE REL TABLE IF NOT EXISTS Mentions(FROM File TO Entity, count INT64);".to_owned());
    assert(views(v@) =~= seq![
        "CREATE NODE TABLE IF NOT EXISTS File(path STRING, sig STRING, name STRING, PRIMARY KEY(path));"@,
        "CREATE NODE TABLE IF NOT EXISTS Entity(name STRING, PRIMARY KEY(name));"@,
        "CREATE REL TABLE IF NOT EXISTS Mentions(FROM File TO Entity, count INT64);"@,
    ]);
    v
}

/// `a`, then `x` escaped, then `b`.
fn around(a: &str, x: &str, b: &str) -> (r: String)
    ensures
        r@ == a@ + esc_spec(x@) + b@,
{
    let mut r = a.to_owned();
    let e = esc(x);
    r.append(e.as_str());
    r.append(b);
    r
}

/// The statement that reads the signature recorded for a file.
pub open spec fn sig_query_spec(path: Seq<char>) -> Seq<char> {
    "MATCH (f:File {path:'"@ + esc_spec(path) + "'}) RETURN f.sig;"@
}

/// Reads the signature recorded for the file at `path`.
pub fn sig_query(path: &str) -> (r: String)
    ensures
        r@ == sig_query_spec(path@),
{
    around("MATCH (f:File {path:'", path, "'}) RETURN f.sig;")
}

/// Whether a file's text is already in the graph: the last signature read
/// back for it equals `sig`.
pub fn already_recorded(recorded: &Vec<String>, sig: &str) -> (r: bool)
    ensures
        r == (recorded@.len() > 0 && recorded@.last()@ == sig@),
{
    if recorded.len() == 0 {
        false
    } else {
        same_text(recorded[recorded.len() - 1].as_str(), sig)
    }
}

/// The final component of a path, as `Path::file_name` reads it.
pub uninterp spec fn path_file_name(p: Seq<char>) -> Option<Seq<char>>;

/// Calls `Path::file_name` (and turns the name into a `String`). Claims only
/// that the result is a fixed function of the path, named `path_file_name`;
/// Path's component rules are not restated.
#[verifier::external_body]
fn file_name_of(path: &str) -> (r: Option<String>)
    ensures
        opt_view(r) == path_file_name(path@),
{
    std::path::Path::new(path).file_name().map(|n| n.to_string_lossy().into_owned())
}

/// The name a file is shown under: its final path component, or the whole
/// path when it has none.
pub fn display_name(path: &str) -> (r: String)
    ensures
        r@ == match path_file_name(path@) {
            Some(n) => n,
            None => path@,
        },
{
    match file_name_of(path) {
        Some(n) => n,
        None => path.to_owned(),
    }
}

/// The rendering of an `i64` (`format!("{}", n)`).
pub open spec fn i64_decimal_spec(n: int) -> Seq<char> {
    if n < 0 {
        seq!['-'] + decimal_spec((-n) as nat)
    } else {
        decimal_spec(n as nat)
    }
}

/// `format!("{}", n)` for an `i64`.
pub fn format_i64(n: i64) -> (r: String)
    ensures
        r@ == i64_decimal_spec(n as int),
{
    if n < 0 {
        let m: u64 = ((-(n + 1)) as u64) + 1;
        let d = format_u64(m);
        let mut r = "-".to_owned();
        r.append(d.as_str());
        proof {
            reveal_strlit("-");
        }
        r
    } else {
        format_u64(n as u64)
    }
}

/// The statement that records a file's signature and name.
pub open spec fn upsert_file_spec(path: Seq<char>, sig: Seq<char>, name: Seq<char>) -> Seq<char> {
    "MERGE (f:File {path:'"@ + esc_spec(path) + "'}) SET f.sig='"@ + esc_spec(sig) + "', f.name='"@
        + esc_spec(name) + "';"@
}

/// The statement that removes a file's mentions.
pub open spec fn clear_mentions_spec(path: Seq<char>) -> Seq<char> {
    "MATCH (f:File {path:'"@ + esc_spec(path) + "'})-[m:Mentions]->() DELETE m;"@
}

/// The statement that records an entity.
pub open spec fn merge_entity_spec(entity: Seq<char>) -> Seq<char> {
    "MERGE (e:Entity {name:'"@ + esc_spec(entity) + "'});"@
}

/// The statement that records how often a file mentions an entity.
pub open spec fn merge_mention_spec(path: Seq<char>, entity: Seq<char>, count: int) -> Seq<char> {
    "MATCH (f:File {path:'"@ + esc_spec(path) + "'}), (e:Entity {name:'"@ + esc_spec(entity)
        + "'}) MERGE (f)-[m:Mentions]->(e) SET m.count="@ + i64_decimal_spec(count) + ";"@
}

/// The statements that bring the graph up to date with one file's text.
pub struct GraphUpdate {
    /// Records the file's signature and name (its failure fails the update).
    pub upsert_file: String,
    /// Removes the file's old mentions.
    pub clear_mentions: String,
    /// For each entity: the statement recording it, then the one recording
    /// the mention.
    pub entities: Vec<(String, String)>,
}

/// The statements for recording the file at `path` (signature `sig`, shown
/// as `name`) with the ranked `entities` of its text.
pub fn update_statements(path: &str, sig: &str, name: &str, entities: &Vec<(String, i64)>) -> (r:
    GraphUpdate)
    ensures
        r.upsert_file@ == upsert_file_spec(path@, sig@, name@),
        r.clear_mentions@ == clear_mentions_spec(path@),
        r.entities.len() == entities.len(),
        forall|i: int|
            0 <= i < entities.len() ==> (#[trigger] r.entities@[i]).0@ == merge_entity_spec(
                entities@[i].0@,
            ) && r.entities@[i].1@ == merge_mention_spec(
                path@,
                entities@[i].0@,
                entities@[i].1 as int,
            ),
{
    let mut upsert = around("MERGE (f:File {path:'", path, "'}) SET f.sig='");
    let s = around("", sig, "', f.name='");
    let n = around("", name, "';");
    upsert.append(s.as_str());
    upsert.append(n.as_str());
    proof {
        reveal_strlit("");
    }
    let clear = around("MATCH (f:File {path:'", path, "'})-[m:Mentions]->() DELETE m;");
    let mut per: Vec<(String, String)> = Vec::new();
    let mut i: usize = 0;
    while i < entities.len()
        invariant
            i <= entities.len(),
            per.len() == i,
            forall|j: int|
                0 <= j < i ==> (#[trigger] per@[j]).0@ == merge_entity_spec(entities@[j].0@)
                    && per@[j].1@ == merge_mention_spec(
                    path@,
                    entities@[j].0@,
                    entities@[j].1 as int,
                ),
        decreases entities.len() - i,
    {
        let ent = &entities[i].0;
        let count = entities[i].1;
        let merge = around("MERGE (e:Entity {name:'", ent.as_str(), "'});");
        let mut mention = around("MATCH (f:File {path:'", path, "'}), (e:Entity {name:'");
        let rest = around("", ent.as_str(), "'}) MERGE (f)-[m:Mentions]->(e) SET m.count=");
        mention.append(rest.as_str());
        let c = format_i64(count);
        mention.append(c.as_str());
        mention.append(";");
        proof {
            reveal_strlit("");
        }
        assert(mention@ =~= merge_mention_spec(path@, ent@, count as int));
        per.push((merge, mention));
        i += 1;
    }
    GraphUpdate { upsert_file: upsert, clear_mentions: clear, entities: per }
}

/// `r` is the update for the file at `path` (signature `sig`) with text
/// `text`: its ranked entities (at most 40) and the statements that record
/// the file under its display name and store those entities.
pub open spec fn planned_update(
    path: Seq<char>,
    sig: Seq<char>,
    text: Seq<char>,
    entities: Seq<(String, i64)>,
    u: GraphUpdate,
) -> bool {
    &&& ranked_entities(text, 40, entities)
    &&& u.upsert_file@ == upsert_file_spec(
        path,
        sig,
        match path_file_name(path) {
            Some(n) => n,
            None => path,
        },
    )
    &&& u.clear_mentions@ == clear_mentions_spec(path)
    &&& u.entities.len() == entities.len()
    &&& forall|i: int|
        0 <= i < entities.len() ==> (#[trigger] u.entities@[i]).0@ == merge_entity_spec(
            entities[i].0@,
        ) && u.entities@[i].1@ == merge_mention_spec(path, entities[i].0@, entities[i].1 as int)
}

/// The statements for recording one file's text: its ranked entities (at
/// most 40) and the statements that store them. The text must be shorter
/// than `i64::MAX` characters, as every text is.
pub fn plan_file_update(path: &str, sig: &str, text: &str) -> (r: (Vec<(String, i64)>, GraphUpdate))
    requires
        text@.len() < i64::MAX,
    ensures
        planned_update(path@, sig@, text@, r.0@, r.1),
{
    let name = display_name(path);
    let entities = extract_entities(text, 40);
    let update = update_statements(path, sig, name.as_str(), &entities);
    (entities, update)
}

/// What updating the graph for one file takes, given the signatures read
/// back for it (`recorded`): nothing at all when the last one is `sig` (the
/// file is already recorded with this text, so a second update changes
/// nothing), else the planned update.
pub fn file_update(recorded: &Vec<String>, path: &str, sig: &str, text: &str) -> (r: Option<
    (Vec<(String, i64)>, GraphUpdate),
>)
    requires
        text@.len() < i64::MAX,
    ensures
        (recorded@.len() > 0 && recorded@.last()@ == sig@) <==> r is None,
        r matches Some(p) ==> planned_update(path@, sig@, text@, p.0@, p.1),
{
    if already_recorded(recorded, sig) {
        None
    } else {
        Some(plan_file_update(path, sig, text))
    }
}

// ---------------------------------------------------------------------------
// Correlation
// ---------------------------------------------------------------------------

/// The statement listing the files that mention an entity.
pub open spec fn files_query_spec(term: Seq<char>) -> Seq<char> {
    "MATCH (e:Entity {name:'"@ + esc_spec(term) + "'})<-[:Mentions]-(f:File) RETURN f.name LIMIT 20;"@
}

/// The statement listing the entities that share a file with an entity.
pub open spec fn related_query_spec(term: Seq<char>) -> Seq<char> {
    "MATCH (e:Entity {name:'"@ + esc_spec(term)
        + "'})<-[:Mentions]-(:File)-[:Mentions]->(e2:Entity) RETURN DISTINCT e2.name LIMIT 20;"@
}

/// Lists (up to 20 of) the files that mention `term`.
pub fn files_query(term: &str) -> (r: String)
    ensures
        r@ == files_query_spec(term@),
{
    around("MATCH (e:Entity {name:'", term, "'})<-[:Mentions]-(f:File) RETURN f.name LIMIT 20;")
}

/// Lists (up to 20 of) the entities that share a file with `term`.
pub fn related_query(term: &str) -> (r: String)
    ensures
        r@ == related_query_spec(term@),
{
    around(
        "MATCH (e:Entity {name:'",
        term,
        "'})<-[:Mentions]-(:File)-[:Mentions]->(e2:Entity) RETURN DISTINCT e2.name LIMIT 20;",
    )
}

/// The terms of a question to look up in the graph: its ranked entities,
/// at most 8.
pub fn question_terms(question: &str) -> (r: Vec<(String, i64)>)
    requires
        question@.len() < i64::MAX,
    ensures
        ranked_entities(question@, 8, r@),
{
    extract_entities(question, 8)
}

/// What the graph says about one term.
pub struct TermHits {
    pub term: String,
    /// Files that mention it.
    pub files: Vec<String>,
    /// Entities that share a file with it.
    pub related: Vec<String>,
}

/// The strings joined with `sep` between neighbours (`join`).
pub open spec fn join_spec(parts: Seq<Seq<char>>, sep: Seq<char>) -> Seq<char>
    decreases parts.len(),
{
    if parts.len() == 0 {
        seq![]
    } else if parts.len() == 1 {
        parts[0]
    } else {
        join_spec(parts.drop_last(), sep) + sep + parts.last()
    }
}

/// Joins strings with `sep` between neighbours.
pub fn join_strings(parts: &Vec<String>, sep: &str) -> (r: String)
    ensures
        r@ == join_spec(views(parts@), sep@),
{
    let ghost ps = views(parts@);
    let mut r = String::new();
    let mut i: usize = 0;
    assert(ps.take(0) =~= Seq::<Seq<char>>::empty());
    while i < parts.len()
        invariant
            i <= parts.len(),
            ps == views(parts@),
            r@ == join_spec(ps.take(i as int), sep@),
        decreases parts.len() - i,
    {
        assert(ps.take(i + 1).drop_last() =~= ps.take(i as int));
        if i > 0 {
            r.append(sep);
        } else {
            assert(ps.take(1) =~= seq![parts@[0]@]);
            assert(r@ =~= Seq::<char>::empty());
        }
        r.append(parts[i].as_str());
        proof {
            if i == 0 {
                assert(r@ =~= join_spec(ps.take(1), sep@));
            }
        }
        i += 1;
    }
    assert(ps.take(i as int) =~= ps);
    r
}

/// Where part `k` starts in `parts` joined with `sep`: after each earlier
/// part and one separator per earlier part.
pub open spec fn part_offset(parts: Seq<Seq<char>>, sep: Seq<char>, k: int) -> int
    decreases k,
{
    if k <= 0 {
        0
    } else {
        part_offset(parts, sep, k - 1) + parts[k - 1].len() + sep.len()
    }
}

proof fn lemma_part_offset_prefix(parts: Seq<Seq<char>>, sep: Seq<char>, k: int)
    requires
        0 <= k < parts.len(),
    ensures
        part_offset(parts.drop_last(), sep, k) == part_offset(parts, sep, k),
    decreases k,
{
    if k > 0 {
        lemma_part_offset_prefix(parts, sep, k - 1);
    }
}

/// Joining lists every part, in order and whole: part `k` occurs at
/// `part_offset(parts, sep, k)`, and the result is exactly as long as the
/// parts with one separator between neighbours.
pub proof fn law_join_lists_every_part(parts: Seq<Seq<char>>, sep: Seq<char>)
    requires
        parts.len() > 0,
    ensures
        forall|k: int|
            0 <= k < parts.len() ==> occurs_at(
                join_spec(parts, sep),
                #[trigger] parts[k],
                part_offset(parts, sep, k),
            ),
        join_spec(parts, sep).len() == part_offset(parts, sep, parts.len() as int) - sep.len(),
    decreases parts.len(),
{
    let n = parts.len() as int;
    if n == 1 {
        assert(join_spec(parts, sep) == parts[0]);
        assert(parts[0].subrange(0, parts[0].len() as int) =~= parts[0]);
        assert(part_offset(parts, sep, 0) == 0);
        assert(part_offset(parts, sep, 1) == parts[0].len() + sep.len());
    } else {
        let dl = parts.drop_last();
        law_join_lists_every_part(dl, sep);
        let jd = join_spec(dl, sep);
        let j = join_spec(parts, sep);
        assert(j == jd + sep + parts.last());
        lemma_part_offset_prefix(parts, sep, n - 1);
        assert(part_offset(parts, sep, n) == part_offset(parts, sep, n - 1) + parts[n - 1].len()
            + sep.len());
        assert(j.len() == jd.len() + sep.len() + parts.last().len());
        assert forall|k: int| 0 <= k < n implies occurs_at(j, #[trigger] parts[k], part_offset(
            parts,
            sep,
            k,
        )) by {
            if k < n - 1 {
                lemma_part_offset_prefix(parts, sep, k);
                assert(dl[k] == parts[k]);
                assert(occurs_at(jd, dl[k], part_offset(dl, sep, k)));
                let o = part_offset(parts, sep, k);
                assert(j.subrange(o, o + parts[k].len()) =~= jd.subrange(o, o + parts[k].len()));
            } else {
                let o = part_offset(parts, sep, k);
                assert(o == jd.len() + sep.len());
                assert(j.subrange(o, o + parts[k].len()) =~= parts.last());
            }
        }
    }
}

proof fn lemma_occurs_shift(a: Seq<char>, b: Seq<char>, c: Seq<char>, p: Seq<char>, i: int)
    requires
        occurs_at(b, p, i),
    ensures
        occurs_at(a + b + c, p, a.len() + i),
{
    assert((a + b + c).subrange(a.len() + i, a.len() + i + p.len()) =~= b.subrange(i, i + p.len()));
}

/// The files part of a term's line.
pub open spec fn files_part(files: Seq<Seq<char>>) -> Seq<char> {
    if files.len() > 0 {
        "mentioned in ["@ + join_spec(files, ", "@) + "]"@
    } else {
        seq![]
    }
}

/// The related-entities part of a term's line.
pub open spec fn related_part(related: Seq<Seq<char>>) -> Seq<char> {
    if related.len() > 0 {
        "; related to ["@ + join_spec(related, ", "@) + "]"@
    } else {
        seq![]
    }
}

proof fn lemma_term_line_shape(term: Seq<char>, files: Seq<Seq<char>>, related: Seq<Seq<char>>)
    requires
        files.len() > 0 || related.len() > 0,
    ensures
        term_line_spec(term, files, related) == "- "@ + term + ": "@ + files_part(files)
            + related_part(related) + "\n"@,
{
}

proof fn lemma_term_line_related(term: Seq<char>, files: Seq<Seq<char>>, related: Seq<Seq<char>>)
    requires
        related.len() > 0,
    ensures
        term_line_spec(term, files, related) == ("- "@ + term + ": "@ + files_part(files))
            + "; related to ["@ + join_spec(related, ", "@) + "]\n"@,
        forall|k: int| 0 <= k < related.len() ==> contains_spec(term_line_spec(term, files, related), #[trigger] related[k]),
{
    reveal_strlit("]\n");
    reveal_strlit("]");
    reveal_strlit("\n");
    lemma_term_line_shape(term, files, related);
    let pre = "- "@ + term + ": "@ + files_part(files);
    let a = pre + "; related to ["@;
    let c = "]\n"@;
    let jr = join_spec(related, ", "@);
    let line = term_line_spec(term, files, related);
    assert(line =~= a + jr + c);
    assert(line =~= pre + "; related to ["@ + jr + "]\n"@);
    law_join_lists_every_part(related, ", "@);
    assert forall|k: int| 0 <= k < related.len() implies contains_spec(line, #[trigger] related[k]) by {
        lemma_occurs_shift(a, jr, c, related[k], part_offset(related, ", "@, k));
    }
}

proof fn lemma_term_line_files(term: Seq<char>, files: Seq<Seq<char>>, related: Seq<Seq<char>>)
    requires
        files.len() > 0,
    ensures
        term_line_spec(term, files, related) == "- "@ + term + ": mentioned in ["@ + join_spec(
            files,
            ", "@,
        ) + "]"@ + (related_part(related) + "\n"@),
        forall|k: int| 0 <= k < files.len() ==> contains_spec(term_line_spec(term, files, related), #[trigger] files[k]),
{
    reveal_strlit("- ");
    reveal_strlit(": ");
    reveal_strlit(": mentioned in [");
    reveal_strlit("mentioned in [");
    lemma_term_line_shape(term, files, related);
    let a = "- "@ + term + ": mentioned in ["@;
    let jf = join_spec(files, ", "@);
    let c = "]"@ + (related_part(related) + "\n"@);
    let line = term_line_spec(term, files, related);
    assert(": "@ + "mentioned in ["@ =~= ": mentioned in ["@);
    assert(line =~= a + jf + c);
    law_join_lists_every_part(files, ", "@);
    assert forall|k: int| 0 <= k < files.len() implies contains_spec(line, #[trigger] files[k]) by {
        lemma_occurs_shift(a, jf, c, files[k], part_offset(files, ", "@, k));
    }
}

/// A term's line names every file that mentions it and every related
/// entity: when there are related entities the line ends with
/// `; related to [`, all of them joined by `, `, and `]` and a line break;
/// when there are files it begins `- <term>: mentioned in [` with all of
/// them joined by `, ` and a `]`; and each file and each related entity
/// occurs in it.
pub proof fn law_term_line_lists_everything(
    term: Seq<char>,
    files: Seq<Seq<char>>,
    related: Seq<Seq<char>>,
)
    ensures
        related.len() > 0 ==> exists|pre: Seq<char>|
            term_line_spec(term, files, related) == pre + "; related to ["@ + join_spec(related, ", "@)
                + "]\n"@,
        files.len() > 0 ==> exists|post: Seq<char>|
            term_line_spec(term, files, related) == "- "@ + term + ": mentioned in ["@ + join_spec(
                files,
                ", "@,
            ) + "]"@ + post,
        forall|k: int| 0 <= k < related.len() ==> contains_spec(term_line_spec(term, files, related), #[trigger] related[k]),
        forall|k: int| 0 <= k < files.len() ==> contains_spec(term_line_spec(term, files, related), #[trigger] files[k]),
{
    if related.len() > 0 {
        lemma_term_line_related(term, files, related);
        let pre = "- "@ + term + ": "@ + files_part(files);
        assert(term_line_spec(term, files, related) == pre + "; related to ["@ + join_spec(related, ", "@)
            + "]\n"@);
    }
    if files.len() > 0 {
        lemma_term_line_files(term, files, related);
        let post = related_part(related) + "\n"@;
        assert(term_line_spec(term, files, related) == "- "@ + term + ": mentioned in ["@ + join_spec(
            files,
            ", "@,
        ) + "]"@ + post);
    }
}

/// The line a term contributes to the graph context: nothing when the graph
/// knows nothing about it; else `- term: mentioned in [files]; related to
/// [entities]`, each part only when it has something to list.
pub open spec fn term_line_spec(term: Seq<char>, files: Seq<Seq<char>>, related: Seq<Seq<char>>) -> Seq<
    char,
> {
    if files.len() == 0 && related.len() == 0 {
        seq![]
    } else {
        "- "@ + term + ": "@ + (if files.len() > 0 {
            "mentioned in ["@ + join_spec(files, ", "@) + "]"@
        } else {
            seq![]
        }) + (if related.len() > 0 {
            "; related to ["@ + join_spec(related, ", "@) + "]"@
        } else {
            seq![]
        }) + "\n"@
    }
}

/// The lines of all terms, in order.
pub open spec fn context_spec(hits: Seq<TermHits>) -> Seq<char>
    decreases hits.len(),
{
    if hits.len() == 0 {
        seq![]
    } else {
        context_spec(hits.drop_last()) + term_line_spec(
            hits.last().term@,
            views(hits.last().files@),
            views(hits.last().related@),
        )
    }
}

/// The line one term contributes to the graph context.
fn term_line(h: &TermHits) -> (r: String)
    ensures
        r@ == term_line_spec(h.term@, views(h.files@), views(h.related@)),
{
    proof {
        assert(views(h.files@).len() == h.files.len());
        assert(views(h.related@).len() == h.related.len());
    }
    let mut out = String::new();
    if h.files.len() == 0 && h.related.len() == 0 {
        return out;
    }
    out.append("- ");
    out.append(h.term.as_str());
    out.append(": ");
    let mut mid = String::new();
    if h.files.len() > 0 {
        let f = join_strings(&h.files, ", ");
        mid.append("mentioned in [");
        mid.append(f.as_str());
        mid.append("]");
    }
    let mut tail = String::new();
    if h.related.len() > 0 {
        let rel = join_strings(&h.related, ", ");
        tail.append("; related to [");
        tail.append(rel.as_str());
        tail.append("]");
    }
    out.append(mid.as_str());
    out.append(tail.as_str());
    out.append("\n");
    out
}

/// The graph context for a bare question: one line per term the graph knows
/// something about; `None` when it knows nothing about any.
pub fn correlation_context(hits: &Vec<TermHits>) -> (r: Option<String>)
    ensures
        context_spec(hits@).len() == 0 ==> r is None,
        context_spec(hits@).len() > 0 ==> (r matches Some(s) && s@ == context_spec(hits@)),
{
    let mut out = String::new();
    let mut i: usize = 0;
    assert(hits@.take(0) =~= Seq::<TermHits>::empty());
    while i < hits.len()
        invariant
            i <= hits.len(),
            out@ == context_spec(hits@.take(i as int)),
        decreases hits.len() - i,
    {
        assert(hits@.take(i + 1).drop_last() =~= hits@.take(i as int));
        let line = term_line(&hits[i]);
        out.append(line.as_str());
        i += 1;
    }
    assert(hits@.take(i as int) =~= hits@);
    if out.as_str().is_empty() {
        None
    } else {
        Some(out)
    }
}

// ---------------------------------------------------------------------------
// Stats and raw queries
// ---------------------------------------------------------------------------

/// `s` right-aligned in a field of `width` characters (`{:>width}`).
pub open spec fn pad_left_spec(s: Seq<char>, width: int) -> Seq<char> {
    if s.len() >= width {
        s
    } else {
        Seq::new((width - s.len()) as nat, |i: int| ' ') + s
    }
}

/// Right-aligns `s` in a field of `width` characters.
pub fn pad_left(s: &str, width: usize) -> (r: String)
    ensures
        r@ == pad_left_spec(s@, width as int),
{
    let cs = chars_of(s);
    if cs.len() >= width {
        return s.to_owned();
    }
    let mut v: Vec<char> = Vec::new();
    let mut k: usize = 0;
    let fill = width - cs.len();
    while k < fill
        invariant
            k <= fill,
            v@ == Seq::new(k as nat, |i: int| ' '),
        decreases fill - k,
    {
        v.push(' ');
        k += 1;
        assert(v@ =~= Seq::new(k as nat, |i: int| ' '));
    }
    let mut r = string_from_chars(&v);
    r.append(s);
    r
}

/// A count read back from the graph, `0` when the query gave none.
pub open spec fn count_or_zero(v: Option<String>) -> Seq<char> {
    match v {
        Some(s) => s@,
        None => "0"@,
    }
}

fn count_text(v: &Option<String>) -> (r: String)
    ensures
        r@ == count_or_zero(*v),
{
    match v {
        Some(s) => s.clone(),
        None => "0".to_owned(),
    }
}

/// The statements whose single values `stats_lines` reports.
pub fn stats_queries() -> (r: (String, String, String, String))
    ensures
        r.0@ == "MATCH (f:File) RETURN count(f);"@,
        r.1@ == "MATCH (e:Entity) RETURN count(e);"@,
        r.2@ == "MATCH (:File)-[m:Mentions]->(:Entity) RETURN count(m);"@,
        r.3@ == "MATCH (f:File)-[:Mentions]->(e:Entity) RETURN e.name, count(f) AS c ORDER BY c DESC LIMIT 10;"@,
{
    (
        "MATCH (f:File) RETURN count(f);".to_owned(),
        "MATCH (e:Entity) RETURN count(e);".to_owned(),
        "MATCH (:File)-[m:Mentions]->(:Entity) RETURN count(m);".to_owned(),
        "MATCH (f:File)-[:Mentions]->(e:Entity) RETURN e.name, count(f) AS c ORDER BY c DESC LIMIT 10;".to_owned(),
    )
}

/// The lines of `--graph-stats`: a note when there is no graph yet; else the
/// database, the numbers of files, entities and mentions (`0` where a count
/// could not be read), and the top entities as `(name, files)` rows.
pub fn stats_lines(
    graph_exists: bool,
    db: &str,
    files: &Option<String>,
    entities: &Option<String>,
    mentions: &Option<String>,
    top: &Vec<(String, String)>,
) -> (r: Vec<String>)
    ensures
        !graph_exists ==> views(r@) == seq!["No correlation graph yet (index some files first)."@],
        graph_exists ==> r.len() == 5 + top.len() && r@[0]@ == "Correlation graph: "@ + db@
            && r@[1]@ == "  Files:    "@ + count_or_zero(*files) && r@[2]@ == "  Entities: "@
            + count_or_zero(*entities) && r@[3]@ == "  Mentions: "@ + count_or_zero(*mentions)
            && r@[4]@ == "  Top entities (by files mentioning):"@ && forall|i: int|
            0 <= i < top.len() ==> (#[trigger] r@[5 + i])@ == "    "@ + pad_left_spec(
                top@[i].1@,
                3,
            ) + "  "@ + top@[i].0@,
{
    let mut v: Vec<String> = Vec::new();
    if !graph_exists {
        v.push("No correlation graph yet (index some files first).".to_owned());
        assert(views(v@) =~= seq!["No correlation graph yet (index some files first)."@]);
        return v;
    }
    let mut l0 = "Correlation graph: ".to_owned();
    l0.append(db);
    v.push(l0);
    let mut l1 = "  Files:    ".to_owned();
    l1.append(count_text(files).as_str());
    v.push(l1);
    let mut l2 = "  Entities: ".to_owned();
    l2.append(count_text(entities).as_str());
    v.push(l2);
    let mut l3 = "  Mentions: ".to_owned();
    l3.append(count_text(mentions).as_str());
    v.push(l3);
    v.push("  Top entities (by files mentioning):".to_owned());
    let mut i: usize = 0;
    while i < top.len()
        invariant
            i <= top.len(),
            v.len() == 5 + i,
            v@[0]@ == "Correlation graph: "@ + db@,
            v@[1]@ == "  Files:    "@ + count_or_zero(*files),
            v@[2]@ == "  Entities: "@ + count_or_zero(*entities),
            v@[3]@ == "  Mentions: "@ + count_or_zero(*mentions),
            v@[4]@ == "  Top entities (by files mentioning):"@,
            forall|j: int|
                0 <= j < i ==> (#[trigger] v@[5 + j])@ == "    "@ + pad_left_spec(top@[j].1@, 3)
                    + "  "@ + top@[j].0@,
        decreases top.len() - i,
    {
        let mut line = "    ".to_owned();
        let c = pad_left(top[i].1.as_str(), 3);
        line.append(c.as_str());
        line.append("  ");
        line.append(top[i].0.as_str());
        v.push(line);
        i += 1;
    }
    v
}

/// The lines of `--graph-query`: the column names, then each row, cells
/// joined by ` | `.
pub fn table_lines(columns: &Vec<String>, rows: &Vec<Vec<String>>) -> (r: Vec<String>)
    ensures
        r.len() == rows.len() + 1,
        r@[0]@ == join_spec(views(columns@), " | "@),
        forall|i: int|
            0 <= i < rows.len() ==> (#[trigger] r@[i + 1])@ == join_spec(views(rows@[i]@), " | "@),
{
    let mut v: Vec<String> = Vec::new();
    v.push(join_strings(columns, " | "));
    let mut i: usize = 0;
    while i < rows.len()
        invariant
            i <= rows.len(),
            v.len() == i + 1,
            v@[0]@ == join_spec(views(columns@), " | "@),
            forall|j: int|
                0 <= j < i ==> (#[trigger] v@[j + 1])@ == join_spec(views(rows@[j]@), " | "@),
        decreases rows.len() - i,
    {
        v.push(join_strings(&rows[i], " | "));
        i += 1;
    }
    v
}

} // verus!
