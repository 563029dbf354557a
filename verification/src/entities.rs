//! Heuristic entity extraction: Title-Case phrases and ALL-CAPS acronyms,
//! counted and ranked by frequency, then by length.

use vstd::prelude::*;
use vstd::utf8::{encode_utf8, is_ascii_chars, is_ascii_chars_encode_utf8};
use crate::text::{
    chars_of, char_is_alphanumeric, char_is_lowercase, char_is_uppercase, is_alphanumeric_char,
    is_lowercase_char, is_uppercase_char, lines, lines_spec, same_text, string_from_chars, utf8_len, views,
};

verus! {

// ---------------------------------------------------------------------------
// Specification
// ---------------------------------------------------------------------------

/// Characters that separate words: anything neither alphanumeric nor `&`.
pub open spec fn is_word_separator(c: char) -> bool {
    !(is_alphanumeric_char(c) || c == '&')
}

/// The pieces of `s` between separators, as `str::split` with that predicate
/// yields them (`n` separators give `n + 1` pieces, some of them empty).
/// `cur` is the piece being read.
pub open spec fn pieces_acc(s: Seq<char>, cur: Seq<char>) -> Seq<Seq<char>>
    decreases s.len(),
{
    if s.len() == 0 {
        seq![cur]
    } else if is_word_separator(s[0]) {
        seq![cur] + pieces_acc(s.drop_first(), seq![])
    } else {
        pieces_acc(s.drop_first(), cur.push(s[0]))
    }
}

/// The words of one line.
pub open spec fn words_spec(line: Seq<char>) -> Seq<Seq<char>> {
    pieces_acc(line, seq![])
}

/// An uppercase first character followed, somewhere, by a lowercase one.
pub open spec fn title_case_spec(w: Seq<char>) -> bool {
    &&& w.len() > 0
    &&& is_uppercase_char(w[0])
    &&& exists|i: int| 1 <= i < w.len() && is_lowercase_char(#[trigger] w[i])
}

/// `A`..`Z`.
pub open spec fn is_ascii_upper(c: char) -> bool {
    'A' <= c && c <= 'Z'
}

/// `0`..`9`.
pub open spec fn is_ascii_digit(c: char) -> bool {
    '0' <= c && c <= '9'
}

/// 2 to 10 bytes of ASCII uppercase letters and digits, at least one letter.
pub open spec fn acronym_spec(w: Seq<char>) -> bool {
    &&& 2 <= encode_utf8(w).len() <= 10
    &&& forall|i: int| 0 <= i < w.len() ==> is_ascii_upper(#[trigger] w[i]) || is_ascii_digit(w[i])
    &&& exists|i: int| 0 <= i < w.len() && is_ascii_upper(#[trigger] w[i])
}

/// The words joined by single spaces (`[&str]::join(" ")`).
pub open spec fn join_words(ws: Seq<Seq<char>>) -> Seq<char>
    decreases ws.len(),
{
    if ws.len() == 0 {
        seq![]
    } else if ws.len() == 1 {
        ws[0]
    } else {
        join_words(ws.drop_last()) + seq![' '] + ws.last()
    }
}

/// What ending a phrase contributes: the joined phrase, when it has at least
/// three bytes.
pub open spec fn flush_spec(phrase: Seq<Seq<char>>) -> Seq<Seq<char>> {
    if phrase.len() == 0 {
        seq![]
    } else if encode_utf8(join_words(phrase)).len() >= 3 {
        seq![join_words(phrase)]
    } else {
        seq![]
    }
}

/// The candidate mentions in `words`, in order: runs of Title-Case words form
/// one phrase, ended by an empty word (a separator run), a word that is not
/// Title-Case, or the end; a word that ends a phrase and is an acronym counts
/// on its own. `phrase` is the run being read.
pub open spec fn mentions_acc(words: Seq<Seq<char>>, phrase: Seq<Seq<char>>) -> Seq<Seq<char>>
    decreases words.len(),
{
    if words.len() == 0 {
        flush_spec(phrase)
    } else {
        let w = words[0];
        let rest = words.drop_first();
        if w.len() == 0 {
            flush_spec(phrase) + mentions_acc(rest, seq![])
        } else if title_case_spec(w) {
            mentions_acc(rest, phrase.push(w))
        } else {
            flush_spec(phrase) + (if acronym_spec(w) {
                seq![w]
            } else {
                seq![]
            }) + mentions_acc(rest, seq![])
        }
    }
}

/// The candidate mentions of one line.
pub open spec fn line_mentions(line: Seq<char>) -> Seq<Seq<char>> {
    mentions_acc(words_spec(line), seq![])
}

/// The candidate mentions of several lines, in order.
pub open spec fn lines_mentions(ls: Seq<Seq<char>>) -> Seq<Seq<char>>
    decreases ls.len(),
{
    if ls.len() == 0 {
        seq![]
    } else {
        lines_mentions(ls.drop_last()) + line_mentions(ls.last())
    }
}

/// The candidate mentions of a text, line by line.
pub open spec fn mentions_spec(text: Seq<char>) -> Seq<Seq<char>> {
    lines_mentions(lines_spec(text))
}

/// How often `p` occurs in `ms`.
pub open spec fn occurrences(ms: Seq<Seq<char>>, p: Seq<char>) -> nat
    decreases ms.len(),
{
    if ms.len() == 0 {
        0
    } else {
        occurrences(ms.drop_last(), p) + (if ms.last() == p {
            1nat
        } else {
            0nat
        })
    }
}

/// Trivial common words that never count as entities.
pub open spec fn stopword_spec(w: Seq<char>) -> bool {
    ||| w == "The"@
    ||| w == "This"@
    ||| w == "That"@
    ||| w == "These"@
    ||| w == "Those"@
    ||| w == "And"@
    ||| w == "But"@
    ||| w == "For"@
    ||| w == "With"@
    ||| w == "From"@
    ||| w == "When"@
    ||| w == "Where"@
    ||| w == "What"@
    ||| w == "Which"@
    ||| w == "While"@
    ||| w == "Their"@
    ||| w == "There"@
    ||| w == "Then"@
    ||| w == "They"@
}

/// How many times `text` mentions the entity `p` (zero for stopwords).
pub open spec fn entity_count(text: Seq<char>, p: Seq<char>) -> nat {
    if stopword_spec(p) {
        0
    } else {
        occurrences(mentions_spec(text), p)
    }
}

/// `a` ranks no lower than `b`: more mentions, or as many and at least as
/// many bytes.
pub open spec fn ranks_at_least(a: Seq<char>, ca: int, b: Seq<char>, cb: int) -> bool {
    ca > cb || (ca == cb && encode_utf8(a).len() >= encode_utf8(b).len())
}

/// The ranked entity list `r` is what `extract_entities(text, max)` owes:
/// at most `max` distinct entities with their exact mention counts, ranked
/// by count and then byte length, and no entity left out that ranks above
/// one kept (ties may be kept in either order).
pub open spec fn ranked_entities(text: Seq<char>, max: int, r: Seq<(String, i64)>) -> bool {
    &&& r.len() <= max
    &&& forall|i: int|
        0 <= i < r.len() ==> #[trigger] r[i].1 == entity_count(text, r[i].0@) as int && r[i].1 > 0
    &&& forall|i: int, j: int| 0 <= i < j < r.len() ==> r[i].0@ != r[j].0@
    &&& forall|i: int, j: int|
        0 <= i < j < r.len() ==> ranks_at_least(r[i].0@, r[i].1 as int, r[j].0@, r[j].1 as int)
    &&& forall|p: Seq<char>|
        entity_count(text, p) > 0 && (forall|i: int| 0 <= i < r.len() ==> r[i].0@ != p)
            ==> r.len() == max && forall|i: int|
            0 <= i < r.len() ==> ranks_at_least(
                r[i].0@,
                r[i].1 as int,
                p,
                entity_count(text, p) as int,
            )
}

/// The entity names of a ranking.
pub open spec fn names_of(r: Seq<(String, i64)>) -> Seq<Seq<char>> {
    r.map_values(|e: (String, i64)| e.0@)
}

proof fn lemma_names_set_len(r: Seq<(String, i64)>)
    requires
        forall|i: int, j: int| 0 <= i < j < r.len() ==> r[i].0@ != r[j].0@,
    ensures
        names_of(r).to_set().len() == r.len(),
        names_of(r).to_set().finite(),
{
    broadcast use vstd::seq_lib::seq_to_set_is_finite;
    let n = names_of(r);
    assert forall|i: int, j: int| 0 <= i < n.len() && 0 <= j < n.len() && i != j implies n[i]
        != n[j] by {
        if i < j {
            assert(r[i].0@ != r[j].0@);
        } else {
            assert(r[j].0@ != r[i].0@);
        }
    }
    n.unique_seq_to_set();
}

proof fn lemma_kept_is_ranked(
    text: Seq<char>,
    k: int,
    r: Seq<(String, i64)>,
    m: int,
    all: Seq<(String, i64)>,
    i: int,
)
    requires
        ranked_entities(text, k, r),
        ranked_entities(text, m, all),
        all.len() < m,
        0 <= i < r.len(),
    ensures
        exists|j: int| #![trigger all[j]] 0 <= j < all.len() && all[j].0@ == r[i].0@ && all[j].1 == r[i].1,
{
    let p = r[i].0@;
    assert(r[i].1 == entity_count(text, p) as int && r[i].1 > 0);
    if forall|j: int| 0 <= j < all.len() ==> all[j].0@ != p {
        assert(all.len() == m);
    }
    let j = choose|j: int| 0 <= j < all.len() && all[j].0@ == p;
    assert(all[j].1 == entity_count(text, all[j].0@) as int);
    assert(all[j].0@ == r[i].0@ && all[j].1 == r[i].1);
}

proof fn lemma_top_k_len(text: Seq<char>, k: int, r: Seq<(String, i64)>, m: int, all: Seq<(String, i64)>)
    requires
        ranked_entities(text, k, r),
        ranked_entities(text, m, all),
        all.len() < m,
    ensures
        r.len() == if k < all.len() {
            k
        } else {
            all.len() as int
        },
{
    let rn = names_of(r);
    let an = names_of(all);
    lemma_names_set_len(r);
    lemma_names_set_len(all);
    assert(rn.to_set().subset_of(an.to_set())) by {
        assert forall|p: Seq<char>| rn.to_set().contains(p) implies an.to_set().contains(p) by {
            let i = choose|i: int| 0 <= i < rn.len() && rn[i] == p;
            assert(rn[i] == r[i].0@);
            lemma_kept_is_ranked(text, k, r, m, all, i);
            let j = choose|j: int| #![trigger all[j]] 0 <= j < all.len() && all[j].0@ == r[i].0@
                && all[j].1 == r[i].1;
            assert(an[j] == all[j].0@);
        }
    }
    vstd::set_lib::lemma_len_subset(rn.to_set(), an.to_set());
    if r.len() < k {
        assert(an.to_set().subset_of(rn.to_set())) by {
            assert forall|p: Seq<char>| an.to_set().contains(p) implies rn.to_set().contains(p) by {
                let j = choose|j: int| 0 <= j < an.len() && an[j] == p;
                assert(an[j] == all[j].0@);
                assert(all[j].1 == entity_count(text, all[j].0@) as int && all[j].1 > 0);
                if forall|i: int| 0 <= i < r.len() ==> r[i].0@ != p {
                    assert(r.len() == k);
                }
                let i = choose|i: int| 0 <= i < r.len() && r[i].0@ == p;
                assert(rn[i] == r[i].0@);
            }
        }
        vstd::set_lib::lemma_len_subset(an.to_set(), rn.to_set());
    }
}

/// Entity `e` occurs in ranking `all` with the same name and count.
pub open spec fn in_ranking(all: Seq<(String, i64)>, e: (String, i64)) -> bool {
    exists|j: int| #![trigger all[j]] 0 <= j < all.len() && all[j].0@ == e.0@ && all[j].1 == e.1
}

/// Every entity of `r` occurs in `all` with the same count.
pub open spec fn kept_in(r: Seq<(String, i64)>, all: Seq<(String, i64)>) -> bool {
    forall|i: int| 0 <= i < r.len() ==> in_ranking(all, #[trigger] r[i])
}

/// Asking for the top `k` entities gives a top `k` of the full ranking.
/// With `all` a complete ranking of `text` (it stops short of its cap `m`),
/// every entity kept for `k` is in `all` with the same count, exactly
/// `min(k, all.len())` are kept, and every entity of `all` that was left
/// out ranks no higher than each one kept.
pub proof fn law_top_k_of_full_ranking(
    text: Seq<char>,
    k: int,
    r: Seq<(String, i64)>,
    m: int,
    all: Seq<(String, i64)>,
)
    requires
        ranked_entities(text, k, r),
        ranked_entities(text, m, all),
        all.len() < m,
    ensures
        kept_in(r, all),
        r.len() == if k < all.len() {
            k
        } else {
            all.len() as int
        },
        forall|i: int, j: int|
            0 <= i < r.len() && 0 <= j < all.len() && (forall|q: int|
                0 <= q < r.len() ==> r[q].0@ != all[j].0@) ==> ranks_at_least(
                r[i].0@,
                r[i].1 as int,
                all[j].0@,
                all[j].1 as int,
            ),
{
    assert(kept_in(r, all)) by {
        assert forall|i: int| 0 <= i < r.len() implies in_ranking(all, #[trigger] r[i]) by {
            lemma_kept_is_ranked(text, k, r, m, all, i);
        }
    }
    assert forall|i: int, j: int|
        0 <= i < r.len() && 0 <= j < all.len() && (forall|q: int|
            0 <= q < r.len() ==> r[q].0@ != all[j].0@) implies ranks_at_least(
        r[i].0@,
        r[i].1 as int,
        all[j].0@,
        all[j].1 as int,
    ) by {
        assert(all[j].1 == entity_count(text, all[j].0@) as int && all[j].1 > 0);
    }
    lemma_top_k_len(text, k, r, m, all);
}

/// Stopwords are never entities: whatever the text and the cap, no ranked
/// entity is one of the common words The, This, That, These, Those, And,
/// But, For, With, From, When, Where, What, Which, While, Their, There,
/// Then, They.
pub proof fn law_stopwords_never_ranked(text: Seq<char>, max: int, r: Seq<(String, i64)>, i: int)
    requires
        ranked_entities(text, max, r),
        0 <= i < r.len(),
    ensures
        r[i].0@ != "The"@,
        r[i].0@ != "This"@,
        r[i].0@ != "That"@,
        r[i].0@ != "These"@,
        r[i].0@ != "Those"@,
        r[i].0@ != "And"@,
        r[i].0@ != "But"@,
        r[i].0@ != "For"@,
        r[i].0@ != "With"@,
        r[i].0@ != "From"@,
        r[i].0@ != "When"@,
        r[i].0@ != "Where"@,
        r[i].0@ != "What"@,
        r[i].0@ != "Which"@,
        r[i].0@ != "While"@,
        r[i].0@ != "Their"@,
        r[i].0@ != "There"@,
        r[i].0@ != "Then"@,
        r[i].0@ != "They"@,
{
    assert(r[i].1 == entity_count(text, r[i].0@) as int && r[i].1 > 0);
}

/// Each of the common words is a stopword, and nothing else is.
pub proof fn law_stopword_list(w: Seq<char>)
    ensures
        stopword_spec(w) <==> (w == "The"@ || w == "This"@ || w == "That"@ || w == "These"@ || w == "Those"@ || w == "And"@ || w == "But"@ || w == "For"@ || w == "With"@ || w == "From"@ || w == "When"@ || w == "Where"@ || w == "What"@ || w == "Which"@ || w == "While"@ || w == "Their"@ || w == "There"@ || w == "Then"@ || w == "They"@),
{
}

// ---------------------------------------------------------------------------
// Size bounds (so that counts fit an i64)
// ---------------------------------------------------------------------------

proof fn lemma_pieces_len(s: Seq<char>, cur: Seq<char>)
    ensures
        pieces_acc(s, cur).len() <= s.len() + 1,
    decreases s.len(),
{
    if s.len() > 0 {
        if is_word_separator(s[0]) {
            lemma_pieces_len(s.drop_first(), seq![]);
        } else {
            lemma_pieces_len(s.drop_first(), cur.push(s[0]));
        }
    }
}

proof fn lemma_mentions_len(words: Seq<Seq<char>>, phrase: Seq<Seq<char>>)
    ensures
        mentions_acc(words, phrase).len() <= words.len() + phrase.len(),
    decreases words.len(),
{
    if words.len() > 0 {
        let w = words[0];
        if w.len() == 0 {
            lemma_mentions_len(words.drop_first(), seq![]);
        } else if title_case_spec(w) {
            lemma_mentions_len(words.drop_first(), phrase.push(w));
        } else {
            lemma_mentions_len(words.drop_first(), seq![]);
        }
    }
}

/// The sum over lines of (length + 1).
pub open spec fn lines_weight(ls: Seq<Seq<char>>) -> int
    decreases ls.len(),
{
    if ls.len() == 0 {
        0
    } else {
        lines_weight(ls.drop_last()) + ls.last().len() + 1
    }
}

proof fn lemma_lines_weight_concat(a: Seq<Seq<char>>, b: Seq<Seq<char>>)
    ensures
        lines_weight(a + b) == lines_weight(a) + lines_weight(b),
    decreases b.len(),
{
    if b.len() > 0 {
        assert((a + b).drop_last() =~= a + b.drop_last());
        lemma_lines_weight_concat(a, b.drop_last());
    } else {
        assert(a + b =~= a);
    }
}

proof fn lemma_lines_acc_weight(s: Seq<char>, cur: Seq<char>)
    ensures
        lines_weight(crate::text::lines_acc(s, cur)) <= s.len() + cur.len() + 1,
    decreases s.len(),
{
    assert(lines_weight(Seq::<Seq<char>>::empty()) == 0);
    if s.len() == 0 {
        if cur.len() > 0 {
            assert(seq![cur].drop_last() =~= Seq::<Seq<char>>::empty());
        }
    } else if s[0] == '\n' {
        let first = seq![crate::text::strip_cr(cur)];
        assert(crate::text::strip_cr(cur).len() <= cur.len());
        lemma_lines_acc_weight(s.drop_first(), seq![]);
        lemma_lines_weight_concat(first, crate::text::lines_acc(s.drop_first(), seq![]));
        assert(first.drop_last() =~= Seq::<Seq<char>>::empty());
    } else {
        lemma_lines_acc_weight(s.drop_first(), cur.push(s[0]));
    }
}

proof fn lemma_lines_mentions_len(ls: Seq<Seq<char>>)
    ensures
        lines_mentions(ls).len() <= lines_weight(ls),
    decreases ls.len(),
{
    if ls.len() > 0 {
        lemma_lines_mentions_len(ls.drop_last());
        lemma_pieces_len(ls.last(), seq![]);
        lemma_mentions_len(words_spec(ls.last()), seq![]);
    }
}

proof fn lemma_mentions_bound(text: Seq<char>)
    ensures
        mentions_spec(text).len() <= text.len() + 1,
{
    lemma_lines_acc_weight(text, seq![]);
    lemma_lines_mentions_len(lines_spec(text));
}

proof fn lemma_occurs_in(ms: Seq<Seq<char>>, p: Seq<char>)
    requires
        occurrences(ms, p) > 0,
    ensures
        ms.contains(p),
    decreases ms.len(),
{
    if ms.last() == p {
        assert(ms[ms.len() - 1] == p);
    } else {
        lemma_occurs_in(ms.drop_last(), p);
        let i = choose|i: int| 0 <= i < ms.drop_last().len() && ms.drop_last()[i] == p;
        assert(ms[i] == p);
    }
}

/// A ranking holds no more entities than the text has mentions, so at most
/// one more than the text has characters.
proof fn lemma_ranking_len(text: Seq<char>, m: int, r: Seq<(String, i64)>)
    requires
        ranked_entities(text, m, r),
    ensures
        r.len() <= text.len() + 1,
{
    broadcast use vstd::seq_lib::seq_to_set_is_finite;
    let ms = mentions_spec(text);
    let rn = names_of(r);
    lemma_names_set_len(r);
    assert(rn.to_set().subset_of(ms.to_set())) by {
        assert forall|p: Seq<char>| rn.to_set().contains(p) implies ms.to_set().contains(p) by {
            let i = choose|i: int| 0 <= i < rn.len() && rn[i] == p;
            assert(rn[i] == r[i].0@);
            assert(r[i].1 == entity_count(text, r[i].0@) as int && r[i].1 > 0);
            lemma_occurs_in(ms, p);
        }
    }
    vstd::set_lib::lemma_len_subset(rn.to_set(), ms.to_set());
    ms.lemma_cardinality_of_set();
    lemma_mentions_bound(text);
}

/// The full ranking, `extract_entities(text, usize::MAX)`, and the top `k`,
/// `extract_entities(text, k)`: the top `k` has `min(k, all.len())`
/// entities, each in the full ranking with the same count, and every entity
/// of the full ranking left out ranks no higher than each one kept. (A text
/// held in memory has at most `isize::MAX` characters.)
pub proof fn law_top_k_of_extract_all(
    text: Seq<char>,
    k: usize,
    r: Seq<(String, i64)>,
    all: Seq<(String, i64)>,
)
    requires
        text.len() <= isize::MAX,
        ranked_entities(text, k as int, r),
        ranked_entities(text, usize::MAX as int, all),
    ensures
        kept_in(r, all),
        r.len() == if (k as int) < all.len() {
            k as int
        } else {
            all.len() as int
        },
        forall|i: int, j: int|
            0 <= i < r.len() && 0 <= j < all.len() && (forall|q: int|
                0 <= q < r.len() ==> r[q].0@ != all[j].0@) ==> ranks_at_least(
                r[i].0@,
                r[i].1 as int,
                all[j].0@,
                all[j].1 as int,
            ),
{
    lemma_ranking_len(text, usize::MAX as int, all);
    assert(all.len() < usize::MAX);
    law_top_k_of_full_ranking(text, k as int, r, usize::MAX as int, all);
}

// ---------------------------------------------------------------------------
// Executable extraction
// ---------------------------------------------------------------------------

/// The views of a sequence of character vectors.
pub open spec fn char_views(v: Seq<Vec<char>>) -> Seq<Seq<char>> {
    v.map_values(|w: Vec<char>| w@)
}

fn words_of(line: &Vec<char>) -> (r: Vec<Vec<char>>)
    ensures
        char_views(r@) == words_spec(line@),
{
    let mut out: Vec<Vec<char>> = Vec::new();
    let mut cur: Vec<char> = Vec::new();
    let mut i: usize = 0;
    assert(line@.skip(0) =~= line@);
    assert(char_views(out@) =~= Seq::<Seq<char>>::empty());
    while i < line.len()
        invariant
            i <= line.len(),
            char_views(out@) + pieces_acc(line@.skip(i as int), cur@) == words_spec(line@),
        decreases line.len() - i,
    {
        assert(line@.skip(i as int).drop_first() =~= line@.skip(i + 1));
        let c = line[i];
        if !(char_is_alphanumeric(c) || c == '&') {
            let ghost before = char_views(out@);
            let ghost piece = cur@;
            out.push(cur);
            cur = Vec::new();
            assert(char_views(out@) =~= before.push(piece));
            assert(char_views(out@) + pieces_acc(line@.skip(i + 1), cur@) =~= before + (seq![piece]
                + pieces_acc(line@.skip(i + 1), seq![])));
        } else {
            cur.push(c);
        }
        i += 1;
    }
    assert(line@.skip(i as int) =~= Seq::<char>::empty());
    let ghost before = char_views(out@);
    let ghost piece = cur@;
    out.push(cur);
    assert(char_views(out@) =~= before.push(piece));
    assert(char_views(out@) =~= before + seq![piece]);
    out
}

/// Title-Case test over characters.
fn title_case_chars(w: &Vec<char>) -> (r: bool)
    ensures
        r == title_case_spec(w@),
{
    if w.len() == 0 || !char_is_uppercase(w[0]) {
        return false;
    }
    let mut i: usize = 1;
    while i < w.len()
        invariant
            1 <= i <= w.len(),
            is_uppercase_char(w@[0]),
            forall|j: int| 1 <= j < i ==> !is_lowercase_char(#[trigger] w@[j]),
        decreases w.len() - i,
    {
        if char_is_lowercase(w[i]) {
            assert(1 <= i && is_lowercase_char(w@[i as int]));
            return true;
        }
        i += 1;
    }
    false
}

/// Acronym test over characters.
fn acronym_chars(w: &Vec<char>) -> (r: bool)
    ensures
        r == acronym_spec(w@),
{
    let mut any_upper = false;
    let mut i: usize = 0;
    while i < w.len()
        invariant
            i <= w.len(),
            forall|j: int| 0 <= j < i ==> is_ascii_upper(#[trigger] w@[j]) || is_ascii_digit(w@[j]),
            any_upper == exists|j: int| 0 <= j < i && is_ascii_upper(#[trigger] w@[j]),
        decreases w.len() - i,
    {
        let c = w[i];
        if !(('A' <= c && c <= 'Z') || ('0' <= c && c <= '9')) {
            return false;
        }
        if 'A' <= c && c <= 'Z' {
            any_upper = true;
        }
        i += 1;
    }
    proof {
        assert(is_ascii_chars(w@));
        is_ascii_chars_encode_utf8(w@);
    }
    any_upper && 2 <= w.len() && w.len() <= 10
}

proof fn lemma_join_step(ws: Seq<Seq<char>>, k: int)
    requires
        1 <= k < ws.len(),
    ensures
        join_words(ws.take(k + 1)) == join_words(ws.take(k)) + seq![' '] + ws[k],
{
    assert(ws.take(k + 1).drop_last() =~= ws.take(k));
}

/// Appends to `out` what ending `phrase` contributes.
fn flush(phrase: &Vec<Vec<char>>, out: &mut Vec<String>)
    ensures
        views(final(out)@) == views(old(out)@) + flush_spec(char_views(phrase@)),
{
    let ghost ws = char_views(phrase@);
    if phrase.len() == 0 {
        assert(views(out@) =~= views(out@) + Seq::<Seq<char>>::empty());
        return;
    }
    let mut joined: Vec<char> = Vec::new();
    let mut k: usize = 0;
    while k < phrase.len()
        invariant
            k <= phrase.len(),
            ws == char_views(phrase@),
            k > 0 ==> joined@ == join_words(ws.take(k as int)),
            k == 0 ==> joined@.len() == 0,
        decreases phrase.len() - k,
    {
        if k > 0 {
            joined.push(' ');
        }
        let w = &phrase[k];
        let mut j: usize = 0;
        let ghost before = joined@;
        while j < w.len()
            invariant
                j <= w.len(),
                joined@ == before + w@.take(j as int),
            decreases w.len() - j,
        {
            joined.push(w[j]);
            j += 1;
            assert(joined@ =~= before + w@.take(j as int));
        }
        assert(w@.take(j as int) =~= w@);
        proof {
            if k > 0 {
                lemma_join_step(ws, k as int);
            } else {
                assert(ws.take(1) =~= seq![ws[0]]);
                assert(joined@ =~= ws[0]);
            }
        }
        k += 1;
    }
    assert(ws.take(k as int) =~= ws);
    let nbytes = utf8_len(&joined);
    let s = string_from_chars(&joined);
    if nbytes >= 3 {
        let ghost before = views(out@);
        out.push(s);
        assert(views(out@) =~= before + seq![s@]);
    } else {
        assert(views(out@) =~= views(out@) + Seq::<Seq<char>>::empty());
    }
}

/// Appends the candidate mentions of `line` to `out`.
fn line_mentions_into(line: &Vec<char>, out: &mut Vec<String>)
    ensures
        views(final(out)@) == views(old(out)@) + line_mentions(line@),
{
    let words = words_of(line);
    let ghost ws = char_views(words@);
    let ghost start = views(out@);
    let mut phrase: Vec<Vec<char>> = Vec::new();
    let mut i: usize = 0;
    assert(ws.skip(0) =~= ws);
    assert(char_views(phrase@) =~= Seq::<Seq<char>>::empty());
    assert(start + line_mentions(line@) =~= start + mentions_acc(ws, seq![]));
    while i < words.len()
        invariant
            i <= words.len(),
            ws == char_views(words@),
            views(out@) + mentions_acc(ws.skip(i as int), char_views(phrase@)) == start
                + line_mentions(line@),
        decreases words.len() - i,
    {
        let w = &words[i];
        let ghost rest = ws.skip(i + 1);
        assert(ws.skip(i as int).drop_first() =~= rest);
        assert(ws.skip(i as int)[0] == w@);
        if w.len() == 0 {
            let ghost before = views(out@);
            let ghost ph = char_views(phrase@);
            flush(&phrase, out);
            phrase = Vec::new();
            assert(char_views(phrase@) =~= Seq::<Seq<char>>::empty());
            assert(views(out@) + mentions_acc(rest, char_views(phrase@)) =~= before + (
            flush_spec(ph) + mentions_acc(rest, seq![])));
        } else if title_case_chars(w) {
            let ghost ph = char_views(phrase@);
            phrase.push(w.clone());
            assert(char_views(phrase@) =~= ph.push(w@));
        } else {
            let ghost before = views(out@);
            let ghost ph = char_views(phrase@);
            flush(&phrase, out);
            phrase = Vec::new();
            assert(char_views(phrase@) =~= Seq::<Seq<char>>::empty());
            let ghost mid = views(out@);
            if acronym_chars(w) {
                out.push(string_from_chars(w));
                assert(views(out@) =~= mid + seq![w@]);
            } else {
                assert(views(out@) =~= mid + Seq::<Seq<char>>::empty());
            }
            assert(views(out@) + mentions_acc(rest, char_views(phrase@)) =~= before + (
            flush_spec(ph) + (if acronym_spec(w@) {
                seq![w@]
            } else {
                seq![]
            }) + mentions_acc(rest, seq![])));
        }
        i += 1;
    }
    assert(ws.skip(i as int) =~= Seq::<Seq<char>>::empty());
    flush(&phrase, out);
}

/// All candidate mentions of `text`, in order.
fn mentions_of(text: &str) -> (r: Vec<String>)
    ensures
        views(r@) == mentions_spec(text@),
{
    let ls = lines(text);
    let ghost lv = views(ls@);
    let mut out: Vec<String> = Vec::new();
    let mut i: usize = 0;
    assert(lv.take(0) =~= Seq::<Seq<char>>::empty());
    assert(views(out@) =~= Seq::<Seq<char>>::empty());
    while i < ls.len()
        invariant
            i <= ls.len(),
            lv == views(ls@),
            views(out@) == lines_mentions(lv.take(i as int)),
        decreases ls.len() - i,
    {
        let cs = chars_of(ls[i].as_str());
        line_mentions_into(&cs, &mut out);
        assert(lv.take(i + 1).drop_last() =~= lv.take(i as int));
        i += 1;
    }
    assert(lv.take(i as int) =~= lv);
    out
}

proof fn lemma_occurrences_step(ms: Seq<Seq<char>>, i: int, p: Seq<char>)
    requires
        0 <= i < ms.len(),
    ensures
        occurrences(ms.take(i + 1), p) == occurrences(ms.take(i), p) + (if ms[i] == p {
            1nat
        } else {
            0nat
        }),
{
    assert(ms.take(i + 1).drop_last() =~= ms.take(i));
}

proof fn lemma_occurrences_none(ms: Seq<Seq<char>>, p: Seq<char>, keys: Seq<String>)
    requires
        forall|q: Seq<char>|
            occurrences(ms, q) > 0 && !stopword_spec(q) ==> exists|k: int|
                0 <= k < keys.len() && (#[trigger] keys[k])@ == q,
        !stopword_spec(p),
        forall|j: int| 0 <= j < keys.len() ==> keys[j]@ != p,
    ensures
        occurrences(ms, p) == 0,
{
    if occurrences(ms, p) > 0 {
        let k = choose|k: int| 0 <= k < keys.len() && (#[trigger] keys[k])@ == p;
    }
}

/// The number of `false` entries.
spec fn count_false(s: Seq<bool>) -> nat
    decreases s.len(),
{
    if s.len() == 0 {
        0
    } else {
        count_false(s.drop_last()) + (if s.last() {
            0nat
        } else {
            1nat
        })
    }
}

proof fn lemma_count_false_update(s: Seq<bool>, i: int)
    requires
        0 <= i < s.len(),
        !s[i],
    ensures
        count_false(s.update(i, true)) + 1 == count_false(s),
    decreases s.len(),
{
    if i < s.len() - 1 {
        assert(s.update(i, true).drop_last() =~= s.drop_last().update(i, true));
        lemma_count_false_update(s.drop_last(), i);
    } else {
        assert(s.update(i, true).drop_last() =~= s.drop_last());
    }
}

proof fn lemma_occurrences_le(ms: Seq<Seq<char>>, p: Seq<char>)
    ensures
        occurrences(ms, p) <= ms.len(),
    decreases ms.len(),
{
    if ms.len() > 0 {
        lemma_occurrences_le(ms.drop_last(), p);
    }
}

/// Distinct mentions other than stopwords, and how often each occurs, in
/// order of first mention.
fn count_mentions(ms: &Vec<String>) -> (r: (Vec<String>, Vec<usize>))
    ensures
        r.0.len() == r.1.len(),
        forall|k: int|
            0 <= k < r.0.len() ==> #[trigger] r.1@[k] == occurrences(views(ms@), r.0@[k]@)
                && r.1@[k] > 0,
        forall|k: int| 0 <= k < r.0.len() ==> !stopword_spec(#[trigger] r.0@[k]@),
        forall|k: int, l: int| 0 <= k < l < r.0.len() ==> r.0@[k]@ != r.0@[l]@,
        forall|p: Seq<char>|
            occurrences(views(ms@), p) > 0 && !stopword_spec(p) ==> exists|k: int|
                0 <= k < r.0.len() && (#[trigger] r.0@[k])@ == p,
{
    let ghost mv = views(ms@);
    let mut keys: Vec<String> = Vec::new();
    let mut cnts: Vec<usize> = Vec::new();
    let mut i: usize = 0;
    assert(mv.take(0) =~= Seq::<Seq<char>>::empty());
    while i < ms.len()
        invariant
            i <= ms.len(),
            mv == views(ms@),
            keys.len() == cnts.len(),
            forall|k: int|
                0 <= k < keys.len() ==> #[trigger] cnts@[k] == occurrences(
                    mv.take(i as int),
                    keys@[k]@,
                ) && cnts@[k] > 0,
            forall|k: int| 0 <= k < keys.len() ==> #[trigger] cnts@[k] <= i,
            forall|k: int| 0 <= k < keys.len() ==> !stopword_spec(#[trigger] keys@[k]@),
            forall|k: int, l: int| 0 <= k < l < keys.len() ==> keys@[k]@ != keys@[l]@,
            forall|p: Seq<char>|
                occurrences(mv.take(i as int), p) > 0 && !stopword_spec(p) ==> exists|k: int|
                    0 <= k < keys.len() && (#[trigger] keys@[k])@ == p,
        decreases ms.len() - i,
    {
        let m = &ms[i];
        assert(mv[i as int] == m@);
        if is_stopword(m.as_str()) {
            proof {
                assert forall|p: Seq<char>| !stopword_spec(p) implies #[trigger] occurrences(
                    mv.take(i + 1),
                    p,
                ) == occurrences(mv.take(i as int), p) by {
                    lemma_occurrences_step(mv, i as int, p);
                }
                assert forall|k: int| 0 <= k < keys.len() implies #[trigger] cnts@[k]
                    == occurrences(mv.take(i + 1), keys@[k]@) by {
                    lemma_occurrences_step(mv, i as int, keys@[k]@);
                }
            }
            i += 1;
            continue;
        }
        let mut k: usize = 0;
        let mut found = false;
        while k < keys.len()
            invariant_except_break
                !found,
            invariant
                k <= keys.len(),
                forall|j: int| 0 <= j < k ==> keys@[j]@ != m@,
            ensures
                found ==> k < keys.len() && keys@[k as int]@ == m@,
                !found ==> forall|j: int| 0 <= j < keys.len() ==> keys@[j]@ != m@,
            decreases keys.len() - k,
        {
            if keys[k] == *m {
                found = true;
                break;
            }
            k += 1;
        }
        proof {
            assert forall|p: Seq<char>| #[trigger]
                occurrences(mv.take(i + 1), p) == occurrences(mv.take(i as int), p) + (if m@
                    == p {
                    1nat
                } else {
                    0nat
                }) by {
                lemma_occurrences_step(mv, i as int, p);
            }
        }
        let ghost old_keys = keys@;
        let ghost old_cnts = cnts@;
        assert(forall|p: Seq<char>|
            occurrences(mv.take(i as int), p) > 0 && !stopword_spec(p) ==> exists|k2: int|
                0 <= k2 < old_keys.len() && (#[trigger] old_keys[k2])@ == p);
        if found {
            let c = cnts[k];
            assert(c <= i);
            cnts.set(k, c + 1);
        } else {
            keys.push(m.clone());
            cnts.push(1);
            proof {
                let kk = keys.len() - 1;
                assert(keys@[kk as int]@ == m@);
            }
        }
        assert(forall|j: int| 0 <= j < old_keys.len() ==> keys@[j] == old_keys[j]);
        proof {
            assert forall|j: int| 0 <= j < keys.len() implies #[trigger] cnts@[j] == occurrences(
                mv.take(i + 1),
                keys@[j]@,
            ) && cnts@[j] > 0 && cnts@[j] <= i + 1 by {
                assert(occurrences(mv.take(i + 1), keys@[j]@) == occurrences(
                    mv.take(i as int),
                    keys@[j]@,
                ) + (if m@ == keys@[j]@ {
                    1nat
                } else {
                    0nat
                }));
                if j < old_keys.len() {
                    assert(old_cnts[j] == occurrences(mv.take(i as int), old_keys[j]@));
                    if found && j != k {
                        assert(old_keys[j]@ != old_keys[k as int]@);
                    }
                } else {
                    lemma_occurrences_none(mv.take(i as int), m@, old_keys);
                }
            }
            assert forall|j: int, l: int| 0 <= j < l < keys.len() implies keys@[j]@ != keys@[l]@ by {
                if l >= old_keys.len() {
                    assert(keys@[l]@ == m@);
                }
            }
            assert forall|p: Seq<char>|
                #[trigger] occurrences(mv.take(i + 1), p) > 0 && !stopword_spec(p) implies exists|k2: int|
                    0 <= k2 < keys.len() && (#[trigger] keys@[k2])@ == p by {
                if p != m@ {
                    assert(occurrences(mv.take(i as int), p) > 0);
                    let k2 = choose|k2: int|
                        0 <= k2 < old_keys.len() && (#[trigger] old_keys[k2])@ == p;
                    assert(keys@[k2] == old_keys[k2]);
                } else {
                    if found {
                        assert(keys@[k as int]@ == p);
                    } else {
                        assert(keys@[keys.len() - 1]@ == p);
                    }
                }
            }
        }
        i += 1;
    }
    assert(mv.take(i as int) =~= mv);
    let r = (keys, cnts);
    assert forall|p: Seq<char>| #[trigger] occurrences(views(ms@), p) > 0 && !stopword_spec(
        p,
    ) implies exists|k: int| 0 <= k < r.0.len() && (#[trigger] r.0@[k])@ == p by {
        assert(occurrences(mv.take(i as int), p) > 0);
        let k = choose|k: int| 0 <= k < r.0.len() && (#[trigger] r.0@[k])@ == p;
        assert(r.0@[k]@ == p);
    }
    r
}

/// Whether `w` is one of the trivial common words that never count as
/// entities.
pub fn is_stopword(w: &str) -> (r: bool)
    ensures
        r == stopword_spec(w@),
        r <==> (w@ == "The"@ || w@ == "This"@ || w@ == "That"@ || w@ == "These"@ || w@ == "Those"@ || w@ == "And"@ || w@ == "But"@ || w@ == "For"@ || w@ == "With"@ || w@ == "From"@ || w@ == "When"@ || w@ == "Where"@ || w@ == "What"@ || w@ == "Which"@ || w@ == "While"@ || w@ == "Their"@ || w@ == "There"@ || w@ == "Then"@ || w@ == "They"@),
{
    same_text(w, "The") || same_text(w, "This") || same_text(w, "That") || same_text(w, "These")
        || same_text(w, "Those") || same_text(w, "And") || same_text(w, "But") || same_text(
        w,
        "For",
    ) || same_text(w, "With") || same_text(w, "From") || same_text(w, "When") || same_text(
        w,
        "Where",
    ) || same_text(w, "What") || same_text(w, "Which") || same_text(w, "While") || same_text(
        w,
        "Their",
    ) || same_text(w, "There") || same_text(w, "Then") || same_text(w, "They")
}

/// Whether `w` is Title-Case: an uppercase first character and a lowercase
/// one somewhere after it.
pub fn is_title_case(w: &str) -> (r: bool)
    ensures
        r == title_case_spec(w@),
{
    title_case_chars(&chars_of(w))
}

/// Whether `w` is an acronym: 2 to 10 bytes of ASCII uppercase letters and
/// digits with at least one letter.
pub fn is_acronym(w: &str) -> (r: bool)
    ensures
        r == acronym_spec(w@),
{
    acronym_chars(&chars_of(w))
}

/// Extract candidate entities: Title-Case phrases and ALL-CAPS acronyms,
/// ranked by frequency then length, capped at `max_entities`. Entities that
/// tie on both keys may come in any order. (A text always has fewer than
/// `i64::MAX` characters, which keeps every count exact.)
pub fn extract_entities(text: &str, max_entities: usize) -> (r: Vec<(String, i64)>)
    requires
        text@.len() < i64::MAX,
    ensures
        ranked_entities(text@, max_entities as int, r@),
        forall|i: int| 0 <= i < r@.len() ==> (r@[i].0@ != "The"@ && r@[i].0@ != "This"@ && r@[i].0@ != "That"@ && r@[i].0@ != "These"@ && r@[i].0@ != "Those"@ && r@[i].0@ != "And"@ && r@[i].0@ != "But"@ && r@[i].0@ != "For"@ && r@[i].0@ != "With"@ && r@[i].0@ != "From"@ && r@[i].0@ != "When"@ && r@[i].0@ != "Where"@ && r@[i].0@ != "What"@ && r@[i].0@ != "Which"@ && r@[i].0@ != "While"@ && r@[i].0@ != "Their"@ && r@[i].0@ != "There"@ && r@[i].0@ != "Then"@ && r@[i].0@ != "They"@),
{
    let ms = mentions_of(text);
    proof {
        lemma_mentions_bound(text@);
    }
    let (keys, cnts) = count_mentions(&ms);
    let ghost mv = views(ms@);
    // Counts as i64, and byte lengths.
    let kk = keys;
    let mut kc: Vec<i64> = Vec::new();
    let mut kl: Vec<u128> = Vec::new();
    let mut j: usize = 0;
    while j < kk.len()
        invariant
            j <= kk.len(),
            kk.len() == cnts.len(),
            kc.len() == j && kl.len() == j,
            mv == mentions_spec(text@),
            mv.len() <= text@.len() + 1,
            text@.len() < i64::MAX,
            forall|k: int|
                0 <= k < kk.len() ==> #[trigger] cnts@[k] == occurrences(mv, kk@[k]@),
            forall|k: int| 0 <= k < j ==> #[trigger] kc@[k] == cnts@[k],
            forall|k: int| 0 <= k < j ==> #[trigger] kl@[k] == encode_utf8(kk@[k]@).len(),
        decreases kk.len() - j,
    {
        proof {
            lemma_occurrences_le(mv, kk@[j as int]@);
        }
        kc.push(cnts[j] as i64);
        kl.push(utf8_len(&chars_of(kk[j].as_str())));
        j += 1;
    }
    assert forall|k: int| 0 <= k < kk.len() implies #[trigger] kc@[k] == entity_count(
        text@,
        kk@[k]@,
    ) && kc@[k] > 0 by {
        assert(kc@[k] == cnts@[k]);
    }
    // Every entity with a mention is kept.
    assert forall|p: Seq<char>| entity_count(text@, p) > 0 implies exists|k: int|
        0 <= k < kk.len() && (#[trigger] kk@[k])@ == p by {
        assert(occurrences(mv, p) > 0 && !stopword_spec(p));
    }
    // Repeatedly take the best entity not yet taken (the earliest among ties).
    let n = kk.len();
    let mut taken: Vec<bool> = Vec::new();
    let mut t: usize = 0;
    while t < n
        invariant
            t <= n,
            taken.len() == t,
            forall|k: int| 0 <= k < t ==> !(#[trigger] taken@[k]),
        decreases n - t,
    {
        taken.push(false);
        t += 1;
    }
    let mut result: Vec<(String, i64)> = Vec::new();
    let ghost mut chosen: Seq<int> = seq![];
    while result.len() < max_entities
        invariant
            n == kk.len() && n == kc.len() && n == kl.len(),
            taken.len() == n,
            chosen.len() == result.len(),
            result.len() <= max_entities,
            forall|k: int|
                0 <= k < kk.len() ==> #[trigger] kc@[k] == entity_count(text@, kk@[k]@) && kc@[k]
                    > 0,
            forall|k: int| 0 <= k < kk.len() ==> #[trigger] kl@[k] == encode_utf8(kk@[k]@).len(),
            forall|k: int, l: int| 0 <= k < l < kk.len() ==> kk@[k]@ != kk@[l]@,
            forall|a: int|
                0 <= a < chosen.len() ==> 0 <= #[trigger] chosen[a] < n && taken@[chosen[a]],
            forall|k: int| 0 <= k < n && #[trigger] taken@[k] ==> exists|a: int|
                0 <= a < chosen.len() && chosen[a] == k,
            forall|a: int, b: int| 0 <= a < b < chosen.len() ==> chosen[a] != chosen[b],
            forall|a: int|
                0 <= a < result.len() ==> (#[trigger] result@[a]).0@ == kk@[chosen[a]]@
                    && result@[a].1 == kc@[chosen[a]],
            forall|a: int, b: int|
                0 <= a < b < result.len() ==> ranks_at_least(
                    result@[a].0@,
                    result@[a].1 as int,
                    result@[b].0@,
                    result@[b].1 as int,
                ),
            forall|a: int, k: int|
                0 <= a < result.len() && 0 <= k < n && !(#[trigger] taken@[k]) ==> ranks_at_least(
                    (#[trigger] result@[a]).0@,
                    result@[a].1 as int,
                    kk@[k]@,
                    kc@[k] as int,
                ),
        ensures
            result.len() < max_entities ==> forall|k: int| 0 <= k < n ==> #[trigger] taken@[k],
        decreases count_false(taken@),
    {
        // Find the best entity not yet taken.
        let mut best: usize = n;
        let mut k: usize = 0;
        while k < n
            invariant
                n == kk.len() && n == kc.len() && n == kl.len(),
                taken.len() == n,
                k <= n,
                best == n || (best < k && !taken@[best as int]),
                forall|k2: int|
                    0 <= k2 < kk.len() ==> #[trigger] kl@[k2] == encode_utf8(kk@[k2]@).len(),
                best == n ==> forall|j2: int| 0 <= j2 < k ==> #[trigger] taken@[j2],
                best < n ==> forall|j2: int|
                    0 <= j2 < k && !(#[trigger] taken@[j2]) ==> ranks_at_least(
                        kk@[best as int]@,
                        kc@[best as int] as int,
                        kk@[j2]@,
                        kc@[j2] as int,
                    ),
            decreases n - k,
        {
            if !taken[k] {
                if best == n || kc[k] > kc[best] || (kc[k] == kc[best] && kl[k] > kl[best]) {
                    best = k;
                }
            }
            k += 1;
        }
        if best == n {
            break;
        }
        let ghost old_taken = taken@;
        let ghost old_result = result@;
        let ghost old_chosen = chosen;
        proof {
            lemma_count_false_update(taken@, best as int);
        }
        taken.set(best, true);
        result.push((kk[best].clone(), kc[best]));
        proof {
            // Any entity taken before this round was untaken-or-chosen; the
            // newly chosen one now heads every entity still untaken.
            assert(forall|a: int| 0 <= a < old_result.len() ==> result@[a] == old_result[a]);
            chosen = chosen.push(best as int);
            assert forall|k2: int| 0 <= k2 < n && #[trigger] taken@[k2] implies exists|a: int|
                0 <= a < chosen.len() && chosen[a] == k2 by {
                if k2 == best {
                    assert(chosen[chosen.len() - 1] == k2);
                } else {
                    assert(old_taken[k2]);
                    let a = choose|a: int| 0 <= a < old_chosen.len() && old_chosen[a] == k2;
                    assert(chosen[a] == k2);
                }
            }
            assert forall|a: int, b: int| 0 <= a < b < chosen.len() implies chosen[a]
                != chosen[b] by {
                if b == chosen.len() - 1 {
                    assert(chosen[a] == old_chosen[a]);
                    assert(old_taken[chosen[a]]);
                }
            }
            assert forall|a: int, b: int| 0 <= a < b < result.len() implies ranks_at_least(
                result@[a].0@,
                result@[a].1 as int,
                result@[b].0@,
                result@[b].1 as int,
            ) by {
                if b == result.len() - 1 {
                    assert(!old_taken[best as int]);
                    assert(result@[a] == old_result[a]);
                }
            }
            assert forall|a: int, k2: int|
                0 <= a < result.len() && 0 <= k2 < n && !(#[trigger] taken@[k2]) implies ranks_at_least(
                (#[trigger] result@[a]).0@,
                result@[a].1 as int,
                kk@[k2]@,
                kc@[k2] as int,
            ) by {
                assert(!old_taken[k2]);
                if a < result.len() - 1 {
                    assert(result@[a] == old_result[a]);
                }
            }
        }
    }
    proof {
        assert forall|p: Seq<char>|
            entity_count(text@, p) > 0 && (forall|i: int| 0 <= i < result.len() ==> result@[i].0@ != p)
            implies result.len() == max_entities && forall|i: int|
            0 <= i < result.len() ==> ranks_at_least(
                result@[i].0@,
                result@[i].1 as int,
                p,
                entity_count(text@, p) as int,
            ) by {
            let k = choose|k: int| 0 <= k < kk.len() && (#[trigger] kk@[k])@ == p;
            if taken@[k] {
                let a = choose|a: int| 0 <= a < chosen.len() && chosen[a] == k;
                assert(result@[a].0@ == p);
            }
            assert(!taken@[k]);
            assert forall|i: int| 0 <= i < result.len() implies ranks_at_least(
                result@[i].0@,
                result@[i].1 as int,
                p,
                entity_count(text@, p) as int,
            ) by {
                assert(ranks_at_least(result@[i].0@, result@[i].1 as int, kk@[k]@, kc@[k] as int));
            }
        }
        assert forall|i: int, j2: int| 0 <= i < j2 < result.len() implies result@[i].0@
            != result@[j2].0@ by {
            assert(chosen[i] != chosen[j2]);
        }
    }
    result
}

} // verus!
