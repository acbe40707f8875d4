//! Transcript search: the result entity and the safe FTS5 query it runs on.
//!
//! The MATCH expression is built with quoted terms and an explicit campaign
//! filter so a hostile query string cannot inject FTS syntax: every term is
//! wrapped in double quotes and embedded quotes are stripped.

use vstd::prelude::*;
use vstd::string::*;

use crate::llm::{join, ContentBlock, Role};
use crate::text::{chars_of, char_is_whitespace, is_whitespace, strings_view};

verus! {

/// A transcript row that matched the search query.
#[derive(Debug)]
pub struct SearchResult {
    pub message_id: String,
    pub campaign_id: String,
    pub role: Role,
    pub content: Vec<ContentBlock>,
    pub turn_index: i64,
    pub created_at: String,
    /// A short extract around the first match, when the FTS layer gives one.
    pub snippet: Option<String>,
}

/// The whitespace-separated words of `s`, in order (`str::split_whitespace`).
pub open spec fn words(s: Seq<char>) -> Seq<Seq<char>>
    decreases s.len(),
{
    if s.len() == 0 {
        Seq::empty()
    } else {
        let w = words(s.drop_last());
        let c = s.last();
        if is_whitespace(c) {
            w
        } else if s.len() >= 2 && !is_whitespace(s[s.len() - 2]) {
            w.update(w.len() - 1, w.last().push(c))
        } else {
            w.push(seq![c])
        }
    }
}

/// `s` without its double quotes.
pub open spec fn strip_quotes(s: Seq<char>) -> Seq<char>
    decreases s.len(),
{
    if s.len() == 0 {
        s
    } else if s.last() == '"' {
        strip_quotes(s.drop_last())
    } else {
        strip_quotes(s.drop_last()).push(s.last())
    }
}

/// The search terms of a list of words: each without quotes, empty ones
/// dropped.
pub open spec fn fts_terms(ws: Seq<Seq<char>>) -> Seq<Seq<char>>
    decreases ws.len(),
{
    if ws.len() == 0 {
        Seq::empty()
    } else {
        let t = strip_quotes(ws.last());
        if t.len() > 0 {
            fts_terms(ws.drop_last()).push(t)
        } else {
            fts_terms(ws.drop_last())
        }
    }
}

/// The clause scoping a search to a campaign.
pub open spec fn campaign_clause(campaign_id: Seq<char>) -> Seq<char> {
    "campaign_id:\""@ + campaign_id + "\""@
}

/// The clause matching one term in the message content.
pub open spec fn content_clause(term: Seq<char>) -> Seq<char> {
    "content:\""@ + term + "\""@
}

/// The FTS5 MATCH expression for a query in a campaign: the campaign clause
/// and one content clause per term, AND-joined; empty when the query has no
/// usable term (a MATCH without terms would throw or match everything).
pub open spec fn fts_match_expression(campaign_id: Seq<char>, query: Seq<char>) -> Seq<char> {
    let terms = fts_terms(words(query));
    if terms.len() == 0 {
        Seq::empty()
    } else {
        join(seq![campaign_clause(campaign_id)] + terms.map_values(|t: Seq<char>| content_clause(t)), " AND "@)
    }
}

/// The characters of `cs[a..b]` without double quotes.
fn clean_term(text: &str, cs: &Vec<char>, a: usize, b: usize) -> (r: String)
    requires
        cs@ == text@,
        a <= b <= cs@.len(),
    ensures
        r@ == strip_quotes(cs@.subrange(a as int, b as int)),
{
    let mut out = String::new();
    let mut seg: usize = a;
    let mut j: usize = a;
    proof {
        assert(cs@.subrange(a as int, a as int) =~= Seq::<char>::empty());
        assert(out@ + cs@.subrange(a as int, a as int) =~= Seq::<char>::empty());
    }
    while j < b
        invariant
            cs@ == text@,
            a <= seg <= j <= b <= cs@.len(),
            out@ + cs@.subrange(seg as int, j as int) == strip_quotes(cs@.subrange(a as int, j as int)),
        decreases b - j,
    {
        proof {
            assert(cs@.subrange(a as int, j + 1).drop_last() =~= cs@.subrange(a as int, j as int));
            assert(cs@.subrange(a as int, j + 1).last() == cs@[j as int]);
        }
        if cs[j] == '"' {
            out.append(text.substring_char(seg, j));
            seg = j + 1;
            proof {
                assert(cs@.subrange(seg as int, j + 1) =~= Seq::<char>::empty());
                assert(out@ + cs@.subrange(seg as int, j + 1) =~= out@);
            }
        } else {
            proof {
                assert(cs@.subrange(seg as int, j + 1) =~= cs@.subrange(seg as int, j as int).push(cs@[j as int]));
                assert(out@ + cs@.subrange(seg as int, j + 1) =~= (out@ + cs@.subrange(seg as int, j as int)).push(
                    cs@[j as int],
                ));
            }
        }
        j = j + 1;
    }
    out.append(text.substring_char(seg, b));
    out
}

/// The search terms of a query.
fn query_terms(query: &str) -> (r: Vec<String>)
    ensures
        strings_view(r@) == fts_terms(words(query@)),
{
    let cs = chars_of(query);
    let mut terms: Vec<String> = Vec::new();
    let ghost mut done: Seq<Seq<char>> = Seq::empty();
    let mut in_word = false;
    let mut a: usize = 0;
    let mut i: usize = 0;
    proof {
        assert(cs@.subrange(0, 0) =~= Seq::<char>::empty());
    }
    while i < cs.len()
        invariant
            cs@ == query@,
            i <= cs@.len(),
            a <= i,
            strings_view(terms@) == fts_terms(done),
            in_word ==> a < i && !is_whitespace(cs@[i - 1]),
            !in_word ==> i == 0 || is_whitespace(cs@[i - 1]),
            words(cs@.subrange(0, i as int)) == (if in_word {
                done.push(cs@.subrange(a as int, i as int))
            } else {
                done
            }),
        decreases cs@.len() - i,
    {
        let c = cs[i];
        let ghost prefix = cs@.subrange(0, i + 1);
        proof {
            assert(prefix.drop_last() =~= cs@.subrange(0, i as int));
            assert(prefix.last() == c);
            if i >= 1 {
                assert(prefix[prefix.len() - 2] == cs@[i - 1]);
            }
        }
        if char_is_whitespace(c) {
            if in_word {
                let term = clean_term(query, &cs, a, i);
                let ghost before = strings_view(terms@);
                let ghost old_done = done;
                proof {
                    done = done.push(cs@.subrange(a as int, i as int));
                    assert(done.drop_last() =~= old_done);
                    assert(done.last() == cs@.subrange(a as int, i as int));
                }
                if term.unicode_len() > 0 {
                    terms.push(term);
                    proof {
                        assert(strings_view(terms@) =~= before.push(terms@.last()@));
                    }
                }
                in_word = false;
            }
        } else {
            if in_word {
                proof {
                    assert(cs@.subrange(a as int, i + 1) =~= cs@.subrange(a as int, i as int).push(c));
                    assert(done.push(cs@.subrange(a as int, i as int)).update(done.len() as int, cs@.subrange(
                        a as int,
                        i + 1,
                    )) =~= done.push(cs@.subrange(a as int, i + 1)));
                }
            } else {
                a = i;
                in_word = true;
                proof {
                    assert(cs@.subrange(a as int, i + 1) =~= seq![c]);
                }
            }
        }
        i = i + 1;
    }
    if in_word {
        let term = clean_term(query, &cs, a, cs.len());
        let ghost before = strings_view(terms@);
        let ghost old_done = done;
        proof {
            done = done.push(cs@.subrange(a as int, cs@.len() as int));
            assert(done.drop_last() =~= old_done);
            assert(done.last() == cs@.subrange(a as int, cs@.len() as int));
        }
        if term.unicode_len() > 0 {
            terms.push(term);
            proof {
                assert(strings_view(terms@) =~= before.push(terms@.last()@));
            }
        }
    }
    proof {
        assert(cs@.subrange(0, cs@.len() as int) =~= cs@);
    }
    terms
}

/// Build a safe FTS5 MATCH expression scoped to a campaign.
pub fn build_match_expression(campaign_id: &str, query: &str) -> (r: String)
    ensures
        r@ == fts_match_expression(campaign_id@, query@),
{
    let terms = query_terms(query);
    if terms.len() == 0 {
        return String::new();
    }
    let ghost parts = seq![campaign_clause(campaign_id@)] + strings_view(terms@).map_values(
        |t: Seq<char>| content_clause(t),
    );
    let mut out = String::from_str("campaign_id:\"");
    out.append(campaign_id);
    out.append("\"");
    let mut k: usize = 0;
    proof {
        assert(parts.subrange(0, 1) =~= seq![campaign_clause(campaign_id@)]);
    }
    while k < terms.len()
        invariant
            parts == seq![campaign_clause(campaign_id@)] + strings_view(terms@).map_values(
                |t: Seq<char>| content_clause(t),
            ),
            k <= terms@.len(),
            out@ == join(parts.subrange(0, k + 1), " AND "@),
        decreases terms@.len() - k,
    {
        proof {
            assert(parts.subrange(0, k + 2).drop_last() =~= parts.subrange(0, k + 1));
            assert(parts[k + 1] == content_clause(terms@[k as int]@));
        }
        out.append(" AND ");
        out.append("content:\"");
        out.append(terms[k].as_str());
        out.append("\"");
        proof {
            assert(out@ =~= join(parts.subrange(0, k + 1), " AND "@) + " AND "@ + parts[k + 1]);
        }
        k = k + 1;
    }
    proof {
        assert(parts.subrange(0, terms@.len() as int + 1) =~= parts);
    }
    out
}

/// The number of results a search returns: the requested limit, clamped to
/// 1..=200.
pub fn search_limit(limit: i64) -> (r: i64)
    ensures
        r == (if limit < 1 {
            1
        } else if limit > 200 {
            200
        } else {
            limit
        }),
{
    if limit < 1 {
        1
    } else if limit > 200 {
        200
    } else {
        limit
    }
}

/// A word stripped of quotes holds no quote.
proof fn lemma_strip_quotes_clean(s: Seq<char>)
    ensures
        forall|i: int| 0 <= i < strip_quotes(s).len() ==> #[trigger] strip_quotes(s)[i] != '"',
    decreases s.len(),
{
    if s.len() > 0 {
        lemma_strip_quotes_clean(s.drop_last());
        let t = strip_quotes(s.drop_last());
        if s.last() != '"' {
            assert forall|i: int| 0 <= i < strip_quotes(s).len() implies #[trigger] strip_quotes(s)[i] != '"' by {
                if i < t.len() {
                    assert(strip_quotes(s)[i] == t[i]);
                }
            }
        }
    }
}

/// No search term can hold a double quote or be empty, so a query can never
/// break out of the quoted phrase its term is placed in.
pub proof fn law_terms_are_quote_free(query: Seq<char>)
    ensures
        forall|k: int|
            0 <= k < fts_terms(words(query)).len() ==> (#[trigger] fts_terms(words(query))[k]).len() > 0
                && forall|i: int|
                0 <= i < fts_terms(words(query))[k].len() ==> fts_terms(words(query))[k][i] != '"',
{
    lemma_fts_terms_clean(words(query));
}

proof fn lemma_fts_terms_clean(ws: Seq<Seq<char>>)
    ensures
        forall|k: int|
            0 <= k < fts_terms(ws).len() ==> (#[trigger] fts_terms(ws)[k]).len() > 0 && forall|i: int|
                0 <= i < fts_terms(ws)[k].len() ==> fts_terms(ws)[k][i] != '"',
    decreases ws.len(),
{
    if ws.len() > 0 {
        lemma_fts_terms_clean(ws.drop_last());
        lemma_strip_quotes_clean(ws.last());
        let rest = fts_terms(ws.drop_last());
        let t = strip_quotes(ws.last());
        if t.len() > 0 {
            assert forall|k: int| 0 <= k < fts_terms(ws).len() implies (#[trigger] fts_terms(ws)[k]).len() > 0
                && forall|i: int| 0 <= i < fts_terms(ws)[k].len() ==> fts_terms(ws)[k][i] != '"' by {
                if k < rest.len() {
                    assert(fts_terms(ws)[k] == rest[k]);
                } else {
                    assert(fts_terms(ws)[k] == t);
                }
            }
        }
    }
}

/// Appending a whitespace character to text adds no word.
proof fn lemma_words_space(s: Seq<char>, sep: char)
    requires
        is_whitespace(sep),
    ensures
        words(s.push(sep)) == words(s),
{
    assert(s.push(sep).drop_last() =~= s);
}

/// Text ending in whitespace (or empty) followed by a word without
/// whitespace has that word as its new last word.
proof fn lemma_words_append_word(t: Seq<char>, w: Seq<char>)
    requires
        t.len() == 0 || is_whitespace(t.last()),
        w.len() > 0,
        forall|i: int| 0 <= i < w.len() ==> !is_whitespace(#[trigger] w[i]),
    ensures
        words(t + w) == words(t).push(w),
    decreases w.len(),
{
    let u = w.drop_last();
    let c = w.last();
    assert((t + w).drop_last() =~= t + u);
    assert((t + w).last() == c);
    assert(!is_whitespace(c));
    if u.len() == 0 {
        assert(t + u =~= t);
        assert(w =~= seq![c]);
        if t.len() >= 1 {
            assert((t + w)[(t + w).len() - 2] == t.last());
        }
    } else {
        assert forall|i: int| 0 <= i < u.len() implies !is_whitespace(#[trigger] u[i]) by {
            assert(u[i] == w[i]);
        }
        lemma_words_append_word(t, u);
        assert((t + w)[(t + w).len() - 2] == u.last());
        assert(u.last() == w[w.len() - 2]);
        assert(u.push(c) =~= w);
        assert(words(t).push(u).update(words(t).len() as int, u.push(c)) =~= words(t).push(w));
    }
}

/// What a word is searched for: the word with its double quotes dropped and
/// every other character kept, in order.
pub proof fn law_quotes_are_dropped(w: Seq<char>)
    ensures
        strip_quotes(w) == w.filter(|c: char| c != '"'),
    decreases w.len(),
{
    reveal(Seq::filter);
    if w.len() > 0 {
        law_quotes_are_dropped(w.drop_last());
    }
}

/// `w` is one search word: no whitespace in it, and something left once
/// its quotes are dropped.
pub open spec fn search_word(w: Seq<char>) -> bool {
    &&& forall|i: int| 0 <= i < w.len() ==> !is_whitespace(#[trigger] w[i])
    &&& w.filter(|c: char| c != '"').len() > 0
}

/// Every word of the query is searched for: a query that is a single word
/// gives the campaign clause and that word's clause; whitespace added to a
/// query changes nothing; and adding one more word after whitespace to a
/// query that already has a term adds exactly one more clause, for that
/// word, at the end: no word is dropped, merged or reordered.
pub proof fn law_every_word_is_searched(campaign_id: Seq<char>, query: Seq<char>, sep: char, w: Seq<char>)
    requires
        is_whitespace(sep),
        search_word(w),
    ensures
        fts_match_expression(campaign_id, w) == campaign_clause(campaign_id) + " AND "@ + content_clause(
            w.filter(|c: char| c != '"'),
        ),
        fts_match_expression(campaign_id, query.push(sep)) == fts_match_expression(campaign_id, query),
        fts_terms(words(query)).len() > 0 ==> fts_match_expression(campaign_id, query.push(sep) + w)
            == fts_match_expression(campaign_id, query) + " AND "@ + content_clause(w.filter(|c: char| c != '"')),
{
    let t = w.filter(|c: char| c != '"');
    law_quotes_are_dropped(w);
    assert(strip_quotes(w) == t);
    reveal(Seq::filter);
    assert(w.len() > 0) by {
        if w.len() == 0 {
            assert(w.filter(|c: char| c != '"') =~= w);
        }
    }
    // Whitespace adds nothing.
    lemma_words_space(query, sep);
    // A single word.
    let e = Seq::<char>::empty();
    lemma_words_append_word(e, w);
    assert(e + w =~= w);
    assert(words(e) == Seq::<Seq<char>>::empty());
    assert(words(w) == seq![w]);
    assert(seq![w].drop_last() =~= Seq::<Seq<char>>::empty());
    assert(seq![w].last() == w);
    assert(fts_terms(Seq::<Seq<char>>::empty()) == Seq::<Seq<char>>::empty());
    assert(Seq::<Seq<char>>::empty().push(t) =~= seq![t]);
    assert(fts_terms(seq![w]) == seq![t]);
    assert(fts_terms(words(w)) == seq![t]);
    let one = seq![campaign_clause(campaign_id)] + seq![t].map_values(|x: Seq<char>| content_clause(x));
    assert(one =~= seq![campaign_clause(campaign_id), content_clause(t)]);
    assert(one.drop_last() =~= seq![campaign_clause(campaign_id)]);
    assert(join(one, " AND "@) == join(one.drop_last(), " AND "@) + " AND "@ + one.last());
    assert(fts_match_expression(campaign_id, w) == join(one, " AND "@));
    // One more word.
    let q2 = query.push(sep);
    lemma_words_append_word(q2, w);
    let ws = words(query);
    assert(words(q2 + w) == ws.push(w));
    assert(ws.push(w).drop_last() =~= ws);
    let terms = fts_terms(ws);
    assert(fts_terms(ws.push(w)) == terms.push(t));
    let parts = seq![campaign_clause(campaign_id)] + terms.map_values(|x: Seq<char>| content_clause(x));
    let parts2 = seq![campaign_clause(campaign_id)] + terms.push(t).map_values(|x: Seq<char>| content_clause(x));
    assert(parts2 =~= parts.push(content_clause(t)));
    assert(parts2.drop_last() =~= parts);
}

} // verus!
