//! Ranking policy and result shaping.
//!
//! Two concrete orderings: the native-script order ranks exact-reading
//! matches above everything and then by the entry's priority signal; the
//! foreign-gloss order ranks by gloss relevance and then priority. Both are
//! computed from item content alone. Shaping a result page sorts by the
//! applicable order, drops consecutive duplicates, and truncates for
//! display while the true count is reported separately.

use vstd::prelude::*;
use vstd::seq_lib::*;
use crate::word::{spec_word_eq, Word};
use vstd::multiset::Multiset;

verus! {

/// Which ordering applies.
#[derive(Clone, Copy, PartialEq, Eq, Structural, Debug)]
pub enum RankKind {
    /// Native-script order: exact reading match, then priority.
    Native,
    /// Foreign-gloss order: gloss relevance, then priority.
    Foreign,
}

/// The exact-match bonus dominates every priority signal.
pub open spec fn spec_native_rank(w: Word, q: Seq<char>) -> int {
    (if w.kana@ == q || (w.kanji matches Some(k) && k@ == q) {
        0x1_0000_0000int
    } else {
        0int
    }) + w.priority
}

/// Gloss relevance dominates, priority breaks ties.
pub open spec fn spec_foreign_rank(w: Word) -> int {
    w.gloss_relevance * 0x1_0000_0000 + w.priority
}

/// The rank of `w` under the given ordering, for query `q`.
pub open spec fn spec_rank(kind: RankKind, w: Word, q: Seq<char>) -> int {
    match kind {
        RankKind::Native => spec_native_rank(w, q),
        RankKind::Foreign => spec_foreign_rank(w),
    }
}

/// Ranked in descending order of `kind`'s rank for `q`.
pub open spec fn rank_sorted(kind: RankKind, s: Seq<Word>, q: Seq<char>) -> bool {
    forall|i: int, j: int|
        0 <= i < j < s.len() ==> spec_rank(kind, #[trigger] s[i], q) >= spec_rank(
            kind,
            #[trigger] s[j],
            q,
        )
}

/// `s` with consecutive equal words dropped, each run keeping one.
pub open spec fn spec_dedup(s: Seq<Word>) -> Seq<Word>
    decreases s.len(),
{
    if s.len() <= 1 {
        s
    } else {
        let rest = spec_dedup(s.drop_last());
        if spec_word_eq(s[s.len() - 2], s.last()) {
            rest
        } else {
            rest.push(s.last())
        }
    }
}

fn rank_of(kind: RankKind, w: &Word, q: &str) -> (r: u64)
    ensures
        r as int == spec_rank(kind, *w, q@),
{
    match kind {
        RankKind::Native => {
            let exact = crate::jp::str_eq(w.kana.as_str(), q) || (match &w.kanji {
                Some(k) => crate::jp::str_eq(k.as_str(), q),
                None => false,
            });
            if exact {
                0x1_0000_0000u64 + (w.priority as u64)
            } else {
                w.priority as u64
            }
        },
        RankKind::Foreign => (w.gloss_relevance as u64) * 0x1_0000_0000u64 + (w.priority as u64),
    }
}

fn insert_ranked(kind: RankKind, out: &mut Vec<Word>, x: Word, q: &str)
    requires
        rank_sorted(kind, old(out)@, q@),
        old(out)@.len() < usize::MAX,
    ensures
        rank_sorted(kind, final(out)@, q@),
        final(out)@.len() == old(out)@.len() + 1,
        final(out)@.to_multiset() == old(out)@.to_multiset().insert(x),
{
    let rx = rank_of(kind, &x, q);
    let mut i: usize = 0;
    while i < out.len() && rank_of(kind, &out[i], q) >= rx
        invariant
            i <= out@.len(),
            out@ == old(out)@,
            rx as int == spec_rank(kind, x, q@),
            forall|j: int| 0 <= j < i ==> spec_rank(kind, #[trigger] out@[j], q@) >= rx,
        decreases out@.len() - i,
    {
        i = i + 1;
    }
    proof {
        broadcast use vstd::seq_lib::group_to_multiset_ensures;

        to_multiset_insert(out@, i as int, x);
        assert forall|a: int, b: int|
            0 <= a < b < out@.insert(i as int, x).len() implies spec_rank(
            kind,
            #[trigger] out@.insert(i as int, x)[a],
            q@,
        ) >= spec_rank(kind, #[trigger] out@.insert(i as int, x)[b], q@) by {
            if a < i && b == i {
            } else if a == i && b > i {
            }
        }
    }
    out.insert(i, x);
}

/// Sorts words into descending rank order under the given ordering.
pub fn sort_words(kind: RankKind, words: Vec<Word>, q: &str) -> (r: Vec<Word>)
    ensures
        rank_sorted(kind, r@, q@),
        r@.to_multiset() == words@.to_multiset(),
        r@.len() == words@.len(),
{
    let ghost words0 = words@;
    let mut src = words;
    let n_total = src.len();
    let mut out: Vec<Word> = Vec::new();
    proof {
        broadcast use vstd::seq_lib::group_to_multiset_ensures;

        assert(out@.to_multiset().add(src@.to_multiset()) =~= words0.to_multiset());
    }
    while src.len() > 0
        invariant
            rank_sorted(kind, out@, q@),
            words0.len() == n_total,
            out@.len() + src@.len() == words0.len(),
            out@.to_multiset().add(src@.to_multiset()) == words0.to_multiset(),
        decreases src@.len(),
    {
        let ghost src_before = src@;
        let x = src.pop().unwrap();
        proof {
            broadcast use vstd::seq_lib::group_to_multiset_ensures;

            assert(src_before =~= src@.push(x));
            assert(src_before.to_multiset() =~= src@.to_multiset().insert(x));
        }
        insert_ranked(kind, &mut out, x, q);
        proof {
            assert(out@.to_multiset().add(src@.to_multiset()) =~= words0.to_multiset());
        }
    }
    proof {
        broadcast use vstd::seq_lib::group_to_multiset_ensures;

        assert(src@.to_multiset() =~= Multiset::<Word>::empty());
        assert(out@.to_multiset() =~= words0.to_multiset());
    }
    out
}

/// Drops consecutive duplicate words, keeping the first of each run.
pub fn dedup_words(words: Vec<Word>) -> (r: Vec<Word>)
    ensures
        r@ == spec_dedup(words@),
{
    let ghost words0 = words@;
    let mut src = words;
    let mut out: Vec<Word> = Vec::new();
    let mut prev: Option<Word> = None;
    let ghost mut processed: int = 0;
    while src.len() > 0
        invariant
            0 <= processed <= words0.len(),
            src@ == words0.skip(processed),
            out@ == spec_dedup(words0.take(processed)),
            processed == 0 ==> prev is None,
            processed > 0 ==> (prev matches Some(p) && p == words0[processed - 1]),
        decreases src@.len(),
    {
        let cur = src.remove(0);
        proof {
            assert(cur == words0[processed]);
            assert(words0.skip(processed).skip(1) =~= words0.skip(processed + 1));
            assert(words0.take(processed + 1).drop_last() =~= words0.take(processed));
            assert(words0.take(processed + 1).last() == cur);
        }
        let keep = match &prev {
            Some(p) => !p.eq_word(&cur),
            None => true,
        };
        prev = Some(cur.duplicate());
        if keep {
            out.push(cur);
        }
        proof {
            processed = processed + 1;
        }
    }
    proof {
        assert(words0.take(processed) =~= words0);
    }
    out
}

/// The number of items a result page displays.
pub open spec fn spec_page_take(s: Seq<Word>) -> int {
    if s.len() <= 10 {
        s.len() as int
    } else {
        10
    }
}

/// A shaped result page: some descending-rank permutation of the input,
/// with consecutive duplicates dropped and at most ten items kept.
pub open spec fn spec_page(kind: RankKind, out: Seq<Word>, input: Seq<Word>, q: Seq<char>) -> bool {
    exists|sorted: Seq<Word>|
        {
            &&& #[trigger] sorted.to_multiset() == input.to_multiset()
            &&& rank_sorted(kind, sorted, q)
            &&& out == spec_dedup(sorted).take(spec_page_take(spec_dedup(sorted)))
        }
}

/// Shapes one fetched page under the given ordering: sort by rank,
/// descending; drop consecutive duplicates; truncate to ten for display.
pub fn shape_page(kind: RankKind, words: Vec<Word>, q: &str) -> (r: Vec<Word>)
    ensures
        spec_page(kind, r@, words@, q@),
        r@.len() == 0 <==> words@.len() == 0,
{
    let ghost input0 = words@;
    let sorted = sort_words(kind, words, q);
    let ghost sorted0 = sorted@;
    let deduped = dedup_words(sorted);
    proof {
        lemma_dedup_len(sorted0);
    }
    let mut page = deduped;
    page.truncate(10);
    proof {
        assert(page@ =~= spec_dedup(sorted0).take(spec_page_take(spec_dedup(sorted0))));
        assert(spec_page(kind, page@, input0, q@)) by {
            assert(sorted0.to_multiset() == input0.to_multiset());
        }
        broadcast use vstd::seq_lib::group_to_multiset_ensures;

        if input0.len() == 0 {
            assert(sorted0.len() == 0);
        } else {
            assert(sorted0.len() > 0);
            lemma_dedup_len(sorted0);
        }
    }
    page
}

/// A fully shaped list: some descending-rank permutation of the input with
/// consecutive duplicates dropped, nothing truncated.
pub open spec fn spec_sorted_dedup(
    kind: RankKind,
    out: Seq<Word>,
    input: Seq<Word>,
    q: Seq<char>,
) -> bool {
    exists|sorted: Seq<Word>|
        {
            &&& #[trigger] sorted.to_multiset() == input.to_multiset()
            &&& rank_sorted(kind, sorted, q)
            &&& out == spec_dedup(sorted)
        }
}

/// Sorts by rank, descending, and drops consecutive duplicates.
pub fn sort_dedup(kind: RankKind, words: Vec<Word>, q: &str) -> (r: Vec<Word>)
    ensures
        spec_sorted_dedup(kind, r@, words@, q@),
        r@.len() <= words@.len(),
{
    let ghost input0 = words@;
    let sorted = sort_words(kind, words, q);
    let ghost sorted0 = sorted@;
    proof {
        lemma_dedup_len(sorted0);
    }
    let deduped = dedup_words(sorted);
    proof {
        assert(sorted0.to_multiset() == input0.to_multiset());
        assert(spec_sorted_dedup(kind, deduped@, input0, q@));
    }
    deduped
}

/// Deduplication keeps at least one word of a non-empty sequence, and
/// never grows it.
proof fn lemma_dedup_len(s: Seq<Word>)
    ensures
        spec_dedup(s).len() <= s.len(),
        s.len() > 0 ==> spec_dedup(s).len() >= 1,
    decreases s.len(),
{
    if s.len() > 1 {
        lemma_dedup_len(s.drop_last());
    }
}

} // verus!
