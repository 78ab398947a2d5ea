//! Character index for fast Japanese-script lookups.
//!
//! The index maps each character to the set of indexed words whose text
//! contains it. `find` narrows candidates by intersecting the sets of the
//! given characters, with one deliberate quirk preserved from the index's
//! documented behaviour: characters before the first one present as a key
//! are ignored, and a later character that is absent as a key contributes no
//! constraint at all — it does not empty the result.

use vstd::prelude::*;
use vstd::seq_lib::*;

verus! {

/// A single indexed word: its text and the stable entry id resolving it.
pub struct IndexedWord {
    pub text: String,
    pub seq_id: u32,
}

impl View for IndexedWord {
    type V = (Seq<char>, u32);

    open spec fn view(&self) -> (Seq<char>, u32) {
        (self.text@, self.seq_id)
    }
}

impl IndexedWord {
    pub fn new(text: String, seq_id: u32) -> (r: Self)
        ensures
            r@ == (text@, seq_id),
    {
        IndexedWord { text, seq_id }
    }

    /// Equality on (text, sequence id).
    pub fn same_word(&self, other: &Self) -> (r: bool)
        ensures
            r == (self@ == other@),
    {
        let r = self.text.eq(&other.text) && self.seq_id == other.seq_id;
        proof {
            if r {
                assert(self@ == other@);
            }
        }
        r
    }

    /// A structurally equal copy.
    fn duplicate(&self) -> (r: Self)
        ensures
            r == *self,
    {
        IndexedWord { text: self.text.clone(), seq_id: self.seq_id }
    }
}

/// The views of a word sequence, in order.
pub open spec fn word_views(s: Seq<IndexedWord>) -> Seq<(Seq<char>, u32)> {
    s.map_values(|w: IndexedWord| w@)
}

proof fn lemma_word_views_push(s: Seq<IndexedWord>, w: IndexedWord)
    ensures
        word_views(s.push(w)) =~= word_views(s).push(w@),
{
}

proof fn lemma_word_views_push_to_set(s: Seq<IndexedWord>, w: IndexedWord)
    ensures
        word_views(s.push(w)).to_set() =~= word_views(s).to_set().insert(w@),
{
    lemma_word_views_push(s, w);
    word_views(s).lemma_push_to_set_commute(w@);
}

struct IndexBucket {
    key: char,
    words: Vec<IndexedWord>,
}

/// Index from characters to the words containing them.
pub struct RegexSearchIndex {
    data: Vec<IndexBucket>,
}

impl RegexSearchIndex {
    /// `c` is present as a key.
    pub closed spec fn spec_has_key(&self, c: char) -> bool {
        exists|i: int| 0 <= i < self.data@.len() && (#[trigger] self.data@[i]).key == c
    }

    spec fn key_idx(&self, c: char) -> int {
        choose|i: int| 0 <= i < self.data@.len() && (#[trigger] self.data@[i]).key == c
    }

    /// The set of words indexed under `c`; empty when `c` is not a key.
    pub closed spec fn spec_bucket(&self, c: char) -> Set<(Seq<char>, u32)> {
        if self.spec_has_key(c) {
            word_views(self.data@[self.key_idx(c)].words@).to_set()
        } else {
            Set::<(Seq<char>, u32)>::empty()
        }
    }

    /// Well-formed: keys are unique, and no bucket lists a word twice.
    pub closed spec fn wf(&self) -> bool {
        &&& forall|i: int, j: int|
            0 <= i < j < self.data@.len() ==> (#[trigger] self.data@[i]).key != (
            #[trigger] self.data@[j]).key
        &&& forall|i: int|
            0 <= i < self.data@.len() ==> word_views(
                (#[trigger] self.data@[i]).words@,
            ).no_duplicates()
    }

    proof fn lemma_bucket_at(&self, c: char, i: int)
        requires
            self.wf(),
            0 <= i < self.data@.len(),
            self.data@[i].key == c,
        ensures
            self.spec_has_key(c),
            self.key_idx(c) == i,
            self.spec_bucket(c) == word_views(self.data@[i].words@).to_set(),
    {
        assert(self.spec_has_key(c));
        let j = self.key_idx(c);
        if j != i {
            if j < i {
                assert(self.data@[j].key != self.data@[i].key);
            } else {
                assert(self.data@[i].key != self.data@[j].key);
            }
        }
    }

    /// Creates a new empty index.
    pub fn new() -> (r: Self)
        ensures
            r.wf(),
            forall|c: char| !r.spec_has_key(c),
            forall|c: char| r.spec_bucket(c) == Set::<(Seq<char>, u32)>::empty(),
    {
        RegexSearchIndex { data: Vec::new() }
    }

    /// The position of the bucket keyed by `c`, if present.
    fn find_key(&self, c: char) -> (r: Option<usize>)
        ensures
            match r {
                Some(i) => i < self.data@.len() && self.data@[i as int].key == c,
                None => !self.spec_has_key(c),
            },
    {
        let mut i: usize = 0;
        while i < self.data.len()
            invariant
                i <= self.data@.len(),
                forall|j: int| 0 <= j < i ==> (#[trigger] self.data@[j]).key != c,
            decreases self.data@.len() - i,
        {
            if self.data[i].key == c {
                return Some(i);
            }
            i = i + 1;
        }
        None
    }

    /// The position of a word with `w`'s text and id in `words`, if present.
    fn find_word(words: &Vec<IndexedWord>, w: &IndexedWord) -> (r: bool)
        ensures
            r == word_views(words@).to_set().contains(w@),
    {
        let mut i: usize = 0;
        while i < words.len()
            invariant
                i <= words@.len(),
                forall|j: int| 0 <= j < i ==> (#[trigger] words@[j])@ != w@,
            decreases words@.len() - i,
        {
            if words[i].same_word(w) {
                proof {
                    assert(word_views(words@)[i as int] == w@);
                    assert(word_views(words@).contains(w@));
                }
                return true;
            }
            i = i + 1;
        }
        proof {
            if word_views(words@).to_set().contains(w@) {
                let j = choose|j: int| 0 <= j < word_views(words@).len() && word_views(words@)[j]
                    == w@;
                assert(words@[j]@ == w@);
            }
        }
        false
    }

    /// Adds `term` to the index under every character it contains; adding a
    /// word already present under a character changes nothing there.
    pub fn add_term(&mut self, term: &str, seq_id: u32)
        requires
            old(self).wf(),
        ensures
            final(self).wf(),
            forall|c: char|
                final(self).spec_has_key(c) == (old(self).spec_has_key(c) || term@.contains(c)),
            forall|c: char|
                final(self).spec_bucket(c) == if term@.contains(c) {
                    old(self).spec_bucket(c).insert((term@, seq_id))
                } else {
                    old(self).spec_bucket(c)
                },
    {
        let n = term.unicode_len();
        let mut ti: usize = 0;
        while ti < n
            invariant
                n == term@.len(),
                ti <= n,
                self.wf(),
                forall|c: char|
                    self.spec_has_key(c) == (old(self).spec_has_key(c) || term@.take(
                        ti as int,
                    ).contains(c)),
                forall|c: char|
                    self.spec_bucket(c) == if term@.take(ti as int).contains(c) {
                        old(self).spec_bucket(c).insert((term@, seq_id))
                    } else {
                        old(self).spec_bucket(c)
                    },
            decreases n - ti,
        {
            let ghost pre = *self;
            let c = term.get_char(ti);
            let w = IndexedWord::new(term.to_owned(), seq_id);
            proof {
                assert(term@.take(ti + 1).drop_last() =~= term@.take(ti as int));
                assert(term@.take(ti + 1).last() == c);
                assert forall|d: char| #[trigger]
                    term@.take(ti + 1).contains(d) == (term@.take(ti as int).contains(d) || d
                        == c) by {
                    let t1 = term@.take(ti + 1);
                    let t0 = term@.take(ti as int);
                    if t1.contains(d) {
                        let k = choose|k: int| 0 <= k < t1.len() && t1[k] == d;
                        if k < ti {
                            assert(t0[k] == d);
                        }
                    }
                    if t0.contains(d) {
                        let k = choose|k: int| 0 <= k < t0.len() && t0[k] == d;
                        assert(t1[k] == d);
                    }
                    if d == c {
                        assert(t1[ti as int] == d);
                    }
                }
            }
            match self.find_key(c) {
                None => {
                    let mut words: Vec<IndexedWord> = Vec::new();
                    words.push(w);
                    self.data.push(IndexBucket { key: c, words });
                    proof {
                        let nlen = pre.data@.len();
                        assert(self.data@.len() == nlen + 1);
                        assert(self.data@[nlen as int].key == c);
                        assert forall|i: int, j: int| 0 <= i < j < self.data@.len() implies (
                        #[trigger] self.data@[i]).key != (#[trigger] self.data@[j]).key by {
                            if j < nlen {
                                assert(pre.data@[i].key != pre.data@[j].key);
                            } else {
                                assert(!pre.spec_has_key(c));
                                if pre.data@[i].key == c {
                                    assert(pre.spec_has_key(c));
                                }
                            }
                        }
                        assert forall|i: int|
                            0 <= i < self.data@.len() implies word_views(
                            (#[trigger] self.data@[i]).words@,
                        ).no_duplicates() by {
                            if i < nlen {
                                assert(word_views(pre.data@[i].words@).no_duplicates());
                            } else {
                                assert(word_views(self.data@[i].words@).len() == 1);
                            }
                        }
                        assert(self.wf());
                        self.lemma_bucket_at(c, nlen as int);
                        assert(word_views(self.data@[nlen as int].words@) =~= seq![w@]);
                        assert(w@ == (term@, seq_id));
                        assert(seq![w@][0] == w@);
                        assert(seq![w@].contains(w@));
                        assert(!pre.spec_has_key(c));
                        assert(self.spec_bucket(c) =~= pre.spec_bucket(c).insert((term@, seq_id)))
                            by {
                            assert forall|p: (Seq<char>, u32)| #[trigger]
                                seq![w@].to_set().contains(p) implies p == w@ by {
                                let q = choose|q: int| 0 <= q < seq![w@].len() && seq![w@][q] == p;
                            }
                        }
                        assert forall|d: char| d != c implies self.spec_has_key(d)
                            == pre.spec_has_key(d) && self.spec_bucket(d) == pre.spec_bucket(
                            d,
                        ) by {
                            if pre.spec_has_key(d) {
                                let i = choose|i: int|
                                    0 <= i < pre.data@.len() && (#[trigger] pre.data@[i]).key == d;
                                pre.lemma_bucket_at(d, i);
                                assert(self.data@[i].key == d);
                                self.lemma_bucket_at(d, i);
                            } else {
                                if self.spec_has_key(d) {
                                    let i = choose|i: int|
                                        0 <= i < self.data@.len() && (#[trigger] self.data@[i]).key
                                            == d;
                                    assert(i == nlen);
                                }
                            }
                        }
                    }
                }
                Some(bi) => {
                    proof {
                        self.lemma_bucket_at(c, bi as int);
                    }
                    let present = Self::find_word(&self.data[bi].words, &w);
                    if !present {
                        let ghost pre_words = self.data@[bi as int].words@;
                        self.data[bi].words.push(w);
                        proof {
                            assert(self.data@ =~= pre.data@.update(
                                bi as int,
                                self.data@[bi as int],
                            ));
                            assert(self.data@[bi as int].key == c);
                            assert(self.data@[bi as int].words@ =~= pre_words.push(w));
                            assert(word_views(pre_words.push(w)) =~= word_views(pre_words).push(
                                w@,
                            ));
                            assert forall|i: int, j: int|
                                0 <= i < j < self.data@.len() implies (
                            #[trigger] self.data@[i]).key != (#[trigger] self.data@[j]).key by {
                                assert(pre.data@[i].key != pre.data@[j].key);
                                assert(self.data@[i].key == pre.data@[i].key);
                                assert(self.data@[j].key == pre.data@[j].key);
                            }
                            assert forall|i: int|
                                0 <= i < self.data@.len() implies word_views(
                                (#[trigger] self.data@[i]).words@,
                            ).no_duplicates() by {
                                if i != bi {
                                    assert(self.data@[i] == pre.data@[i]);
                                    assert(word_views(pre.data@[i].words@).no_duplicates());
                                } else {
                                    let wv = word_views(pre_words);
                                    assert(!wv.to_set().contains(w@));
                                    assert forall|k: int| 0 <= k < wv.len() implies wv[k] != w@ by {
                                        if wv[k] == w@ {
                                            assert(wv.contains(w@));
                                        }
                                    }
                                    assert(word_views(self.data@[i].words@) =~= wv.push(w@));
                                }
                            }
                            assert(self.wf());
                            self.lemma_bucket_at(c, bi as int);
                            assert(word_views(self.data@[bi as int].words@).to_set()
                                =~= word_views(pre_words).to_set().insert(w@)) by {
                                lemma_word_views_push_to_set(pre_words, w);
                                assert(self.data@[bi as int].words@ =~= pre_words.push(w));
                            }
                            assert(self.spec_bucket(c) =~= pre.spec_bucket(c).insert(
                                (term@, seq_id),
                            ));
                            assert forall|d: char| d != c implies self.spec_has_key(d)
                                == pre.spec_has_key(d) && self.spec_bucket(d) == pre.spec_bucket(
                                d,
                            ) by {
                                if pre.spec_has_key(d) {
                                    let i = choose|i: int|
                                        0 <= i < pre.data@.len() && (#[trigger] pre.data@[i]).key
                                            == d;
                                    pre.lemma_bucket_at(d, i);
                                    assert(self.data@[i].key == d);
                                    self.lemma_bucket_at(d, i);
                                    assert(i != bi);
                                    assert(self.data@[i] == pre.data@[i]);
                                } else {
                                    if self.spec_has_key(d) {
                                        let i = choose|i: int|
                                            0 <= i < self.data@.len() && (
                                            #[trigger] self.data@[i]).key == d;
                                        assert(pre.data@[i].key == self.data@[i].key);
                                    }
                                }
                            }
                        }
                    } else {
                        proof {
                            assert(self.spec_bucket(c).contains((term@, seq_id)));
                            assert(self.spec_bucket(c) =~= pre.spec_bucket(c).insert(
                                (term@, seq_id),
                            ));
                        }
                    }
                }
            }
            ti = ti + 1;
            proof {
                assert forall|c0: char| #[trigger]
                    self.spec_has_key(c0) == (old(self).spec_has_key(c0) || term@.take(
                        ti as int,
                    ).contains(c0)) by {
                    if c0 == c {
                        assert(self.spec_has_key(c0));
                        assert(term@.take(ti as int)[ti - 1] == c0);
                        assert(term@.take(ti as int).contains(c0));
                    } else {
                        assert(self.spec_has_key(c0) == pre.spec_has_key(c0));
                        assert(term@.take(ti as int).contains(c0) == term@.take(ti - 1).contains(
                            c0,
                        ));
                    }
                }
                assert forall|c0: char| #[trigger]
                    self.spec_bucket(c0) == if term@.take(ti as int).contains(c0) {
                        old(self).spec_bucket(c0).insert((term@, seq_id))
                    } else {
                        old(self).spec_bucket(c0)
                    } by {
                    if c0 == c {
                        if pre.spec_bucket(c0).contains((term@, seq_id)) {
                            assert(pre.spec_bucket(c0).insert((term@, seq_id)) =~= pre.spec_bucket(
                                c0,
                            ));
                        }
                        if term@.take(ti - 1).contains(c0) {
                            assert(old(self).spec_bucket(c0).insert((term@, seq_id)).insert(
                                (term@, seq_id),
                            ) =~= old(self).spec_bucket(c0).insert((term@, seq_id)));
                        }
                    }
                }
            }
        }
        proof {
            assert(term@.take(n as int) =~= term@);
        }
    }

    /// All indexed words containing the characters of `chars`, per the
    /// narrowing rule: the first character present as a key seeds the set;
    /// each later character present as a key intersects it; a later
    /// character absent as a key narrows nothing.
    pub fn find(&self, chars: &Vec<char>) -> (r: Vec<IndexedWord>)
        requires
            self.wf(),
        ensures
            word_views(r@).to_set() == self.find_spec(chars@),
            word_views(r@).no_duplicates(),
    {
        let n = chars.len();
        let mut i: usize = 0;
        while i < n && self.find_key(chars[i]).is_none()
            invariant
                n == chars@.len(),
                i <= n,
                self.find_spec(chars@) == self.seed_from(chars@, i as int),
            decreases n - i,
        {
            i = i + 1;
        }
        if i == n {
            let r: Vec<IndexedWord> = Vec::new();
            proof {
                assert(word_views(r@) =~= Seq::<(Seq<char>, u32)>::empty());
                assert(word_views(r@).to_set() =~= Set::<(Seq<char>, u32)>::empty());
            }
            return r;
        }
        // Seed: copy the bucket of the first character present as a key.
        let bi = match self.find_key(chars[i]) {
            Some(b) => b,
            None => {
                proof {
                    assert(false);
                }
                0
            },
        };
        proof {
            self.lemma_bucket_at(chars@[i as int], bi as int);
        }
        let mut out: Vec<IndexedWord> = Vec::new();
        let bucket_len = self.data[bi].words.len();
        let mut k: usize = 0;
        while k < bucket_len
            invariant
                bi < self.data@.len(),
                bucket_len == self.data@[bi as int].words@.len(),
                k <= bucket_len,
                word_views(out@) =~= word_views(self.data@[bi as int].words@).take(k as int),
            decreases bucket_len - k,
        {
            let ghost out_before = out@;
            let w = self.data[bi].words[k].duplicate();
            proof {
                assert(w == self.data@[bi as int].words@[k as int]);
            }
            out.push(w);
            proof {
                lemma_word_views_push(out_before, w);
                assert(word_views(out@) =~= word_views(self.data@[bi as int].words@).take(
                    k + 1,
                ));
            }
            k = k + 1;
        }
        proof {
            assert(word_views(out@) =~= word_views(self.data@[bi as int].words@));
            assert(self.wf());
            assert(word_views(out@).no_duplicates());
            assert(self.seed_from(chars@, i as int) == self.narrow_from(
                word_views(out@).to_set(),
                chars@,
                i + 1,
            ));
        }
        // Narrow: intersect with each later character present as a key.
        let mut j: usize = i + 1;
        while j < n
            invariant
                n == chars@.len(),
                j <= n,
                self.wf(),
                word_views(out@).no_duplicates(),
                self.find_spec(chars@) == self.narrow_from(
                    word_views(out@).to_set(),
                    chars@,
                    j as int,
                ),
            decreases n - j,
        {
            match self.find_key(chars[j]) {
                Some(cb) => {
                    proof {
                        self.lemma_bucket_at(chars@[j as int], cb as int);
                    }
                    let mut kept: Vec<IndexedWord> = Vec::new();
                    let out_len = out.len();
                    let mut k2: usize = 0;
                    while k2 < out_len
                        invariant
                            cb < self.data@.len(),
                            out_len == out@.len(),
                            k2 <= out_len,
                            word_views(out@).no_duplicates(),
                            word_views(kept@).no_duplicates(),
                            word_views(kept@).to_set() =~= word_views(out@).take(
                                k2 as int,
                            ).to_set().intersect(
                                word_views(self.data@[cb as int].words@).to_set(),
                            ),
                            forall|p: (Seq<char>, u32)|
                                word_views(kept@).to_set().contains(p) ==> word_views(
                                    out@,
                                ).take(k2 as int).to_set().contains(p),
                        decreases out_len - k2,
                    {
                        let ghost kept_before = kept@;
                        let w = &out[k2];
                        proof {
                            assert(word_views(out@).take(k2 + 1).drop_last() =~= word_views(
                                out@,
                            ).take(k2 as int));
                            assert(word_views(out@).take(k2 + 1).last() == w@);
                        }
                        if Self::find_word(&self.data[cb].words, w) {
                            let w2 = w.duplicate();
                            proof {
                                // The views of `out` are unique, so this view is
                                // absent from the kept prefix.
                                if word_views(kept_before).to_set().contains(w2@) {
                                    let t = word_views(out@).take(k2 as int);
                                    assert(t.to_set().contains(w2@));
                                    let q = choose|q: int| 0 <= q < t.len() && t[q] == w2@;
                                    assert(word_views(out@)[q] == w2@);
                                    assert(word_views(out@)[k2 as int] == w2@);
                                    assert(false);
                                }
                                assert(!word_views(kept_before).to_set().contains(w2@));
                            }
                            kept.push(w2);
                            proof {
                                lemma_word_views_push(kept_before, w2);
                                lemma_word_views_push_to_set(kept_before, w2);
                                assert(word_views(kept@).to_set() =~= word_views(
                                    kept_before,
                                ).to_set().insert(w@));
                                assert(word_views(out@).take(k2 + 1).to_set() =~= word_views(
                                    out@,
                                ).take(k2 as int).to_set().insert(w@));
                                assert forall|a: int, b: int|
                                    0 <= a < b < word_views(kept@).len() implies word_views(
                                    kept@,
                                )[a] != word_views(kept@)[b] by {
                                    if b == word_views(kept@).len() - 1 {
                                        assert(word_views(kept@)[b] == w2@);
                                        assert(word_views(kept@)[a] == word_views(kept_before)[a]);
                                        if word_views(kept_before)[a] == w2@ {
                                            assert(word_views(kept_before).contains(w2@));
                                        }
                                    } else {
                                        assert(word_views(kept@)[a] == word_views(kept_before)[a]);
                                        assert(word_views(kept@)[b] == word_views(kept_before)[b]);
                                    }
                                }
                                assert(word_views(kept@).no_duplicates());
                            }
                        } else {
                            proof {
                                assert(word_views(out@).take(k2 + 1).to_set() =~= word_views(
                                    out@,
                                ).take(k2 as int).to_set().insert(w@));
                                assert(word_views(kept@).to_set() =~= word_views(out@).take(
                                    k2 + 1,
                                ).to_set().intersect(
                                    word_views(self.data@[cb as int].words@).to_set(),
                                ));
                            }
                        }
                        k2 = k2 + 1;
                    }
                    proof {
                        assert(word_views(out@).take(out_len as int) =~= word_views(out@));
                    }
                    out = kept;
                }
                None => {
                },
            }
            j = j + 1;
        }
        out
    }

    /// The narrowing rule of `find`, scanning for the seed from position `i`.
    pub open spec fn seed_from(&self, chars: Seq<char>, i: int) -> Set<(Seq<char>, u32)>
        decreases chars.len() - i when 0 <= i <= chars.len()
    {
        if i >= chars.len() {
            Set::<(Seq<char>, u32)>::empty()
        } else if self.spec_has_key(chars[i]) {
            self.narrow_from(self.spec_bucket(chars[i]), chars, i + 1)
        } else {
            self.seed_from(chars, i + 1)
        }
    }

    /// Intersects `acc` with the buckets of the remaining key characters;
    /// characters absent as keys narrow nothing.
    pub open spec fn narrow_from(
        &self,
        acc: Set<(Seq<char>, u32)>,
        chars: Seq<char>,
        i: int,
    ) -> Set<(Seq<char>, u32)>
        decreases chars.len() - i when 0 <= i <= chars.len()
    {
        if i >= chars.len() {
            acc
        } else if self.spec_has_key(chars[i]) {
            self.narrow_from(acc.intersect(self.spec_bucket(chars[i])), chars, i + 1)
        } else {
            self.narrow_from(acc, chars, i + 1)
        }
    }

    /// What `find` returns, as a set of word views.
    pub open spec fn find_spec(&self, chars: Seq<char>) -> Set<(Seq<char>, u32)> {
        self.seed_from(chars, 0)
    }

    /// The deliberate quirk, stated: a character after the seed that is
    /// not a key contributes no constraint — narrowing continues past it
    /// with the candidate set unchanged, rather than emptying it.
    pub proof fn lemma_absent_char_narrows_nothing(
        &self,
        acc: Set<(Seq<char>, u32)>,
        chars: Seq<char>,
        i: int,
    )
        requires
            0 <= i < chars.len(),
            !self.spec_has_key(chars[i]),
        ensures
            self.narrow_from(acc, chars, i) == self.narrow_from(acc, chars, i + 1),
    {
    }
}

} // verus!
