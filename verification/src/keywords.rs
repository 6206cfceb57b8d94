//! Keyword gating: which rules are worth trying on a line.
//!
//! A rule with keywords is tried only on lines that contain one of them,
//! letter case set aside; a rule without keywords is tried on every line.
//! The index answers this for all rules of a scan with one search of the
//! line for each distinct keyword.

use vstd::prelude::*;
use crate::models::{Rule, RuleView, rule_views};
use crate::text::{contains, lowercase, occurs_in, to_lowercase};

verus! {

/// The rule is tried on a line whose lower-case form is `low_line`.
pub open spec fn is_candidate(rule: RuleView, low_line: Seq<char>) -> bool {
    rule.keywords.len() == 0 || exists|k: int|
        0 <= k < rule.keywords.len() && occurs_in(lowercase(#[trigger] rule.keywords[k]), low_line)
}

/// The positions below `n` of the rules that are tried, in ascending order.
pub open spec fn candidates_upto(rules: Seq<RuleView>, low_line: Seq<char>, n: nat) -> Seq<usize>
    decreases n,
{
    if n == 0 {
        Seq::empty()
    } else if is_candidate(rules[n - 1], low_line) {
        candidates_upto(rules, low_line, (n - 1) as nat).push((n - 1) as usize)
    } else {
        candidates_upto(rules, low_line, (n - 1) as nat)
    }
}

/// The positions of the rules that are tried on `line`, in ascending order.
pub open spec fn candidate_indices(rules: Seq<RuleView>, line: Seq<char>) -> Seq<usize> {
    candidates_upto(rules, lowercase(line), rules.len())
}

/// The positions of all rules, in ascending order.
pub open spec fn all_indices(n: nat) -> Seq<usize> {
    Seq::new(n, |i: int| i as usize)
}

/// `word` is the lower-case form of one of the rule's keywords.
pub open spec fn rule_has_word(rule: RuleView, word: Seq<char>) -> bool {
    exists|k: int| 0 <= k < rule.keywords.len() && lowercase(#[trigger] rule.keywords[k]) == word
}

/// For each keyword of a list of keywords, the rules that have it; and the
/// rules that have no keyword at all. The list holds the keywords in lower
/// case, each once, and is kept beside the index.
#[derive(Debug)]
pub struct KeywordIndex {
    /// At the position of each keyword, the positions of the rules that
    /// have it.
    pub rules: Vec<Vec<usize>>,
    /// The positions of the rules without keywords.
    pub always: Vec<usize>,
}

impl KeywordIndex {
    /// The index lists rule `r` under `word`.
    pub open spec fn lists(&self, words: Seq<String>, r: int, word: Seq<char>) -> bool {
        exists|e: int, j: int|
            0 <= e < words.len() && 0 <= j < self.rules[e].len() && words[e]@ == word
                && #[trigger] self.rules[e][j] == r
    }

    /// The index names `r` among the rules without keywords.
    pub open spec fn lists_always(&self, r: int) -> bool {
        exists|j: int| 0 <= j < self.always.len() && #[trigger] self.always[j] == r
    }

    /// There is one list of rules for each keyword, and no keyword twice.
    pub open spec fn shaped(&self, words: Seq<String>) -> bool {
        &&& self.rules.len() == words.len()
        &&& forall|e: int, f: int|
            0 <= e < f < words.len() ==> (#[trigger] words[e])@ != (
            #[trigger] words[f])@
    }

    /// What the index lists is true of `rules`.
    pub open spec fn sound_for(&self, words: Seq<String>, rules: Seq<RuleView>) -> bool {
        &&& forall|r: int, word: Seq<char>| #[trigger]
            self.lists(words, r, word) ==> 0 <= r < rules.len() && rule_has_word(rules[r], word)
        &&& forall|r: int| #[trigger]
            self.lists_always(r) ==> 0 <= r < rules.len() && rules[r].keywords.len() == 0
    }

    /// The index lists the first `k` keywords of the rule at `r`, and all
    /// that is to list of the rules before it.
    pub open spec fn covers_upto(&self, words: Seq<String>, rules: Seq<RuleView>, r: int, k: int) -> bool {
        &&& forall|q: int, i: int|
            0 <= q < rules.len() && 0 <= i < rules[q].keywords.len() && (q < r || (q == r && i < k))
                ==> self.lists(words, q, lowercase(#[trigger] rules[q].keywords[i]))
        &&& forall|q: int|
            0 <= q < rules.len() && q < r && (#[trigger] rules[q]).keywords.len() == 0
                ==> self.lists_always(q)
    }

    /// The index says of `rules` exactly what their keywords say.
    pub open spec fn describes(&self, words: Seq<String>, rules: Seq<RuleView>) -> bool {
        &&& self.shaped(words)
        &&& self.sound_for(words, rules)
        &&& self.covers_upto(words, rules, rules.len() as int, 0)
    }

    /// Lists rule `r` under `word`, which is in lower case, putting the word
    /// on the list of keywords if it is new.
    pub fn add_word(&mut self, words: &mut Vec<String>, r: usize, word: String)
        requires
            old(self).shaped(old(words)@),
        ensures
            final(self).shaped(final(words)@),
            final(self).always == old(self).always,
            forall|q: int, w: Seq<char>|
                final(self).lists(final(words)@, q, w) <==> old(self).lists(old(words)@, q, w) || (q == r && w == word@),
    {
        let mut e: usize = 0;
        while e < words.len() && !(words[e] == word)
            invariant
                e <= words.len(),
                self == old(self),
                words == old(words),
                forall|d: int| 0 <= d < e ==> (#[trigger] words[d])@ != word@,
            decreases words.len() - e,
        {
            e += 1;
        }
        let ghost before = *old(self);
        let ghost before_words = old(words)@;
        if e < words.len() {
            let ghost j = self.rules[e as int].len() as int;
            self.rules[e].push(r);
            let ghost after = *self;
            let ghost after_words = words@;
            proof {
                assert(after.rules[e as int][j] == r);
                assert(after.lists(after_words, r as int, word@));
                assert forall|q: int, w: Seq<char>| before.lists(before_words, q, w) implies after.lists(after_words, q, w) by {
                    let (d, i) = choose|d: int, i: int|
                        0 <= d < before_words.len() && 0 <= i < before.rules[d].len()
                            && before_words[d]@ == w && #[trigger] before.rules[d][i] == q;
                    assert(after.rules[d][i] == q);
                }
                assert forall|q: int, w: Seq<char>| after.lists(after_words, q, w) implies before.lists(before_words, q, w) || (q == r
                    && w == word@) by {
                    let (d, i) = choose|d: int, i: int|
                        0 <= d < after_words.len() && 0 <= i < after.rules[d].len()
                            && after_words[d]@ == w && #[trigger] after.rules[d][i] == q;
                    if d == e && i == j {
                    } else {
                        assert(before.rules[d][i] == q);
                    }
                }
            }
        } else {
            let mut listed: Vec<usize> = Vec::new();
            listed.push(r);
            let ghost at = words.len() as int;
            words.push(word);
            self.rules.push(listed);
            let ghost after = *self;
            let ghost after_words = words@;
            proof {
                assert(after.rules[at][0] == r);
                assert(after.lists(after_words, r as int, word@));
                assert forall|q: int, w: Seq<char>| before.lists(before_words, q, w) implies after.lists(after_words, q, w) by {
                    let (d, i) = choose|d: int, i: int|
                        0 <= d < before_words.len() && 0 <= i < before.rules[d].len()
                            && before_words[d]@ == w && #[trigger] before.rules[d][i] == q;
                    assert(after.rules[d][i] == q);
                }
                assert forall|q: int, w: Seq<char>| after.lists(after_words, q, w) implies before.lists(before_words, q, w) || (q == r
                    && w == word@) by {
                    let (d, i) = choose|d: int, i: int|
                        0 <= d < after_words.len() && 0 <= i < after.rules[d].len()
                            && after_words[d]@ == w && #[trigger] after.rules[d][i] == q;
                    if d == at {
                    } else {
                        assert(before.rules[d][i] == q);
                    }
                }
            }
        }
    }

    /// What `sound_for` says, entry by entry.
    pub open spec fn entries_sound_for(&self, words: Seq<String>, rules: Seq<RuleView>) -> bool {
        &&& forall|e: int, j: int|
            0 <= e < words.len() && 0 <= j < self.rules[e].len() ==> {
                &&& (#[trigger] self.rules[e][j]) < rules.len()
                &&& rule_has_word(rules[self.rules[e][j] as int], words[e]@)
            }
        &&& forall|j: int|
            0 <= j < self.always.len() ==> {
                &&& (#[trigger] self.always[j]) < rules.len()
                &&& rules[self.always[j] as int].keywords.len() == 0
            }
    }

    /// An index that is sound for the rules is so entry by entry.
    pub proof fn lemma_entries_sound(&self, words: Seq<String>, rules: Seq<RuleView>)
        requires
            self.shaped(words),
            self.sound_for(words, rules),
        ensures
            self.entries_sound_for(words, rules),
    {
        assert forall|e: int, j: int|
            0 <= e < words.len() && 0 <= j < self.rules[e].len() implies {
            &&& (#[trigger] self.rules[e][j]) < rules.len()
            &&& rule_has_word(rules[self.rules[e][j] as int], words[e]@)
        } by {
            assert(self.lists(words, self.rules[e][j] as int, words[e]@));
        }
        assert forall|j: int| 0 <= j < self.always.len() implies {
            &&& (#[trigger] self.always[j]) < rules.len()
            &&& rules[self.always[j] as int].keywords.len() == 0
        } by {
            assert(self.lists_always(self.always[j] as int));
        }
    }

    /// An index of no rules and no keywords: it lists nothing.
    pub fn new() -> (index: KeywordIndex)
        ensures
            index.describes(Seq::empty(), Seq::empty()),
            index.rules@.len() == 0,
            index.always@.len() == 0,
    {
        KeywordIndex { rules: Vec::new(), always: Vec::new() }
    }

    /// The keywords of `rules` in lower case, each once and in the order in
    /// which the rules name them, and the index that goes with this list.
    pub fn for_rules(rules: &Vec<Rule>) -> (built: (Vec<String>, KeywordIndex))
        ensures
            built.1.describes(built.0@, rule_views(rules@)),
    {
        let ghost views = rule_views(rules@);
        let mut words: Vec<String> = Vec::new();
        let mut index = KeywordIndex::new();
        let mut r: usize = 0;
        while r < rules.len()
            invariant
                r <= rules.len(),
                views == rule_views(rules@),
                index.shaped(words@),
                index.sound_for(words@, views),
                index.covers_upto(words@, views, r as int, 0),
            decreases rules.len() - r,
        {
            let rule = &rules[r];
            assert(views[r as int] == rule@);
            if rule.keywords.len() == 0 {
                let ghost before = index;
                let ghost before_words = words@;
                let ghost at = index.always.len() as int;
                index.always.push(r);
                proof {
                    assert(index.always[at] == r);
                    assert forall|q: int, w: Seq<char>| index.lists(words@, q, w) implies before.lists(before_words, q, w) by {
                        let (d, i) = choose|d: int, i: int|
                            0 <= d < words.len() && 0 <= i < index.rules[d].len()
                                && words[d]@ == w && #[trigger] index.rules[d][i] == q;
                        assert(before.rules[d][i] == q);
                    }
                    assert forall|q: int, w: Seq<char>| before.lists(before_words, q, w) implies index.lists(words@, q, w) by {
                        let (d, i) = choose|d: int, i: int|
                            0 <= d < before_words.len() && 0 <= i < before.rules[d].len()
                                && before_words[d]@ == w && #[trigger] before.rules[d][i] == q;
                        assert(index.rules[d][i] == q);
                    }
                    assert forall|q: int| index.lists_always(q) implies before.lists_always(q) || q == r by {
                        let j = choose|j: int| 0 <= j < index.always.len() && #[trigger] index.always[j] == q;
                        if j < at {
                            assert(before.always[j] == q);
                        }
                    }
                    assert forall|q: int| before.lists_always(q) implies index.lists_always(q) by {
                        let j = choose|j: int| 0 <= j < before.always.len() && #[trigger] before.always[j] == q;
                        assert(index.always[j] == q);
                    }
                    assert(index.lists_always(r as int));
                    assert forall|q: int, w: Seq<char>| #[trigger]
                        index.lists(words@, q, w) implies 0 <= q < views.len() && rule_has_word(
                        views[q],
                        w,
                    ) by {
                        assert(before.lists(before_words, q, w));
                    }
                    assert forall|q: int| #[trigger] index.lists_always(q) implies 0 <= q < views.len()
                        && views[q].keywords.len() == 0 by {
                        if q != r {
                            assert(before.lists_always(q));
                        }
                    }
                }
            } else {
                let mut k: usize = 0;
                while k < rule.keywords.len()
                    invariant
                        k <= rule.keywords.len(),
                        r < rules.len(),
                        rule == &rules[r as int],
                        rule.keywords.len() > 0,
                        views == rule_views(rules@),
                        index.shaped(words@),
                        index.sound_for(words@, views),
                        index.covers_upto(words@, views, r as int, k as int),
                    decreases rule.keywords.len() - k,
                {
                    let low = to_lowercase(rule.keywords[k].as_str());
                    let ghost before = index;
                    let ghost before_words = words@;
                    assert(views[r as int].keywords[k as int] == rule.keywords[k as int]@);
                    index.add_word(&mut words, r, low);
                    proof {
                        assert(rule_has_word(views[r as int], low@));
                        assert forall|q: int| index.lists_always(q) == before.lists_always(q) by {
                            if before.lists_always(q) {
                                let j = choose|j: int|
                                    0 <= j < before.always.len() && #[trigger] before.always[j] == q;
                                assert(index.always[j] == q);
                            }
                            if index.lists_always(q) {
                                let j = choose|j: int|
                                    0 <= j < index.always.len() && #[trigger] index.always[j] == q;
                                assert(before.always[j] == q);
                            }
                        }
                    }
                    k += 1;
                }
            }
            r += 1;
        }
        (words, index)
    }

    /// The positions of the rules that are tried on `line`, in ascending
    /// order. `words` and `rules` are the keywords and the rules that the
    /// index was built for.
    pub fn candidate_rules(&self, words: &Vec<String>, rules: &Vec<Rule>, line: &str) -> (cands: Vec<usize>)
        requires
            self.describes(words@, rule_views(rules@)),
        ensures
            cands@ == candidate_indices(rule_views(rules@), line@),
    {
        let ghost described = rule_views(rules@);
        let rules = rules.len();
        let low = to_lowercase(line);
        proof {
            self.lemma_entries_sound(words@, described);
        }
        let mut flags: Vec<bool> = Vec::new();
        let mut r: usize = 0;
        while r < rules
            invariant
                r <= rules,
                flags.len() == r,
                forall|i: int| 0 <= i < r ==> !flags[i],
            decreases rules - r,
        {
            flags.push(false);
            r += 1;
        }
        let mut a: usize = 0;
        while a < self.always.len()
            invariant
                a <= self.always.len(),
                self.shaped(words@),
                self.entries_sound_for(words@, described),
                described.len() == rules,
                flags.len() == rules,
                forall|i: int| 0 <= i < rules && flags[i] ==> is_candidate(described[i], low@),
                forall|j: int| 0 <= j < a ==> flags[(#[trigger] self.always[j]) as int],
            decreases self.always.len() - a,
        {
            flags.set(self.always[a], true);
            a += 1;
        }
        let mut e: usize = 0;
        while e < words.len()
            invariant
                e <= words.len(),
                self.shaped(words@),
                self.entries_sound_for(words@, described),
                described.len() == rules,
                flags.len() == rules,
                forall|i: int| 0 <= i < rules && flags[i] ==> is_candidate(described[i], low@),
                forall|j: int| 0 <= j < self.always.len() ==> flags[(#[trigger] self.always[j]) as int],
                forall|d: int, j: int|
                    0 <= d < e && 0 <= j < self.rules[d].len() && occurs_in(words[d]@, low@)
                        ==> flags[(#[trigger] self.rules[d][j]) as int],
            decreases words.len() - e,
        {
            if contains(low.as_str(), words[e].as_str()) {
                let listed = &self.rules[e];
                let mut j: usize = 0;
                while j < listed.len()
                    invariant
                        j <= listed.len(),
                        e < words.len(),
                        listed == self.rules[e as int],
                        occurs_in(words[e as int]@, low@),
                        self.shaped(words@),
                self.entries_sound_for(words@, described),
                        described.len() == rules,
                        flags.len() == rules,
                        forall|i: int| 0 <= i < rules && flags[i] ==> is_candidate(described[i], low@),
                        forall|j: int|
                            0 <= j < self.always.len() ==> flags[(#[trigger] self.always[j]) as int],
                        forall|d: int, j: int|
                            0 <= d < e && 0 <= j < self.rules[d].len() && occurs_in(
                                words[d]@,
                                low@,
                            ) ==> flags[(#[trigger] self.rules[d][j]) as int],
                        forall|i: int| 0 <= i < j ==> flags[(#[trigger] listed[i]) as int],
                    decreases listed.len() - j,
                {
                    let named = listed[j];
                    proof {
                        let t = self.rules[e as int][j as int];
                        assert(named == t);
                        let k = choose|k: int|
                            0 <= k < described[t as int].keywords.len() && lowercase(
                                #[trigger] described[t as int].keywords[k],
                            ) == words[e as int]@;
                        assert(occurs_in(lowercase(described[t as int].keywords[k]), low@));
                    }
                    flags.set(named, true);
                    j += 1;
                }
            }
            e += 1;
        }
        assert forall|i: int| 0 <= i < rules implies flags[i] == is_candidate(described[i], low@) by {
            assert(self.covers_upto(words@, described, described.len() as int, 0));
            if is_candidate(described[i], low@) {
                if described[i].keywords.len() == 0 {
                    assert(self.lists_always(i));
                } else {
                    let k = choose|k: int|
                        0 <= k < described[i].keywords.len() && occurs_in(
                            lowercase(#[trigger] described[i].keywords[k]),
                            low@,
                        );
                    assert(self.lists(words@, i, lowercase(described[i].keywords[k])));
                }
            }
        }
        let mut cands: Vec<usize> = Vec::new();
        let mut i: usize = 0;
        while i < rules
            invariant
                i <= rules,
                described.len() == rules,
                flags.len() == rules,
                forall|i: int| 0 <= i < rules ==> flags[i] == is_candidate(described[i], low@),
                cands@ == candidates_upto(described, low@, i as nat),
            decreases rules - i,
        {
            if flags[i] {
                cands.push(i);
            }
            i += 1;
        }
        cands
    }
}

} // verus!
