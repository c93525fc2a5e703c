use vstd::prelude::*;
use crate::text::{chars_come_before, chars_of, precedes, same_chars, text_of};
use crate::text::{precedes_is_irreflexive, precedes_is_total, precedes_is_transitive};

verus! {

/// Each text comes before the next.
pub open spec fn strictly_sorted(texts: Seq<Seq<char>>) -> bool {
    forall|i: int, j: int|
        0 <= i < j < texts.len() ==> precedes(#[trigger] texts[i], #[trigger] texts[j])
}

/// In a sequence in which each text comes before the next, no text stands twice.
pub proof fn sorted_texts_are_distinct(texts: Seq<Seq<char>>)
    requires
        strictly_sorted(texts),
    ensures
        texts.no_duplicates(),
{
    assert forall|i: int, j: int| 0 <= i < texts.len() && 0 <= j < texts.len() && i != j implies texts[i]
        != texts[j] by {
        precedes_is_irreflexive(texts[i]);
        if i < j {
            assert(precedes(texts[i], texts[j]));
        } else {
            assert(precedes(texts[j], texts[i]));
        }
    }
}

/// Texts that are kept in order, each once.
#[derive(Debug)]
pub struct SortedTexts {
    keys: Vec<Vec<char>>,
}

impl View for SortedTexts {
    type V = Seq<Seq<char>>;

    /// The texts, in order.
    closed spec fn view(&self) -> Seq<Seq<char>> {
        self.keys.deep_view()
    }
}

impl SortedTexts {
    #[verifier::type_invariant]
    spec fn inv(self) -> bool {
        strictly_sorted(self.keys.deep_view())
    }

    /// No texts.
    pub fn new() -> (texts: SortedTexts)
        ensures
            texts@ == Seq::<Seq<char>>::empty(),
    {
        let texts = SortedTexts { keys: Vec::new() };
        assert(texts.keys.deep_view() =~= Seq::<Seq<char>>::empty());
        texts
    }

    /// The place of the first text that does not come before `key`: all
    /// texts before that place come before `key`, none from there on does.
    fn position(&self, key: &Vec<char>) -> (place: usize)
        ensures
            place <= self@.len(),
            forall|i: int| 0 <= i < place ==> precedes(#[trigger] self@[i], key@),
            forall|i: int| place <= i < self@.len() ==> !precedes(#[trigger] self@[i], key@),
    {
        proof {
            use_type_invariant(self);
        }
        let ghost texts = self.keys.deep_view();
        let mut low: usize = 0;
        let mut high: usize = self.keys.len();
        while low < high
            invariant
                low <= high <= self.keys@.len(),
                texts == self.keys.deep_view(),
                strictly_sorted(texts),
                forall|i: int| 0 <= i < low ==> precedes(#[trigger] texts[i], key@),
                forall|i: int| high <= i < texts.len() ==> !precedes(#[trigger] texts[i], key@),
            decreases high - low,
        {
            let middle: usize = low + (high - low) / 2;
            assert(texts[middle as int] == self.keys@[middle as int]@);
            if chars_come_before(&self.keys[middle], key) {
                assert forall|i: int| 0 <= i < middle + 1 implies precedes(
                    #[trigger] texts[i],
                    key@,
                ) by {
                    if i < middle {
                        precedes_is_transitive(texts[i], texts[middle as int], key@);
                    }
                }
                low = middle + 1;
            } else {
                assert forall|i: int| middle <= i < texts.len() implies !precedes(
                    #[trigger] texts[i],
                    key@,
                ) by {
                    if middle < i && precedes(texts[i], key@) {
                        precedes_is_transitive(texts[middle as int], texts[i], key@);
                    }
                }
                high = middle;
            }
        }
        low
    }

    /// Whether `text` is among the texts.
    pub fn contains(&self, text: &str) -> (found: bool)
        ensures
            found == self@.contains(text@),
    {
        proof {
            use_type_invariant(self);
        }
        let key = chars_of(text);
        let place: usize = self.position(&key);
        let ghost texts = self.keys.deep_view();
        if place < self.keys.len() && same_chars(&self.keys[place], &key) {
            assert(texts[place as int] == text@);
            true
        } else {
            assert forall|i: int| 0 <= i < texts.len() implies texts[i] != text@ by {
                precedes_is_irreflexive(text@);
                if place < i {
                    assert(!precedes(texts[place as int], text@));
                    assert(texts[place as int] == self.keys@[place as int]@);
                    precedes_is_total(texts[place as int], text@);
                    assert(precedes(texts[place as int], texts[i]));
                    if texts[i] == text@ {
                        precedes_is_transitive(text@, texts[place as int], texts[i]);
                    }
                } else if i == place {
                    assert(texts[place as int] == self.keys@[place as int]@);
                }
            }
            false
        }
    }

    /// The texts with `text` added at its place, unless it is there already.
    pub fn insert(self, text: &str) -> (added: SortedTexts)
        ensures
            strictly_sorted(added@),
            added@.to_set() == self@.to_set().insert(text@),
            self@.contains(text@) ==> added@ == self@,
            !self@.contains(text@) ==> added@.len() == self@.len() + 1,
    {
        proof {
            use_type_invariant(&self);
        }
        let key = chars_of(text);
        let place: usize = self.position(&key);
        let ghost before = self.keys.deep_view();
        if place < self.keys.len() && same_chars(&self.keys[place], &key) {
            assert(before[place as int] == text@);
            assert(before.to_set() =~= before.to_set().insert(text@));
            return self;
        }
        proof {
            precedes_is_irreflexive(text@);
            if place < before.len() {
                assert(before[place as int] == self.keys@[place as int]@);
                precedes_is_total(before[place as int], text@);
                assert forall|j: int| place <= j < before.len() implies precedes(
                    text@,
                    #[trigger] before[j],
                ) by {
                    if place < j {
                        precedes_is_transitive(text@, before[place as int], before[j]);
                    }
                }
            }
            assert forall|i: int| 0 <= i < before.len() implies before[i] != text@ by {
                if i < place {
                    assert(precedes(before[i], text@));
                } else {
                    assert(precedes(text@, before[i]));
                }
            }
            let after = before.insert(place as int, text@);
            assert forall|a: int, b: int| 0 <= a < b < after.len() implies precedes(
                #[trigger] after[a],
                #[trigger] after[b],
            ) by {
                if a < place && b > place {
                    assert(after[a] == before[a]);
                    assert(after[b] == before[b - 1]);
                } else if a < place && b < place {
                    assert(after[a] == before[a]);
                    assert(after[b] == before[b]);
                } else if a > place {
                    assert(after[a] == before[a - 1]);
                    assert(after[b] == before[b - 1]);
                }
            }
            assert(after.to_set() =~= before.to_set().insert(text@)) by {
                assert forall|p: Seq<char>| after.to_set().contains(p) implies before.to_set().insert(
                    text@,
                ).contains(p) by {
                    let k = choose|k: int| 0 <= k < after.len() && after[k] == p;
                    if k < place {
                        assert(before[k] == p);
                    } else if k > place {
                        assert(before[k - 1] == p);
                    }
                }
                assert forall|p: Seq<char>| before.to_set().insert(text@).contains(
                    p,
                ) implies after.to_set().contains(p) by {
                    if p == text@ {
                        assert(after[place as int] == p);
                    } else {
                        let k = choose|k: int| 0 <= k < before.len() && before[k] == p;
                        if k < place {
                            assert(after[k] == p);
                        } else {
                            assert(after[k + 1] == p);
                        }
                    }
                }
            }
        }
        let SortedTexts { mut keys } = self;
        let ghost keys_before = keys@;
        keys.insert(place, key);
        assert(keys.deep_view() =~= before.insert(place as int, text@)) by {
            assert(keys@ == keys_before.insert(place as int, key));
            assert forall|i: int| 0 <= i < keys@.len() implies keys.deep_view()[i] == before.insert(
                place as int,
                text@,
            )[i] by {
                if i < place {
                    assert(keys@[i] == keys_before[i]);
                    assert(before[i] == keys_before[i]@);
                } else if i > place {
                    assert(keys@[i] == keys_before[i - 1]);
                    assert(before[i - 1] == keys_before[i - 1]@);
                }
            }
        }
        SortedTexts { keys }
    }

    /// The texts, in order.
    pub fn into_texts(self) -> (texts: Vec<String>)
        ensures
            texts.deep_view() == self@,
            strictly_sorted(self@),
    {
        proof {
            use_type_invariant(&self);
        }
        let ghost all = self.keys.deep_view();
        let mut texts: Vec<String> = Vec::new();
        let mut i: usize = 0;
        while i < self.keys.len()
            invariant
                i <= self.keys@.len(),
                all == self.keys.deep_view(),
                texts.deep_view() =~= all.take(i as int),
            decreases self.keys@.len() - i,
        {
            let key = &self.keys[i];
            let text = text_of(key, 0, key.len());
            assert(text@ =~= key@);
            assert(all[i as int] == key@);
            let ghost before = texts.deep_view();
            texts.push(text);
            assert(texts.deep_view() =~= before.push(text@));
            i += 1;
        }
        assert(all.take(i as int) =~= all);
        texts
    }
}

} // verus!
