//! The per-category `LC_*` overrides: a map from category name to locale
//! code, kept in ascending key order.

use vstd::prelude::*;

use crate::code::LocaleCode;
use crate::text::{
    chars_of, compare_chars, lemma_lex_irreflexive, lemma_lex_transitive, lex_lt,
};

verus! {

/// The views of key/code pairs.
pub open spec fn keyed(e: Seq<(String, LocaleCode)>) -> Seq<(Seq<char>, Seq<char>)> {
    e.map_values(|p: (String, LocaleCode)| (p.0@, p.1@))
}

/// Keys in strictly ascending order (so no key occurs twice).
pub open spec fn sorted_keys(e: Seq<(Seq<char>, Seq<char>)>) -> bool {
    forall|i: int, j: int| 0 <= i < j < e.len() ==> lex_lt(#[trigger] e[i].0, #[trigger] e[j].0)
}

/// Whether some pair has key `k`.
pub open spec fn has_key(e: Seq<(Seq<char>, Seq<char>)>, k: Seq<char>) -> bool {
    exists|i: int| 0 <= i < e.len() && #[trigger] e[i].0 == k
}

/// The map that a list of pairs with distinct keys describes.
pub open spec fn kv_map(e: Seq<(Seq<char>, Seq<char>)>) -> Map<Seq<char>, Seq<char>> {
    Map::new(
        |k: Seq<char>| has_key(e, k),
        |k: Seq<char>| e[choose|i: int| 0 <= i < e.len() && #[trigger] e[i].0 == k].1,
    )
}

/// In a sorted list, a key sits at one position only, and the map gives
/// that position's value.
pub proof fn lemma_sorted_lookup(e: Seq<(Seq<char>, Seq<char>)>, i: int)
    requires
        sorted_keys(e),
        0 <= i < e.len(),
    ensures
        kv_map(e).dom().contains(e[i].0),
        kv_map(e)[e[i].0] == e[i].1,
        forall|j: int| 0 <= j < e.len() && e[j].0 == e[i].0 ==> j == i,
{
    assert forall|j: int| 0 <= j < e.len() && e[j].0 == e[i].0 implies j == i by {
        if j < i {
            assert(lex_lt(e[j].0, e[i].0));
            lemma_lex_irreflexive(e[i].0);
        } else if i < j {
            assert(lex_lt(e[i].0, e[j].0));
            lemma_lex_irreflexive(e[i].0);
        }
    }
    assert(has_key(e, e[i].0));
}

/// The `LC_*` overrides of a locale configuration, in ascending key order.
#[derive(Debug, PartialEq, Eq)]
pub struct LcOverrides {
    pairs: Vec<(String, LocaleCode)>,
}

impl LcOverrides {
    #[verifier::type_invariant]
    closed spec fn wf(self) -> bool {
        sorted_keys(keyed(self.pairs@))
    }

    /// The key/code pairs in ascending key order.
    pub closed spec fn entries(self) -> Seq<(Seq<char>, Seq<char>)> {
        keyed(self.pairs@)
    }
}

impl View for LcOverrides {
    type V = Map<Seq<char>, Seq<char>>;

    open spec fn view(&self) -> Map<Seq<char>, Seq<char>> {
        kv_map(self.entries())
    }
}

impl LcOverrides {
    /// No overrides.
    pub fn new() -> (r: Self)
        ensures
            r.entries() == Seq::<(Seq<char>, Seq<char>)>::empty(),
            r@ == Map::<Seq<char>, Seq<char>>::empty(),
    {
        let r = LcOverrides { pairs: Vec::new() };
        assert(r.entries() =~= Seq::<(Seq<char>, Seq<char>)>::empty());
        assert(r@ =~= Map::<Seq<char>, Seq<char>>::empty());
        r
    }

    /// Whether there is no override.
    pub fn is_empty(&self) -> (b: bool)
        ensures
            b == (self@ == Map::<Seq<char>, Seq<char>>::empty()),
            b == (self.entries().len() == 0),
    {
        let b = self.pairs.len() == 0;
        if b {
            assert(self@ =~= Map::<Seq<char>, Seq<char>>::empty());
        } else {
            assert(has_key(self.entries(), self.entries()[0].0));
            assert(self@.dom().contains(self.entries()[0].0));
        }
        b
    }

    /// The number of overrides.
    pub fn len(&self) -> (n: usize)
        ensures
            n == self.entries().len(),
    {
        self.pairs.len()
    }

    /// The key/code pairs in ascending key order.
    pub fn pairs(&self) -> (r: &[(String, LocaleCode)])
        ensures
            keyed(r@) == self.entries(),
            sorted_keys(self.entries()),
            kv_map(self.entries()) == self@,
    {
        proof {
            use_type_invariant(self);
        }
        self.pairs.as_slice()
    }

    /// The position of `key`, or of the first key above it.
    fn position(&self, key: &[char]) -> (r: (usize, bool))
        ensures
            r.0 <= self.entries().len(),
            forall|j: int| 0 <= j < r.0 ==> lex_lt(#[trigger] self.entries()[j].0, key@),
            r.1 ==> r.0 < self.entries().len() && self.entries()[r.0 as int].0 == key@,
            !r.1 ==> r.0 < self.entries().len() ==> lex_lt(key@, self.entries()[r.0 as int].0),
    {
        proof {
            use_type_invariant(self);
        }
        let mut i: usize = 0;
        while i < self.pairs.len()
            invariant
                i <= self.entries().len(),
                self.entries().len() == self.pairs@.len(),
                sorted_keys(self.entries()),
                forall|j: int| 0 <= j < i ==> lex_lt(#[trigger] self.entries()[j].0, key@),
            decreases self.pairs@.len() - i,
        {
            let k = chars_of(self.pairs[i].0.as_str());
            assert(k@ == self.entries()[i as int].0);
            let c = compare_chars(&k, key);
            if c == 0 {
                return (i, true);
            }
            if c > 0 {
                return (i, false);
            }
            i = i + 1;
        }
        (i, false)
    }

    /// The code for `key`, if it has an override.
    pub fn get_chars(&self, key: &[char]) -> (r: Option<&LocaleCode>)
        ensures
            r is Some <==> self@.dom().contains(key@),
            r matches Some(c) ==> c@ == self@[key@],
    {
        proof {
            use_type_invariant(self);
        }
        let (i, found) = self.position(key);
        if found {
            proof {
                lemma_sorted_lookup(self.entries(), i as int);
            }
            Some(&self.pairs[i].1)
        } else {
            proof {
                assert forall|j: int| 0 <= j < self.entries().len() implies self.entries()[j].0
                    != key@ by {
                    if j >= i {
                        if j > i {
                            assert(lex_lt(self.entries()[i as int].0, self.entries()[j].0));
                            lemma_lex_transitive(
                                key@,
                                self.entries()[i as int].0,
                                self.entries()[j].0,
                            );
                        }
                        lemma_lex_irreflexive(key@);
                    } else {
                        lemma_lex_irreflexive(key@);
                    }
                }
            }
            None
        }
    }

    /// The code for `key`, if it has an override.
    pub fn get(&self, key: &str) -> (r: Option<&LocaleCode>)
        ensures
            r is Some <==> self@.dom().contains(key@),
            r matches Some(c) ==> c@ == self@[key@],
    {
        let k = chars_of(key);
        self.get_chars(&k)
    }

    /// Sets the override for `key` to `value`, replacing any earlier one.
    pub fn insert(&mut self, key: String, value: LocaleCode)
        ensures
            final(self)@ == old(self)@.insert(key@, value@),
    {
        proof {
            use_type_invariant(&*self);
        }
        let k = chars_of(key.as_str());
        let (i, found) = self.position(&k);
        let ghost old_e = self.entries();
        let mut pairs: Vec<(String, LocaleCode)> = Vec::new();
        std::mem::swap(&mut pairs, &mut self.pairs);
        assert(keyed(pairs@) == old_e);
        if found {
            pairs.set(i, (key, value));
        } else {
            pairs.insert(i, (key, value));
        }
        let ghost new_e = keyed(pairs@);
        proof {
            if found {
                assert(new_e =~= old_e.update(i as int, (k@, value@)));
            } else {
                assert(new_e =~= old_e.insert(i as int, (k@, value@)));
            }
            assert forall|a: int, b: int| 0 <= a < b < new_e.len() implies lex_lt(
                #[trigger] new_e[a].0,
                #[trigger] new_e[b].0,
            ) by {
                if found {
                    if a == i {
                        assert(lex_lt(old_e[a].0, old_e[b].0));
                    } else if b == i {
                        assert(lex_lt(old_e[a].0, old_e[b].0));
                    } else {
                        assert(lex_lt(old_e[a].0, old_e[b].0));
                    }
                } else {
                    if a < i && b < i {
                        assert(lex_lt(old_e[a].0, old_e[b].0));
                    } else if a < i && b == i {
                    } else if a < i && b > i {
                        if b - 1 > i {
                            assert(lex_lt(old_e[i as int].0, old_e[b - 1].0));
                            lemma_lex_transitive(k@, old_e[i as int].0, old_e[b - 1].0);
                        }
                        lemma_lex_transitive(old_e[a].0, k@, old_e[b - 1].0);
                    } else if a == i {
                        if b - 1 > i {
                            assert(lex_lt(old_e[i as int].0, old_e[b - 1].0));
                            lemma_lex_transitive(k@, old_e[i as int].0, old_e[b - 1].0);
                        }
                    } else {
                        assert(lex_lt(old_e[a - 1].0, old_e[b - 1].0));
                    }
                }
            }
            assert(sorted_keys(new_e));
            let target = old(self)@.insert(key@, value@);
            assert forall|x: Seq<char>| kv_map(new_e).dom().contains(x) == target.dom().contains(
                x,
            ) by {
                if kv_map(new_e).dom().contains(x) {
                    let j = choose|j: int| 0 <= j < new_e.len() && #[trigger] new_e[j].0 == x;
                    if x != k@ {
                        if found {
                            assert(old_e[j].0 == x);
                        } else if j < i {
                            assert(old_e[j].0 == x);
                        } else {
                            assert(old_e[j - 1].0 == x);
                        }
                        assert(has_key(old_e, x));
                    }
                }
                if target.dom().contains(x) {
                    if x == k@ {
                        assert(new_e[i as int].0 == x);
                        assert(has_key(new_e, x));
                    } else {
                        let j = choose|j: int| 0 <= j < old_e.len() && #[trigger] old_e[j].0 == x;
                        if found || j < i {
                            assert(new_e[j].0 == x);
                        } else {
                            assert(new_e[j + 1].0 == x);
                        }
                        assert(has_key(new_e, x));
                    }
                }
            }
            assert forall|x: Seq<char>| #[trigger]
                kv_map(new_e).dom().contains(x) implies kv_map(new_e)[x] == target[x] by {
                let j = choose|j: int| 0 <= j < new_e.len() && #[trigger] new_e[j].0 == x;
                lemma_sorted_lookup(new_e, j);
                if x != k@ {
                    let oj = if found || j < i {
                        j
                    } else {
                        j - 1
                    };
                    assert(old_e[oj].0 == x);
                    lemma_sorted_lookup(old_e, oj);
                } else {
                    assert(new_e[i as int].0 == k@);
                    assert(j == i);
                }
            }
            assert(kv_map(new_e) =~= target);
        }
        self.pairs = pairs;
    }
}

impl Clone for LcOverrides {
    fn clone(&self) -> (r: Self)
        ensures
            r.entries() == self.entries(),
            r@ == self@,
    {
        proof {
            use_type_invariant(self);
        }
        let mut pairs: Vec<(String, LocaleCode)> = Vec::new();
        let mut i: usize = 0;
        while i < self.pairs.len()
            invariant
                i <= self.pairs@.len(),
                pairs@.len() == i,
                keyed(pairs@) == self.entries().subrange(0, i as int),
                sorted_keys(self.entries()),
                self.entries() == keyed(self.pairs@),
            decreases self.pairs@.len() - i,
        {
            let key = self.pairs[i].0.clone();
            let code = self.pairs[i].1.clone();
            assert(key@ == self.entries()[i as int].0);
            assert(code@ == self.entries()[i as int].1);
            let ghost prev = pairs@;
            pairs.push((key, code));
            assert forall|j: int| 0 <= j <= i implies #[trigger] keyed(pairs@)[j]
                == self.entries()[j] by {
                if j < i {
                    assert(keyed(prev)[j] == self.entries().subrange(0, i as int)[j]);
                    assert(pairs@[j] == prev[j]);
                }
            }
            assert(keyed(pairs@) =~= self.entries().subrange(0, i + 1));
            i = i + 1;
        }
        assert(self.entries().subrange(0, i as int) =~= self.entries());
        LcOverrides { pairs }
    }
}

/// What a lookup gives back after an insert: the inserted code for the
/// inserted key, and for every other key what it gave before.
pub proof fn lemma_get_after_insert(
    m: Map<Seq<char>, Seq<char>>,
    key: Seq<char>,
    value: Seq<char>,
    other: Seq<char>,
)
    requires
        other != key,
    ensures
        m.insert(key, value).dom().contains(key),
        m.insert(key, value)[key] == value,
        m.insert(key, value).dom().contains(other) == m.dom().contains(other),
        m.dom().contains(other) ==> m.insert(key, value)[other] == m[other],
{
}

} // verus!
