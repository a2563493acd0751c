//! The alias store: a keyed map from tag to URL, with insert-or-replace,
//! lookup and removal, modeled as a mathematical map.

use vstd::prelude::*;

use crate::text::str_eq;
use crate::text::strings_view;

verus! {

/// The views of a sequence of owned tag/URL pairs.
pub open spec fn pairs_view(s: Seq<(String, String)>) -> Seq<(Seq<char>, Seq<char>)> {
    s.map_values(|p: (String, String)| (p.0@, p.1@))
}

/// The map a sequence of tag/URL pairs denotes.
pub open spec fn pairs_map(s: Seq<(Seq<char>, Seq<char>)>) -> Map<Seq<char>, Seq<char>>
    decreases s.len(),
{
    if s.len() == 0 {
        Map::<Seq<char>, Seq<char>>::empty()
    } else {
        pairs_map(s.drop_last()).insert(s.last().0, s.last().1)
    }
}

/// No two pairs carry the same tag.
pub open spec fn unique_tags(s: Seq<(Seq<char>, Seq<char>)>) -> bool {
    forall|a: int, b: int| 0 <= a < b < s.len() ==> s[a].0 != s[b].0
}

proof fn lemma_pairs_map_at(s: Seq<(Seq<char>, Seq<char>)>, i: int)
    requires
        unique_tags(s),
        0 <= i < s.len(),
    ensures
        pairs_map(s).contains_key(s[i].0),
        pairs_map(s)[s[i].0] == s[i].1,
    decreases s.len(),
{
    if i == s.len() - 1 {
    } else {
        assert(s[i].0 != s.last().0);
        assert(unique_tags(s.drop_last()));
        assert(s.drop_last()[i] == s[i]);
        lemma_pairs_map_at(s.drop_last(), i);
    }
}

proof fn lemma_pairs_map_absent(s: Seq<(Seq<char>, Seq<char>)>, tag: Seq<char>)
    requires
        forall|k: int| 0 <= k < s.len() ==> s[k].0 != tag,
    ensures
        !pairs_map(s).contains_key(tag),
    decreases s.len(),
{
    if s.len() > 0 {
        lemma_pairs_map_absent(s.drop_last(), tag);
    }
}

/// Removing the one pair that carries `tag` removes `tag` from the map.
proof fn lemma_pairs_map_remove_at(s: Seq<(Seq<char>, Seq<char>)>, i: int)
    requires
        unique_tags(s),
        0 <= i < s.len(),
    ensures
        pairs_map(s.remove(i)) == pairs_map(s).remove(s[i].0),
    decreases s.len(),
{
    let tag = s[i].0;
    if i == s.len() - 1 {
        assert(s.remove(i) =~= s.drop_last());
        assert(forall|k: int| 0 <= k < s.drop_last().len() ==> s.drop_last()[k].0 != tag);
        lemma_pairs_map_absent(s.drop_last(), tag);
        assert(pairs_map(s.drop_last()) =~= pairs_map(s.drop_last()).insert(
            tag,
            s[i].1,
        ).remove(tag));
    } else {
        assert(unique_tags(s.drop_last()));
        assert(s.drop_last()[i] == s[i]);
        lemma_pairs_map_remove_at(s.drop_last(), i);
        assert(s.remove(i).drop_last() =~= s.drop_last().remove(i));
        assert(s.remove(i).last() == s.last());
        assert(s.last().0 != tag);
        assert(pairs_map(s.drop_last()).remove(tag).insert(s.last().0, s.last().1)
            =~= pairs_map(s.drop_last()).insert(s.last().0, s.last().1).remove(tag));
    }
}

/// The saved aliases. The pairs are kept unique by tag, so the store reads
/// as a map from tag to URL.
#[derive(Debug)]
pub struct AliasConfig {
    pub aliases: Vec<(String, String)>,
}

impl View for AliasConfig {
    type V = Map<Seq<char>, Seq<char>>;

    open spec fn view(&self) -> Map<Seq<char>, Seq<char>> {
        pairs_map(pairs_view(self.aliases@))
    }
}

impl AliasConfig {
    /// Well-formed: no tag is stored twice.
    pub open spec fn wf(&self) -> bool {
        unique_tags(pairs_view(self.aliases@))
    }

    /// An empty store.
    pub fn new() -> (r: AliasConfig)
        ensures
            r.wf(),
            r@ == Map::<Seq<char>, Seq<char>>::empty(),
    {
        let r = AliasConfig { aliases: Vec::new() };
        proof {
            assert(pairs_view(r.aliases@).len() == 0);
        }
        r
    }

    /// Find the position of `tag`, if it is stored.
    fn position_of(&self, tag: &str) -> (r: Option<usize>)
        ensures
            match r {
                Some(i) => i < self.aliases@.len() && pairs_view(self.aliases@)[i as int].0 == tag@,
                None => forall|k: int|
                    0 <= k < self.aliases@.len() ==> pairs_view(self.aliases@)[k].0 != tag@,
            },
    {
        let n: usize = self.aliases.len();
        let mut i: usize = 0;
        while i < n
            invariant
                0 <= i <= n,
                n == self.aliases@.len(),
                forall|k: int| 0 <= k < i ==> pairs_view(self.aliases@)[k].0 != tag@,
            decreases n - i,
        {
            if str_eq(self.aliases[i].0.as_str(), tag) {
                return Some(i);
            }
            i = i + 1;
        }
        None
    }

    /// Save `url` under `tag`, replacing whatever the tag held before.
    pub fn add_alias(&mut self, tag: String, url: String)
        requires
            old(self).wf(),
        ensures
            final(self).wf(),
            final(self)@ == old(self)@.insert(tag@, url@),
    {
        let ghost s0 = pairs_view(self.aliases@);
        match self.position_of(tag.as_str()) {
            Some(i) => {
                proof {
                    lemma_pairs_map_remove_at(s0, i as int);
                }
                self.aliases.remove(i);
                proof {
                    assert(pairs_view(self.aliases@) =~= s0.remove(i as int));
                    assert forall|k: int|
                        0 <= k < pairs_view(self.aliases@).len() implies pairs_view(
                        self.aliases@,
                    )[k].0 != tag@ by {
                        let x = if k < i { k } else { k + 1 };
                        assert(pairs_view(self.aliases@)[k] == s0[x]);
                        if x < i {
                            assert(s0[x].0 != s0[i as int].0);
                        } else {
                            assert(s0[i as int].0 != s0[x].0);
                        }
                    }
                }
            },
            None => {},
        }
        let ghost s1 = pairs_view(self.aliases@);
        self.aliases.push((tag, url));
        proof {
            let s2 = pairs_view(self.aliases@);
            assert(s2.drop_last() =~= s1);
            assert(s2.last().0 == tag@ && s2.last().1 == url@);
            assert(self@ == pairs_map(s1).insert(tag@, url@));
            assert(pairs_map(s1).insert(tag@, url@) =~= old(self)@.insert(tag@, url@));
            assert forall|a: int, b: int| 0 <= a < b < s2.len() implies s2[a].0 != s2[b].0 by {
                if b < s2.len() - 1 {
                    assert(s1[a].0 != s1[b].0);
                } else {
                    assert(s2[a] == s1[a]);
                    assert(s1[a].0 != tag@);
                }
            }
        }
    }

    /// The URL stored under `tag`, if any.
    pub fn resolve(&self, tag: &str) -> (r: Option<String>)
        requires
            self.wf(),
        ensures
            match r {
                Some(u) => self@.contains_key(tag@) && self@[tag@] == u@,
                None => !self@.contains_key(tag@),
            },
    {
        match self.position_of(tag) {
            Some(i) => {
                proof {
                    lemma_pairs_map_at(pairs_view(self.aliases@), i as int);
                }
                Some(self.aliases[i].1.clone())
            },
            None => {
                proof {
                    lemma_pairs_map_absent(pairs_view(self.aliases@), tag@);
                }
                None
            },
        }
    }

    /// Every stored URL, in storage order, for opening all aliases at
    /// once.
    pub fn collect_urls(&self) -> (r: Vec<String>)
        ensures
            strings_view(r@) == pairs_view(self.aliases@).map_values(
                |p: (Seq<char>, Seq<char>)| p.1,
            ),
    {
        let n: usize = self.aliases.len();
        let mut out: Vec<String> = Vec::new();
        let mut i: usize = 0;
        while i < n
            invariant
                0 <= i <= n,
                n == self.aliases@.len(),
                i == out@.len(),
                forall|k: int|
                    0 <= k < i ==> strings_view(out@)[k] == pairs_view(self.aliases@)[k].1,
            decreases n - i,
        {
            let ghost pre = strings_view(out@);
            out.push(self.aliases[i].1.clone());
            proof {
                assert(strings_view(out@) =~= pre.push(self.aliases@[i as int].1@));
            }
            i = i + 1;
        }
        proof {
            assert(strings_view(out@) =~= pairs_view(self.aliases@).map_values(
                |p: (Seq<char>, Seq<char>)| p.1,
            ));
        }
        out
    }

    /// Forget `tag`; whether it was stored.
    pub fn remove_alias(&mut self, tag: &str) -> (r: bool)
        requires
            old(self).wf(),
        ensures
            final(self).wf(),
            final(self)@ == old(self)@.remove(tag@),
            r == old(self)@.contains_key(tag@),
    {
        let ghost s0 = pairs_view(self.aliases@);
        match self.position_of(tag) {
            Some(i) => {
                proof {
                    lemma_pairs_map_at(s0, i as int);
                    lemma_pairs_map_remove_at(s0, i as int);
                }
                self.aliases.remove(i);
                proof {
                    assert(pairs_view(self.aliases@) =~= s0.remove(i as int));
                    assert forall|a: int, b: int|
                        0 <= a < b < s0.remove(i as int).len() implies s0.remove(i as int)[a].0
                        != s0.remove(i as int)[b].0 by {
                        let x = if a < i { a } else { a + 1 };
                        let y = if b < i { b } else { b + 1 };
                        assert(s0[x].0 != s0[y].0);
                    }
                }
                true
            },
            None => {
                proof {
                    lemma_pairs_map_absent(s0, tag@);
                    assert(pairs_map(s0) =~= pairs_map(s0).remove(tag@));
                }
                false
            },
        }
    }
}

} // verus!
