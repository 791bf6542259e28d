//! The skill table of a character sheet: named skills with integer
//! ratings, viewed as a map from skill name to rating. The default table
//! carries the stock skills, all rated zero.

use vstd::prelude::*;
use vstd::pervasive::unreached;

verus! {

/// Named skills with integer ratings; names are pairwise distinct.
#[derive(Debug)]
pub struct Skills {
    entries: Vec<(String, i32)>,
}

/// The map a sequence of name/rating pairs denotes; a later pair wins
/// over an earlier one with the same name.
pub open spec fn map_of(entries: Seq<(String, i32)>) -> Map<Seq<char>, int>
    decreases entries.len(),
{
    if entries.len() == 0 {
        Map::empty()
    } else {
        map_of(entries.drop_last()).insert(entries.last().0@, entries.last().1 as int)
    }
}

/// Pairwise distinctness of the stored names.
pub open spec fn distinct_names(entries: Seq<(String, i32)>) -> bool {
    forall|i: int, j: int|
        0 <= i < j < entries.len() ==> #[trigger] entries[i].0@ != #[trigger] entries[j].0@
}

/// A name is a key of the denoted map exactly when some pair carries it.
proof fn lemma_map_of_dom(entries: Seq<(String, i32)>)
    ensures
        forall|k: Seq<char>|
            map_of(entries).contains_key(k) <==> exists|i: int|
                0 <= i < entries.len() && #[trigger] entries[i].0@ == k,
    decreases entries.len(),
{
    if entries.len() > 0 {
        let prefix = entries.drop_last();
        lemma_map_of_dom(prefix);
        assert forall|k: Seq<char>|
            map_of(entries).contains_key(k) <==> exists|i: int|
                0 <= i < entries.len() && #[trigger] entries[i].0@ == k by {
            if map_of(entries).contains_key(k) {
                if k == entries.last().0@ {
                    assert(entries[entries.len() - 1].0@ == k);
                } else {
                    assert(map_of(prefix).contains_key(k));
                    let i = choose|i: int| 0 <= i < prefix.len() && #[trigger] prefix[i].0@ == k;
                    assert(entries[i].0@ == k);
                }
            }
            if exists|i: int| 0 <= i < entries.len() && #[trigger] entries[i].0@ == k {
                let i = choose|i: int| 0 <= i < entries.len() && #[trigger] entries[i].0@ == k;
                if i < entries.len() - 1 {
                    assert(prefix[i].0@ == k);
                    assert(map_of(prefix).contains_key(k));
                }
            }
        }
    }
}

/// Under distinct names, each pair is in the denoted map with its rating.
proof fn lemma_map_of_get(entries: Seq<(String, i32)>)
    requires
        distinct_names(entries),
    ensures
        forall|i: int|
            0 <= i < entries.len() ==> map_of(entries).contains_key(#[trigger] entries[i].0@)
                && map_of(entries)[entries[i].0@] == entries[i].1 as int,
    decreases entries.len(),
{
    if entries.len() > 0 {
        let prefix = entries.drop_last();
        lemma_map_of_get(prefix);
        assert forall|i: int|
            0 <= i < entries.len() implies map_of(entries).contains_key(#[trigger] entries[i].0@)
            && map_of(entries)[entries[i].0@] == entries[i].1 as int by {
            if i < entries.len() - 1 {
                assert(prefix[i] == entries[i]);
                assert(entries[i].0@ != entries[entries.len() - 1].0@);
            }
        }
    }
}

/// Under distinct names, removing a pair removes exactly its key.
proof fn lemma_map_of_remove(entries: Seq<(String, i32)>, i: int)
    requires
        distinct_names(entries),
        0 <= i < entries.len(),
    ensures
        map_of(entries.remove(i)) == map_of(entries).remove(entries[i].0@),
    decreases entries.len(),
{
    let k = entries[i].0@;
    let prefix = entries.drop_last();
    if i == entries.len() - 1 {
        assert(entries.remove(i) =~= prefix);
        lemma_map_of_dom(prefix);
        assert(!map_of(prefix).contains_key(k)) by {
            if exists|j: int| 0 <= j < prefix.len() && #[trigger] prefix[j].0@ == k {
                let j = choose|j: int| 0 <= j < prefix.len() && #[trigger] prefix[j].0@ == k;
                assert(entries[j].0@ != entries[i].0@);
            }
        }
        assert(map_of(prefix).insert(k, entries[i].1 as int).remove(k) =~= map_of(prefix));
    } else {
        let shorter = entries.remove(i);
        assert(shorter.last() == entries.last());
        assert(shorter.drop_last() =~= prefix.remove(i));
        lemma_map_of_remove(prefix, i);
        assert(prefix[i] == entries[i]);
        assert(entries[i].0@ != entries[entries.len() - 1].0@);
        assert(map_of(prefix).remove(k).insert(
            entries.last().0@,
            entries.last().1 as int,
        ) =~= map_of(prefix).insert(entries.last().0@, entries.last().1 as int).remove(k));
    }
}

/// The stock skill table: every default skill rated zero.
pub open spec fn default_skill_map() -> Map<Seq<char>, int> {
    Map::empty().insert("Talent"@, 0).insert("Burglary"@, 0).insert("Athletics"@, 0).insert(
        "Contacts"@,
        0,
    ).insert("Crafts"@, 0).insert("Deceive"@, 0).insert("Drive"@, 0).insert("Empathy"@, 0).insert(
        "Fight"@,
        0,
    ).insert("Investigation"@, 0).insert("Lore"@, 0).insert("Perception"@, 0).insert(
        "Physique"@,
        0,
    ).insert("Provoke"@, 0).insert("Rapport"@, 0).insert("Resources"@, 0).insert(
        "Shoot"@,
        0,
    ).insert("Stealth"@, 0).insert("Will"@, 0).insert("Calculus"@, 0).insert(
        "Scouting"@,
        0,
    ).insert("Quick"@, 0).insert("Careful"@, 0).insert("Performance"@, 0).insert(
        "Survival"@,
        0,
    ).insert("Arcana"@, 0)
}

impl Skills {
    /// The table as a map from skill name to rating.
    pub closed spec fn as_map(&self) -> Map<Seq<char>, int> {
        map_of(self.entries@)
    }

    /// The table invariant: stored names are pairwise distinct.
    pub closed spec fn wf(&self) -> bool {
        distinct_names(self.entries@)
    }

    /// The stored index of a skill name, if any.
    fn find_index(&self, skill: &str) -> (o: Option<usize>)
        ensures
            match o {
                Option::Some(i) => i < self.entries@.len() && self.entries@[i as int].0@ == skill@,
                Option::None => forall|i: int|
                    0 <= i < self.entries@.len() ==> #[trigger] self.entries@[i].0@ != skill@,
            },
    {
        let key = skill.to_owned();
        let n = self.entries.len();
        let mut k: usize = 0;
        while k < n
            invariant
                0 <= k <= n,
                n == self.entries@.len(),
                key@ == skill@,
                forall|i: int| 0 <= i < k ==> #[trigger] self.entries@[i].0@ != skill@,
            decreases n - k,
        {
            if self.entries[k].0 == key {
                return Some(k);
            }
            k = k + 1;
        }
        None
    }

    /// Whether the table carries a skill of this name.
    pub fn has_skill(&self, skill: &str) -> (b: bool)
        ensures
            b == self.as_map().contains_key(skill@),
    {
        proof {
            lemma_map_of_dom(self.entries@);
        }
        match self.find_index(skill) {
            Some(_) => true,
            None => {
                proof {
                    if self.as_map().contains_key(skill@) {
                        let i = choose|i: int|
                            0 <= i < self.entries@.len() && #[trigger] self.entries@[i].0@
                                == skill@;
                        assert(self.entries@[i].0@ != skill@);
                    }
                }
                false
            },
        }
    }

    /// Adds a skill rated zero, overwriting the rating of an existing
    /// skill of the same name; chainable.
    pub fn add_skill(&mut self, skill: &str) -> (r: &mut Self)
        requires
            old(self).wf(),
        ensures
            (*r).wf(),
            (*r).as_map() == old(self).as_map().insert(skill@, 0),
            *final(self) == *final(r),
    {
        match self.find_index(skill) {
            Some(i) => {
                proof {
                    lemma_map_of_remove(self.entries@, i as int);
                }
                let ghost before = self.entries@;
                self.entries.remove(i);
                proof {
                    assert forall|a: int, b: int|
                        0 <= a < b < self.entries@.len() implies #[trigger] self.entries@[a].0@
                        != #[trigger] self.entries@[b].0@ by {
                        if b < i {
                            assert(before[a].0@ != before[b].0@);
                        } else if a < i {
                            assert(before[a].0@ != before[b + 1].0@);
                        } else {
                            assert(before[a + 1].0@ != before[b + 1].0@);
                        }
                    }
                    assert forall|a: int|
                        0 <= a < self.entries@.len() implies #[trigger] self.entries@[a].0@
                        != skill@ by {
                        if a < i {
                            assert(before[a].0@ != before[i as int].0@);
                        } else {
                            assert(before[i as int].0@ != before[a + 1].0@);
                        }
                    }
                }
                self.push_fresh(skill, 0);
                proof {
                    assert(old(self).as_map().remove(skill@).insert(skill@, 0) =~= old(
                        self,
                    ).as_map().insert(skill@, 0));
                }
            },
            None => {
                self.push_fresh(skill, 0);
            },
        }
        self
    }

    /// Appends a pair whose name is not yet in the table.
    fn push_fresh(&mut self, skill: &str, rating: i32)
        requires
            old(self).wf(),
            forall|i: int|
                0 <= i < old(self).entries@.len() ==> #[trigger] old(self).entries@[i].0@
                    != skill@,
        ensures
            final(self).wf(),
            final(self).as_map() == old(self).as_map().insert(skill@, rating as int),
    {
        self.entries.push((skill.to_owned(), rating));
        proof {
            assert(self.entries@.drop_last() =~= old(self).entries@);
            assert forall|a: int, b: int|
                0 <= a < b < self.entries@.len() implies #[trigger] self.entries@[a].0@
                != #[trigger] self.entries@[b].0@ by {
                if b < self.entries@.len() - 1 {
                    assert(old(self).entries@[a].0@ != old(self).entries@[b].0@);
                } else {
                    assert(old(self).entries@[a].0@ != skill@);
                }
            }
        }
    }

    /// Raises an existing skill's rating by one; chainable. The table
    /// must carry the skill, as it did wherever the original callers
    /// stood; a caller that breaks this contract panics, as the original
    /// did.
    pub fn increment_skill(&mut self, skill: &str) -> (r: &mut Self)
        requires
            old(self).wf(),
            old(self).as_map().contains_key(skill@),
            old(self).as_map()[skill@] + 1 <= i32::MAX,
        ensures
            (*r).wf(),
            (*r).as_map() == old(self).as_map().insert(skill@, old(self).as_map()[skill@] + 1),
            *final(self) == *final(r),
    {
        proof {
            lemma_map_of_dom(self.entries@);
            lemma_map_of_get(self.entries@);
        }
        match self.find_index(skill) {
            Some(i) => {
                let rating = self.entries[i].1;
                assert(rating as int == old(self).as_map()[skill@]);
                proof {
                    lemma_map_of_remove(self.entries@, i as int);
                }
                let ghost before = self.entries@;
                self.entries.remove(i);
                proof {
                    assert forall|a: int, b: int|
                        0 <= a < b < self.entries@.len() implies #[trigger] self.entries@[a].0@
                        != #[trigger] self.entries@[b].0@ by {
                        if b < i {
                            assert(before[a].0@ != before[b].0@);
                        } else if a < i {
                            assert(before[a].0@ != before[b + 1].0@);
                        } else {
                            assert(before[a + 1].0@ != before[b + 1].0@);
                        }
                    }
                    assert forall|a: int|
                        0 <= a < self.entries@.len() implies #[trigger] self.entries@[a].0@
                        != skill@ by {
                        if a < i {
                            assert(before[a].0@ != before[i as int].0@);
                        } else {
                            assert(before[i as int].0@ != before[a + 1].0@);
                        }
                    }
                }
                self.push_fresh(skill, rating + 1);
                proof {
                    assert(old(self).as_map().remove(skill@).insert(
                        skill@,
                        rating + 1,
                    ) =~= old(self).as_map().insert(skill@, rating + 1));
                }
                self
            },
            None => unreached(),
        }
    }

    /// Drops the skill of this name, if present; chainable.
    pub fn remove_skill(&mut self, skill: &str) -> (r: &mut Self)
        requires
            old(self).wf(),
        ensures
            (*r).wf(),
            (*r).as_map() == old(self).as_map().remove(skill@),
            *final(self) == *final(r),
    {
        match self.find_index(skill) {
            Some(i) => {
                proof {
                    lemma_map_of_remove(self.entries@, i as int);
                }
                let ghost before = self.entries@;
                self.entries.remove(i);
                proof {
                    assert forall|a: int, b: int|
                        0 <= a < b < self.entries@.len() implies #[trigger] self.entries@[a].0@
                        != #[trigger] self.entries@[b].0@ by {
                        if b < i {
                            assert(before[a].0@ != before[b].0@);
                        } else if a < i {
                            assert(before[a].0@ != before[b + 1].0@);
                        } else {
                            assert(before[a + 1].0@ != before[b + 1].0@);
                        }
                    }
                }
            },
            None => {
                proof {
                    lemma_map_of_dom(self.entries@);
                    if self.as_map().contains_key(skill@) {
                        let i = choose|i: int|
                            0 <= i < self.entries@.len() && #[trigger] self.entries@[i].0@
                                == skill@;
                        assert(self.entries@[i].0@ != skill@);
                    }
                    assert(self.as_map().remove(skill@) =~= self.as_map());
                }
            },
        }
        self
    }

    /// The rating of an existing skill. The table must carry the skill;
    /// a caller that breaks this contract panics, as the original did.
    pub fn get_skill(&self, skill: &str) -> (v: i32)
        requires
            self.wf(),
            self.as_map().contains_key(skill@),
        ensures
            v as int == self.as_map()[skill@],
    {
        proof {
            lemma_map_of_dom(self.entries@);
            lemma_map_of_get(self.entries@);
        }
        match self.find_index(skill) {
            Some(i) => self.entries[i].1,
            None => unreached(),
        }
    }
}

impl Default for Skills {
    /// The stock table, every skill rated zero.
    fn default() -> (d: Skills)
        ensures
            d.wf(),
            d.as_map() == default_skill_map(),
    {
        let mut d = Skills { entries: Vec::new() };
        d.add_skill("Talent");
        d.add_skill("Burglary");
        d.add_skill("Athletics");
        d.add_skill("Contacts");
        d.add_skill("Crafts");
        d.add_skill("Deceive");
        d.add_skill("Drive");
        d.add_skill("Empathy");
        d.add_skill("Fight");
        d.add_skill("Investigation");
        d.add_skill("Lore");
        d.add_skill("Perception");
        d.add_skill("Physique");
        d.add_skill("Provoke");
        d.add_skill("Rapport");
        d.add_skill("Resources");
        d.add_skill("Shoot");
        d.add_skill("Stealth");
        d.add_skill("Will");
        d.add_skill("Calculus");
        d.add_skill("Scouting");
        d.add_skill("Quick");
        d.add_skill("Careful");
        d.add_skill("Performance");
        d.add_skill("Survival");
        d.add_skill("Arcana");
        d
    }
}

} // verus!
