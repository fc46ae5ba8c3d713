//! Crossfade configuration: the mix duration between pairs of animations,
//! applied once to a skeleton's animation-state data when it is spawned.

use vstd::prelude::*;

verus! {

/// The key of an entry: from-animation and to-animation names.
pub open spec fn key_of<D>(e: ((String, String), D)) -> (Seq<char>, Seq<char>) {
    (e.0.0@, e.0.1@)
}

/// The mapping held by a list of entries; a later entry overrides an earlier
/// one with the same key.
pub open spec fn entries_map<D>(s: Seq<((String, String), D)>) -> Map<(Seq<char>, Seq<char>), D>
    decreases s.len(),
{
    if s.len() == 0 {
        Map::empty()
    } else {
        entries_map(s.drop_last()).insert(key_of(s.last()), s.last().1)
    }
}

/// No two entries share a key.
pub open spec fn keys_unique<D>(s: Seq<((String, String), D)>) -> bool {
    forall|i: int, j: int| 0 <= i < j < s.len() ==> key_of(#[trigger] s[i]) != key_of(#[trigger] s[j])
}

/// Mix durations between pairs of animations. `D` is the duration type
/// (seconds).
pub struct Crossfades<D> {
    mix_durations: Vec<((String, String), D)>,
}

impl<D> Crossfades<D> {
    /// Each pair of animations appears in one entry at most.
    pub closed spec fn wf(&self) -> bool {
        keys_unique(self.mix_durations@)
    }

    /// The configured mix durations.
    pub closed spec fn view(&self) -> Map<(Seq<char>, Seq<char>), D> {
        entries_map(self.mix_durations@)
    }

    /// No crossfade configured.
    pub fn new() -> (r: Self)
        ensures
            r.view() == Map::<(Seq<char>, Seq<char>), D>::empty(),
            r.wf(),
    {
        Crossfades { mix_durations: Vec::new() }
    }

    /// Sets the mix duration from animation `from` to animation `to`,
    /// replacing any earlier duration for that pair.
    pub fn add(&mut self, from: &str, to: &str, mix_duration: D)
        requires
            old(self).wf(),
        ensures
            final(self).wf(),
            final(self).view() == old(self).view().insert((from@, to@), mix_duration),
    {
        let from_s = from.to_owned();
        let to_s = to.to_owned();
        let ghost key = (from@, to@);
        let ghost s0 = self.mix_durations@;
        let mut i: usize = 0;
        while i < self.mix_durations.len()
            invariant
                i <= self.mix_durations@.len(),
                self.mix_durations@ == s0,
                s0 == old(self).mix_durations@,
                key == (from@, to@),
                keys_unique(self.mix_durations@),
                forall|j: int| 0 <= j < i ==> key_of(#[trigger] self.mix_durations@[j]) != key,
                from_s@ == from@,
                to_s@ == to@,
            decreases self.mix_durations@.len() - i,
        {
            let same_from = self.mix_durations[i].0.0 == from_s;
            let same_to = self.mix_durations[i].0.1 == to_s;
            if same_from && same_to {
                let ghost s = self.mix_durations@;
                proof {
                    lemma_update_entry(s, i as int, ((from_s, to_s), mix_duration));
                }
                self.mix_durations.set(i, ((from_s, to_s), mix_duration));
                return;
            }
            proof {
                let e = self.mix_durations@[i as int];
                if key_of(e) == key {
                    assert(e.0.0@ == from_s@ && e.0.1@ == to_s@);
                }
            }
            i = i + 1;
        }
        let ghost s = self.mix_durations@;
        self.mix_durations.push(((from_s, to_s), mix_duration));
        proof {
            assert(self.mix_durations@.drop_last() =~= s);
            assert(self.mix_durations@.last() == ((from_s, to_s), mix_duration));
            assert(keys_unique(self.mix_durations@));
        }
    }

    /// The entries, each pair once, for applying to animation-state data.
    pub fn mix_durations(&self) -> (r: &Vec<((String, String), D)>)
        requires
            self.wf(),
        ensures
            entries_map(r@) == self.view(),
            keys_unique(r@),
    {
        &self.mix_durations
    }
}

impl<D> Default for Crossfades<D> {
    fn default() -> (r: Self)
        ensures
            r.view() == Map::<(Seq<char>, Seq<char>), D>::empty(),
            r.wf(),
    {
        Crossfades::new()
    }
}

/// Overwriting the entry that holds a key is inserting that key.
proof fn lemma_update_entry<D>(s: Seq<((String, String), D)>, i: int, e: ((String, String), D))
    requires
        keys_unique(s),
        0 <= i < s.len(),
        key_of(s[i]) == key_of(e),
    ensures
        entries_map(s.update(i, e)) == entries_map(s).insert(key_of(e), e.1),
        keys_unique(s.update(i, e)),
    decreases s.len(),
{
    let t = s.update(i, e);
    assert forall|a: int, b: int| 0 <= a < b < t.len() implies key_of(#[trigger] t[a]) != key_of(
        #[trigger] t[b],
    ) by {
        assert(key_of(s[a]) != key_of(s[b]));
    }
    if i == s.len() - 1 {
        assert(t.drop_last() =~= s.drop_last());
        assert(entries_map(t) =~= entries_map(s).insert(key_of(e), e.1));
    } else {
        let s0 = s.drop_last();
        assert(keys_unique(s0)) by {
            assert forall|a: int, b: int| 0 <= a < b < s0.len() implies key_of(#[trigger] s0[a])
                != key_of(#[trigger] s0[b]) by {
                assert(s0[a] == s[a] && s0[b] == s[b]);
            }
        }
        lemma_update_entry(s0, i, e);
        assert(t.drop_last() =~= s0.update(i, e));
        assert(t.last() == s.last());
        assert(key_of(s[i]) != key_of(s.last()));
        assert(entries_map(t) =~= entries_map(s).insert(key_of(e), e.1));
    }
}

} // verus!
