//! String-to-string tag maps with last-writer-wins merge semantics.
//!
//! A `TagMap` keeps its entries in insertion order; its mathematical view is
//! the finite map obtained by inserting the entries from first to last, so a
//! later entry for the same key overrides an earlier one.

use vstd::prelude::*;

verus! {

/// An ordered list of key/value tag entries. Later entries for the same key
/// take precedence over earlier ones.
pub struct TagMap {
    pub entries: Vec<(String, String)>,
}

/// The finite map described by an entry list: inserting every entry in order,
/// so the last entry for a key wins.
pub open spec fn tags_view(s: Seq<(String, String)>) -> Map<Seq<char>, Seq<char>>
    decreases s.len(),
{
    if s.len() == 0 {
        Map::empty()
    } else {
        tags_view(s.drop_last()).insert(s.last().0@, s.last().1@)
    }
}

impl View for TagMap {
    type V = Map<Seq<char>, Seq<char>>;

    open spec fn view(&self) -> Map<Seq<char>, Seq<char>> {
        tags_view(self.entries@)
    }
}

impl TagMap {
    /// An empty tag map.
    pub fn new() -> (r: TagMap)
        ensures
            r@ == Map::<Seq<char>, Seq<char>>::empty(),
            r.entries@.len() == 0,
    {
        TagMap { entries: Vec::new() }
    }

    /// Add one entry; it overrides any earlier entry with the same key.
    pub fn insert(&mut self, key: String, value: String)
        ensures
            final(self)@ == old(self)@.insert(key@, value@),
    {
        let ghost before = self.entries@;
        self.entries.push((key, value));
        proof {
            assert(self.entries@.drop_last() =~= before);
        }
    }

    /// Merge `higher` into `self`: every key of either map is kept, and on a
    /// colliding key the value from `higher` wins.
    pub fn merge(self, higher: TagMap) -> (r: TagMap)
        ensures
            r@ == self@.union_prefer_right(higher@),
    {
        let TagMap { entries: mut lo } = self;
        let TagMap { entries: mut hi } = higher;
        let ghost lo0 = lo@;
        let ghost hi0 = hi@;
        lo.append(&mut hi);
        proof {
            lemma_tags_view_concat(lo0, hi0);
        }
        TagMap { entries: lo }
    }

    /// A copy with the same view.
    pub fn duplicate(&self) -> (r: TagMap)
        ensures
            r@ == self@,
    {
        let mut out: Vec<(String, String)> = Vec::new();
        let n: usize = self.entries.len();
        let mut i: usize = 0;
        while i < n
            invariant
                i <= n,
                n == self.entries@.len(),
                out@.len() == i,
                tags_view(out@) == tags_view(self.entries@.take(i as int)),
            decreases n - i,
        {
            let k = self.entries[i].0.clone();
            let v = self.entries[i].1.clone();
            let ghost out_before = out@;
            out.push((k, v));
            proof {
                assert(out@.drop_last() =~= out_before);
                assert(self.entries@.take(i as int + 1).drop_last() =~= self.entries@.take(
                    i as int,
                ));
                assert(self.entries@.take(i as int + 1).last() == self.entries@[i as int]);
            }
            i = i + 1;
        }
        proof {
            assert(self.entries@.take(n as int) =~= self.entries@);
        }
        TagMap { entries: out }
    }

    /// Look a key up: returns the value of the last entry with that key, which
    /// is the value the map view holds for it.
    pub fn get(&self, key: &String) -> (r: Option<&String>)
        ensures
            match r {
                Some(v) => self@.dom().contains(key@) && v@ == self@[key@],
                None => !self@.dom().contains(key@),
            },
    {
        let ghost all = self.entries@;
        let mut i: usize = self.entries.len();
        proof {
            assert(all.take(all.len() as int) =~= all);
        }
        while i > 0
            invariant
                i <= all.len(),
                all == self.entries@,
                tags_view(all).dom().contains(key@) <==> tags_view(all.take(i as int)).dom()
                    .contains(key@),
                tags_view(all).dom().contains(key@) ==> tags_view(all)[key@] == tags_view(
                    all.take(i as int),
                )[key@],
            decreases i,
        {
            i = i - 1;
            proof {
                assert(all.take(i as int + 1).drop_last() =~= all.take(i as int));
                assert(all.take(i as int + 1).last() == all[i as int]);
            }
            if self.entries[i].0.eq(key) {
                return Some(&self.entries[i].1);
            }
        }
        proof {
            assert(all.take(0) =~= Seq::<(String, String)>::empty());
        }
        None
    }
}

/// The view of a concatenated entry list is the union of the two views, with
/// the right-hand (later) side winning on colliding keys.
pub proof fn lemma_tags_view_concat(a: Seq<(String, String)>, b: Seq<(String, String)>)
    ensures
        tags_view(a + b) == tags_view(a).union_prefer_right(tags_view(b)),
    decreases b.len(),
{
    if b.len() == 0 {
        assert(a + b =~= a);
        assert(tags_view(a).union_prefer_right(tags_view(b)) =~= tags_view(a));
    } else {
        lemma_tags_view_concat(a, b.drop_last());
        assert((a + b).drop_last() =~= a + b.drop_last());
        assert((a + b).last() == b.last());
        assert(tags_view(a).union_prefer_right(tags_view(b.drop_last())).insert(
            b.last().0@,
            b.last().1@,
        ) =~= tags_view(a).union_prefer_right(
            tags_view(b.drop_last()).insert(b.last().0@, b.last().1@),
        ));
    }
}

/// Law: last-writer-wins tag precedence. Merging a lower-precedence map with
/// a higher-precedence one keeps every key of both; on a colliding key the
/// higher-precedence value wins, and a key only the lower map holds keeps its
/// value.
pub proof fn lemma_tag_precedence(
    lo: Map<Seq<char>, Seq<char>>,
    hi: Map<Seq<char>, Seq<char>>,
    k: Seq<char>,
)
    ensures
        lo.union_prefer_right(hi).dom() =~= lo.dom() + hi.dom(),
        hi.dom().contains(k) ==> lo.union_prefer_right(hi)[k] == hi[k],
        !hi.dom().contains(k) && lo.dom().contains(k) ==> lo.union_prefer_right(hi)[k] == lo[k],
{
}

} // verus!
