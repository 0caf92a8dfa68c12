//! A set of byte strings, used to count the distinct genome encodings of a population.
use vstd::prelude::*;

verus! {

/// Tells whether two byte strings are equal.
pub fn bytes_equal(a: &Vec<u8>, b: &Vec<u8>) -> (r: bool)
    ensures
        r == (a@ == b@),
{
    if a.len() != b.len() {
        return false;
    }
    let mut i: usize = 0;
    while i < a.len()
        invariant
            i <= a@.len(),
            a@.len() == b@.len(),
            forall|j: int| 0 <= j < i ==> a@[j] == b@[j],
        decreases a@.len() - i,
    {
        if a[i] != b[i] {
            return false;
        }
        i += 1;
    }
    assert(a@ =~= b@);
    true
}

/// The set obtained by inserting `keys` into `start` one after another.
pub open spec fn insert_all(start: Set<Seq<u8>>, keys: Seq<Seq<u8>>) -> Set<Seq<u8>>
    decreases keys.len(),
{
    if keys.len() == 0 {
        start
    } else {
        insert_all(start, keys.drop_last()).insert(keys.last())
    }
}

/// A set of byte strings; duplicates collapse.
pub struct DiversitySet {
    keys: Vec<Vec<u8>>,
}

impl View for DiversitySet {
    type V = Set<Seq<u8>>;

    closed spec fn view(&self) -> Set<Seq<u8>> {
        self.keys@.map_values(|k: Vec<u8>| k@).to_set()
    }
}

impl DiversitySet {
    #[verifier::type_invariant]
    closed spec fn keys_unique(self) -> bool {
        self.keys@.map_values(|k: Vec<u8>| k@).no_duplicates()
    }

    pub fn new() -> (r: DiversitySet)
        ensures
            r@ == Set::<Seq<u8>>::empty(),
    {
        let r = DiversitySet { keys: Vec::new() };
        assert(r.keys@.map_values(|k: Vec<u8>| k@).to_set() =~= Set::<Seq<u8>>::empty());
        r
    }

    pub fn contains(&self, key: &Vec<u8>) -> (r: bool)
        ensures
            r == self@.contains(key@),
    {
        let ghost views = self.keys@.map_values(|k: Vec<u8>| k@);
        let mut i: usize = 0;
        while i < self.keys.len()
            invariant
                i <= self.keys@.len(),
                views == self.keys@.map_values(|k: Vec<u8>| k@),
                forall|j: int| 0 <= j < i ==> views[j] != key@,
            decreases self.keys@.len() - i,
        {
            if bytes_equal(&self.keys[i], key) {
                assert(views[i as int] == key@);
                return true;
            }
            i += 1;
        }
        assert(!views.contains(key@));
        false
    }

    /// Adds `key`; tells whether it was new.
    pub fn insert(&mut self, key: Vec<u8>) -> (r: bool)
        ensures
            final(self)@ == old(self)@.insert(key@),
            r == !old(self)@.contains(key@),
    {
        if self.contains(&key) {
            assert(self@.insert(key@) =~= self@);
            return false;
        }
        proof {
            use_type_invariant(&*self);
        }
        let mut taken = DiversitySet { keys: Vec::new() };
        assert(taken.keys@.map_values(|k: Vec<u8>| k@) =~= Seq::<Seq<u8>>::empty());
        std::mem::swap(self, &mut taken);
        let mut keys = taken.keys;
        let ghost old_views = keys@.map_values(|k: Vec<u8>| k@);
        let ghost k = key@;
        keys.push(key);
        assert(keys@.map_values(|k: Vec<u8>| k@) =~= old_views.push(k));
        proof {
            old_views.lemma_push_to_set_commute(k);
        }
        *self = DiversitySet { keys };
        true
    }

    /// The number of distinct keys.
    pub fn len(&self) -> (r: usize)
        ensures
            r == self@.len(),
    {
        proof {
            use_type_invariant(self);
            self.keys@.map_values(|k: Vec<u8>| k@).unique_seq_to_set();
        }
        self.keys.len()
    }
}

/// Inserting a sequence of keys into an empty set, one after another, gives
/// the set of those keys, whose size is the number of distinct keys; any
/// reordering of the same keys gives the same set and so the same size.
pub proof fn lemma_diversity_counts_distinct(keys: Seq<Seq<u8>>, reordered: Seq<Seq<u8>>)
    requires
        reordered.to_multiset() == keys.to_multiset(),
    ensures
        insert_all(Set::empty(), keys) == keys.to_set(),
        insert_all(Set::empty(), keys).len() == keys.to_set().len(),
        insert_all(Set::empty(), reordered) == insert_all(Set::empty(), keys),
{
    lemma_insert_all_is_to_set(keys);
    lemma_insert_all_is_to_set(reordered);
    assert(reordered.to_set() =~= keys.to_set()) by {
        assert forall|x: Seq<u8>| reordered.to_set().contains(x) <==> keys.to_set().contains(x) by {
            reordered.to_multiset_ensures();
            keys.to_multiset_ensures();
            assert(reordered.contains(x) <==> reordered.to_multiset().count(x) > 0);
            assert(keys.contains(x) <==> keys.to_multiset().count(x) > 0);
        }
    }
}

proof fn lemma_insert_all_is_to_set(keys: Seq<Seq<u8>>)
    ensures
        insert_all(Set::empty(), keys) == keys.to_set(),
    decreases keys.len(),
{
    if keys.len() == 0 {
        assert(keys.to_set() =~= Set::empty());
    } else {
        lemma_insert_all_is_to_set(keys.drop_last());
        keys.drop_last().lemma_push_to_set_commute(keys.last());
        assert(keys.drop_last().push(keys.last()) =~= keys);
    }
}

} // verus!
