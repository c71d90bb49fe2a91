use vstd::prelude::*;

use indexmap::IndexMap;

use crate::segment::{default_segments, is_default_seed, uuid_text, Segment};

verus! {

#[verifier::external_type_specification]
#[verifier::external_body]
#[verifier::reject_recursive_types(K)]
#[verifier::reject_recursive_types(V)]
#[verifier::reject_recursive_types(S)]
pub struct ExIndexMap<K, V, S>(IndexMap<K, V, S>);

/// The entries of a segment map in iteration order: key text and segment.
pub uninterp spec fn map_entries(m: IndexMap<String, Segment>) -> Seq<(Seq<char>, Segment)>;

/// Some entry of `e` has key `k`.
pub open spec fn has_key(e: Seq<(Seq<char>, Segment)>, k: Seq<char>) -> bool {
    exists|i: int| 0 <= i < e.len() && #[trigger] e[i].0 == k
}

/// The position of an entry with key `k`, where there is one.
pub open spec fn index_of(e: Seq<(Seq<char>, Segment)>, k: Seq<char>) -> int {
    choose|i: int| 0 <= i < e.len() && #[trigger] e[i].0 == k
}

/// The keys of `e`, in order.
pub open spec fn keys_of(e: Seq<(Seq<char>, Segment)>) -> Seq<Seq<char>> {
    e.map_values(|p: (Seq<char>, Segment)| p.0)
}

/// The entries after inserting `v` under `k`: an existing key keeps its place
/// and takes the new value; a new key goes last.
pub open spec fn inserted(e: Seq<(Seq<char>, Segment)>, k: Seq<char>, v: Segment) -> Seq<
    (Seq<char>, Segment),
> {
    if has_key(e, k) {
        e.update(index_of(e, k), (k, v))
    } else {
        e.push((k, v))
    }
}

/// The value that inserting under `k` replaces, if any.
pub open spec fn replaced(e: Seq<(Seq<char>, Segment)>, k: Seq<char>) -> Option<Segment> {
    if has_key(e, k) {
        Some(e[index_of(e, k)].1)
    } else {
        None
    }
}

/// The entries after removing key `k`; the others keep their order.
pub open spec fn removed(e: Seq<(Seq<char>, Segment)>, k: Seq<char>) -> Seq<(Seq<char>, Segment)> {
    if has_key(e, k) {
        e.remove(index_of(e, k))
    } else {
        e
    }
}

/// The entries after inserting each of `segs` in turn under its identifier.
pub open spec fn inserted_all(e: Seq<(Seq<char>, Segment)>, segs: Seq<Segment>) -> Seq<
    (Seq<char>, Segment),
>
    decreases segs.len(),
{
    if segs.len() == 0 {
        e
    } else {
        let last = segs.last();
        inserted(inserted_all(e, segs.drop_last()), uuid_text(last.uuid), last)
    }
}

/// Insertion order is kept: inserting under a known key leaves the key order
/// as it was and a new key goes last; removing a key keeps the others in their
/// order; removing a missing key changes nothing; and inserting a new key then
/// removing it gives back the entries as they were.
pub proof fn lemma_store_order(e: Seq<(Seq<char>, Segment)>, k: Seq<char>, v: Segment)
    ensures
        has_key(e, k) ==> keys_of(inserted(e, k, v)) == keys_of(e),
        !has_key(e, k) ==> keys_of(inserted(e, k, v)) == keys_of(e).push(k),
        has_key(e, k) ==> keys_of(removed(e, k)) == keys_of(e).remove(index_of(e, k)),
        !has_key(e, k) ==> removed(e, k) == e,
        !has_key(e, k) ==> removed(inserted(e, k, v), k) == e,
{
    if has_key(e, k) {
        let i = index_of(e, k);
        assert(keys_of(inserted(e, k, v)) =~= keys_of(e));
        assert(keys_of(removed(e, k)) =~= keys_of(e).remove(i));
    } else {
        let f = e.push((k, v));
        assert(keys_of(f) =~= keys_of(e).push(k));
        assert(f[e.len() as int].0 == k);
        assert(has_key(f, k));
        let j = index_of(f, k);
        assert(j == e.len()) by {
            if j < e.len() {
                assert(e[j].0 == k);
            }
        }
        assert(f.remove(j) =~= e);
    }
}

/// Relies on indexmap::IndexMap::new: an empty map.
#[verifier::external_body]
fn map_new() -> (r: IndexMap<String, Segment>)
    ensures
        map_entries(r) == Seq::<(Seq<char>, Segment)>::empty(),
{
    IndexMap::new()
}

/// Relies on indexmap::IndexMap::insert: an existing key keeps its place in
/// the order and its value is replaced and returned; a new key goes last.
#[verifier::external_body]
fn map_insert(m: &mut IndexMap<String, Segment>, k: String, v: Segment) -> (r: Option<Segment>)
    ensures
        map_entries(*final(m)) == inserted(map_entries(*old(m)), k@, v),
        r == replaced(map_entries(*old(m)), k@),
{
    m.insert(k, v)
}

/// Relies on indexmap::IndexMap::shift_remove: removes the entry with the key,
/// shifting the later ones so that their order is kept, and returns its value;
/// a missing key leaves the map as it was.
#[verifier::external_body]
fn map_shift_remove(m: &mut IndexMap<String, Segment>, k: &str) -> (r: Option<Segment>)
    ensures
        map_entries(*final(m)) == removed(map_entries(*old(m)), k@),
        r == (if has_key(map_entries(*old(m)), k@) {
            Some(map_entries(*old(m))[index_of(map_entries(*old(m)), k@)].1)
        } else {
            None
        }),
{
    m.shift_remove(k)
}

/// Relies on indexmap::IndexMap::values: the values in iteration order.
#[verifier::external_body]
fn map_values(m: &IndexMap<String, Segment>) -> (r: Vec<Segment>)
    ensures
        r@ == map_entries(*m).map_values(|p: (Seq<char>, Segment)| p.1),
{
    m.values().copied().collect()
}

/// Relies on the Clone of indexmap::IndexMap: the same entries in the same
/// order.
#[verifier::external_body]
fn map_clone(m: &IndexMap<String, Segment>) -> (r: IndexMap<String, Segment>)
    ensures
        map_entries(r) == map_entries(*m),
{
    m.clone()
}

/// The ordered collection of segments, keyed by identifier text. Insertion
/// order decides which LEDs each segment drives.
pub struct State {
    segments: IndexMap<String, Segment>,
}

impl View for State {
    type V = Seq<(Seq<char>, Segment)>;

    closed spec fn view(&self) -> Seq<(Seq<char>, Segment)> {
        map_entries(self.segments)
    }
}

impl State {
    /// A store holding `segments`, inserted in order.
    pub fn new(segments: Vec<Segment>) -> (r: State)
        ensures
            r@ == inserted_all(Seq::empty(), segments@),
    {
        let mut res = State::new_empty();
        let mut i: usize = 0;
        while i < segments.len()
            invariant
                i <= segments@.len(),
                res@ == inserted_all(Seq::empty(), segments@.subrange(0, i as int)),
            decreases segments@.len() - i,
        {
            let seg = segments[i];
            let _ = res.insert(seg);
            proof {
                let prefix = segments@.subrange(0, i as int + 1);
                assert(prefix.drop_last() =~= segments@.subrange(0, i as int));
                assert(prefix.last() == seg);
            }
            i += 1;
        }
        assert(segments@.subrange(0, segments@.len() as int) =~= segments@);
        res
    }

    /// An empty store.
    pub fn new_empty() -> (r: State)
        ensures
            r@ == Seq::<(Seq<char>, Segment)>::empty(),
    {
        State { segments: map_new() }
    }

    /// Inserts `seg` under its identifier text: a known identifier keeps its
    /// place and the previous segment is returned; a new one goes last.
    pub fn insert(&mut self, seg: Segment) -> (r: Option<Segment>)
        ensures
            final(self)@ == inserted(old(self)@, uuid_text(seg.uuid), seg),
            r == replaced(old(self)@, uuid_text(seg.uuid)),
    {
        let key = seg.to_uuid_string();
        map_insert(&mut self.segments, key, seg)
    }

    /// Removes the segment with identifier text `segment_id` and returns it;
    /// the others keep their order. A missing identifier changes nothing.
    pub fn remove(&mut self, segment_id: &str) -> (r: Option<Segment>)
        ensures
            final(self)@ == removed(old(self)@, segment_id@),
            has_key(old(self)@, segment_id@) ==> r == Some(
                old(self)@[index_of(old(self)@, segment_id@)].1,
            ),
            !has_key(old(self)@, segment_id@) ==> r.is_none() && final(self)@ == old(self)@,
    {
        map_shift_remove(&mut self.segments, segment_id)
    }

    /// The underlying map.
    pub fn segments(&self) -> (r: &IndexMap<String, Segment>)
        ensures
            map_entries(*r) == self@,
    {
        &self.segments
    }

    /// A private copy with the same entries in the same order.
    pub fn snapshot(&self) -> (r: State)
        ensures
            r@ == self@,
    {
        State { segments: map_clone(&self.segments) }
    }

    /// Fills an empty store with the default seed; a store with segments is
    /// left as it was.
    pub fn seed_if_empty(&mut self)
        ensures
            old(self)@.len() > 0 ==> final(self)@ == old(self)@,
            old(self)@.len() == 0 ==> exists|d: Seq<Segment>|
                is_default_seed(d) && final(self)@ == inserted_all(Seq::empty(), d),
    {
        let current = self.to_vec();
        if current.len() == 0 {
            let d = default_segments();
            *self = State::new(d);
        }
    }

    /// The segments in iteration order.
    pub fn to_vec(&self) -> (r: Vec<Segment>)
        ensures
            r@ == self@.map_values(|p: (Seq<char>, Segment)| p.1),
    {
        map_values(&self.segments)
    }
}

} // verus!
