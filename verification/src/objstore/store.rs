//! In-memory object store: objects by identifier, and an index from each
//! tag to the identifiers that carry it, in insertion order.

use crate::objstore::{ObjError, ObjId, Object, ObjectView};
use crate::text_map::TextMap;
use std::collections::BTreeMap;
use vstd::prelude::*;

verus! {

/// How often `tag` occurs in a tag list.
pub open spec fn occurrences(tags: Seq<Seq<char>>, tag: Seq<char>) -> nat
    decreases tags.len(),
{
    if tags.len() == 0 {
        0
    } else {
        occurrences(tags.drop_last(), tag) + if tags.last() == tag {
            1nat
        } else {
            0nat
        }
    }
}

/// The sequence that holds `id` exactly `n` times.
pub open spec fn repeated(id: u64, n: nat) -> Seq<u64> {
    Seq::new(n, |i: int| id)
}

/// `ids` with every occurrence of `id` taken out; the rest keeps its order.
pub open spec fn without(ids: Seq<u64>, id: u64) -> Seq<u64>
    decreases ids.len(),
{
    if ids.len() == 0 {
        ids
    } else if ids.last() == id {
        without(ids.drop_last(), id)
    } else {
        without(ids.drop_last(), id).push(ids.last())
    }
}

/// A tag occurs at least once exactly if the list contains it.
pub proof fn lemma_occurrences_positive(tags: Seq<Seq<char>>, tag: Seq<char>)
    ensures
        occurrences(tags, tag) > 0 <==> tags.contains(tag),
    decreases tags.len(),
{
    if tags.len() > 0 {
        let front = tags.drop_last();
        lemma_occurrences_positive(front, tag);
        if tags.contains(tag) {
            let i = choose|i: int| 0 <= i < tags.len() && tags[i] == tag;
            if i < tags.len() - 1 {
                assert(front[i] == tag);
            }
        }
        if front.contains(tag) {
            let i = choose|i: int| 0 <= i < front.len() && front[i] == tag;
            assert(tags[i] == tag);
        }
        if tags.last() == tag {
            assert(tags[tags.len() - 1] == tag);
        }
    }
}

/// What is left after taking `id` out is what was there and is not `id`.
pub proof fn lemma_without_contains(ids: Seq<u64>, id: u64, x: u64)
    ensures
        without(ids, id).contains(x) <==> ids.contains(x) && x != id,
    decreases ids.len(),
{
    if ids.len() > 0 {
        let front = ids.drop_last();
        lemma_without_contains(front, id, x);
        if ids.contains(x) {
            let i = choose|i: int| 0 <= i < ids.len() && ids[i] == x;
            if i < ids.len() - 1 {
                assert(front[i] == x);
            }
        }
        if front.contains(x) {
            let i = choose|i: int| 0 <= i < front.len() && front[i] == x;
            assert(ids[i] == x);
        }
        assert(ids[ids.len() - 1] == ids.last());
        if ids.last() != id {
            let kept = without(front, id);
            let all = kept.push(ids.last());
            if kept.contains(x) {
                let i = choose|i: int| 0 <= i < kept.len() && kept[i] == x;
                assert(all[i] == x);
            }
            assert(all[all.len() - 1] == ids.last());
            if all.contains(x) {
                let i = choose|i: int| 0 <= i < all.len() && all[i] == x;
                if i < all.len() - 1 {
                    assert(kept[i] == x);
                }
            }
        }
    }
}

/// Taking out an identifier that does not occur changes nothing.
pub proof fn lemma_without_absent(ids: Seq<u64>, id: u64)
    requires
        !ids.contains(id),
    ensures
        without(ids, id) == ids,
    decreases ids.len(),
{
    if ids.len() > 0 {
        let front = ids.drop_last();
        assert(ids[ids.len() - 1] == ids.last());
        assert forall|i: int| 0 <= i < front.len() implies front[i] != id by {
            assert(ids[i] == front[i]);
        }
        lemma_without_absent(front, id);
        assert(front.push(ids.last()) =~= ids);
    }
}

/// The store: every live object under its identifier, and the tag index.
pub struct ObjectStore {
    objects: BTreeMap<u64, Object>,
    tag_index: TextMap<Vec<u64>>,
}

/// The identifiers that an index lists under `tag`: none if the tag was
/// never seen.
spec fn listed(index: Map<Seq<char>, Vec<u64>>, tag: Seq<char>) -> Seq<u64> {
    if index.contains_key(tag) {
        index[tag]@
    } else {
        Seq::empty()
    }
}

/// The view of every stored object, under the same identifier.
spec fn views(objects: Map<u64, Object>) -> Map<u64, ObjectView> {
    objects.map_values(|o: Object| o@)
}

impl ObjectStore {
    /// The live objects, by raw identifier.
    pub closed spec fn objects(&self) -> Map<u64, ObjectView> {
        views(self.objects@)
    }

    /// The identifiers indexed under `tag`, in insertion order.
    pub closed spec fn tagged(&self, tag: Seq<char>) -> Seq<u64> {
        listed(self.tag_index@, tag)
    }

    /// Every object is stored under its own identifier, and the tag index
    /// lists an identifier under a tag exactly if that identifier names a
    /// live object whose tags contain the tag.
    pub open spec fn wf(&self) -> bool {
        &&& self.objects().dom().finite()
        &&& forall|id: u64| #[trigger]
            self.objects().contains_key(id) ==> self.objects()[id].id == id
        &&& forall|tag: Seq<char>, id: u64| #[trigger]
            self.tagged(tag).contains(id) <==> self.objects().contains_key(id)
                && self.objects()[id].tags.contains(tag)
    }

    /// The identifier of every stored object is the hash of its content.
    pub open spec fn content_addressed(&self) -> bool {
        forall|id: u64| #[trigger]
            self.objects().contains_key(id) ==> self.objects()[id].content_addressed()
    }

    /// Both stores hold the same objects and the same index.
    pub open spec fn same_contents(&self, other: &ObjectStore) -> bool {
        &&& self.objects() == other.objects()
        &&& forall|tag: Seq<char>| #[trigger] self.tagged(tag) == other.tagged(tag)
    }

    /// `self` is `before` with `obj` stored, and its identifier appended to
    /// the index of each of its tags, once per occurrence.
    pub open spec fn has_gained(&self, before: &ObjectStore, obj: ObjectView) -> bool {
        &&& self.objects() == before.objects().insert(obj.id, obj)
        &&& forall|tag: Seq<char>| #[trigger]
            self.tagged(tag) == before.tagged(tag) + repeated(obj.id, occurrences(obj.tags, tag))
    }

    /// `self` is `before` with the object `id` gone, from the objects and
    /// from every list of the index.
    pub open spec fn has_lost(&self, before: &ObjectStore, id: u64) -> bool {
        &&& self.objects() == before.objects().remove(id)
        &&& forall|tag: Seq<char>| #[trigger] self.tagged(tag) == without(before.tagged(tag), id)
    }

    /// What `create` answers and leaves behind.
    pub open spec fn create_spec(
        &self,
        before: &ObjectStore,
        obj: Object,
        res: Result<ObjId, ObjError>,
    ) -> bool {
        if before.objects().contains_key(obj.id@) {
            res == Err::<ObjId, ObjError>(ObjError::AlreadyExists) && self.same_contents(before)
        } else {
            res == Ok::<ObjId, ObjError>(obj.id) && self.has_gained(before, obj@)
        }
    }

    /// What `read` answers.
    pub open spec fn read_spec(&self, id: u64, res: Result<Object, ObjError>) -> bool {
        match res {
            Ok(obj) => self.objects().contains_key(id) && obj@ == self.objects()[id],
            Err(e) => e == ObjError::NotFound && !self.objects().contains_key(id),
        }
    }

    /// What `delete` answers and leaves behind.
    pub open spec fn delete_spec(
        &self,
        before: &ObjectStore,
        id: u64,
        res: Result<(), ObjError>,
    ) -> bool {
        if before.objects().contains_key(id) {
            res == Ok::<(), ObjError>(()) && self.has_lost(before, id)
        } else {
            res == Err::<(), ObjError>(ObjError::NotFound) && self.same_contents(before)
        }
    }

    /// The empty store.
    pub fn new() -> (store: ObjectStore)
        ensures
            store.objects() == Map::<u64, ObjectView>::empty(),
            forall|tag: Seq<char>| #[trigger] store.tagged(tag) == Seq::<u64>::empty(),
            store.wf(),
            store.content_addressed(),
    {
        let store = ObjectStore { objects: BTreeMap::new(), tag_index: TextMap::new() };
        assert(store.objects() =~= Map::<u64, ObjectView>::empty());
        store
    }
}

/// Store an object under its identifier and index it under each of its
/// tags, once per occurrence. Returns the identifier.
///
/// Refused with `AlreadyExists`, and without any change, if an object with
/// that identifier is stored already.
pub fn create(store: &mut ObjectStore, obj: Object) -> (res: Result<ObjId, ObjError>)
    requires
        old(store).wf(),
    ensures
        final(store).create_spec(old(store), obj, res),
        final(store).wf(),
        old(store).content_addressed() && obj@.content_addressed()
            ==> final(store).content_addressed(),
{
    let id = obj.id;
    let key = id.raw();
    if store.objects.contains_key(&key) {
        return Err(ObjError::AlreadyExists);
    }
    let ghost tags = obj@.tags;
    let mut j: usize = 0;
    while j < obj.tags.len()
        invariant
            j <= obj.tags.len(),
            tags == obj@.tags,
            key == obj.id@,
            store.objects@ == old(store).objects@,
            forall|tag: Seq<char>| #[trigger]
                listed(store.tag_index@, tag) == listed(old(store).tag_index@, tag) + repeated(
                    key,
                    occurrences(tags.take(j as int), tag),
                ),
        decreases obj.tags.len() - j,
    {
        let ghost before = store.tag_index@;
        let tag = obj.tags[j].clone();
        let mut ids = match store.tag_index.remove(tag.as_str()) {
            Some(ids) => ids,
            None => Vec::new(),
        };
        let ghost listed_before = ids@;
        ids.push(key);
        store.tag_index.insert(tag, ids);
        proof {
            let after = store.tag_index@;
            let t = tags[j as int];
            assert(t == obj.tags@[j as int]@);
            assert(listed_before == listed(before, t));
            assert(tags.take(j + 1).drop_last() =~= tags.take(j as int));
            assert(tags.take(j + 1).last() == t);
            assert forall|other: Seq<char>| #[trigger]
                listed(after, other) == listed(old(store).tag_index@, other) + repeated(
                    key,
                    occurrences(tags.take(j + 1), other),
                ) by {
                if other == t {
                    let n = occurrences(tags.take(j as int), other);
                    assert(repeated(key, n).push(key) =~= repeated(key, n + 1));
                    assert(listed(after, other) =~= listed(before, other).push(key));
                    assert(listed(before, other) == listed(old(store).tag_index@, other)
                        + repeated(key, n));
                    assert((listed(old(store).tag_index@, other) + repeated(key, n)).push(key)
                        =~= listed(old(store).tag_index@, other) + repeated(key, n).push(key));
                } else {
                    assert(listed(after, other) == listed(before, other));
                }
            }
        }
        j = j + 1;
    }
    proof {
        assert(tags.take(j as int) =~= tags);
    }
    store.objects.insert(key, obj);
    proof {
        assert(store.objects() =~= old(store).objects().insert(key, obj@));
        lemma_create_keeps_index_consistent(*old(store), *store, obj@);
    }
    Ok(id)
}

/// The raw number of each identifier, in order.
pub open spec fn raw_ids(ids: Seq<ObjId>) -> Seq<u64> {
    ids.map_values(|id: ObjId| id@)
}

/// Read an object by identifier: a copy of what is stored.
pub fn read(store: &ObjectStore, id: ObjId) -> (res: Result<Object, ObjError>)
    ensures
        store.read_spec(id@, res),
{
    match store.objects.get(&id.raw()) {
        Some(obj) => Ok(obj.clone()),
        None => Err(ObjError::NotFound),
    }
}

/// The identifiers indexed under a tag, in insertion order; empty if the
/// tag is unknown.
pub fn query_by_tag(store: &ObjectStore, tag: &str) -> (ids: Vec<ObjId>)
    ensures
        raw_ids(ids@) == store.tagged(tag@),
        store.wf() ==> forall|id: u64|
            raw_ids(ids@).contains(id) <==> #[trigger] store.objects().contains_key(id)
                && store.objects()[id].tags.contains(tag@),
{
    let mut ids: Vec<ObjId> = Vec::new();
    match store.tag_index.get(tag) {
        Some(listed_ids) => {
            let mut i: usize = 0;
            while i < listed_ids.len()
                invariant
                    i <= listed_ids.len(),
                    raw_ids(ids@) == listed_ids@.take(i as int),
                decreases listed_ids.len() - i,
            {
                let ghost before = ids@;
                let next = ObjId::from_raw(listed_ids[i]);
                ids.push(next);
                assert(raw_ids(ids@) =~= raw_ids(before).push(next@));
                assert(listed_ids@.take(i + 1) =~= listed_ids@.take(i as int).push(
                    listed_ids@[i as int],
                ));
                i = i + 1;
            }
            assert(listed_ids@.take(i as int) =~= listed_ids@);
        },
        None => {
            assert(raw_ids(ids@) =~= Seq::<u64>::empty());
        },
    }
    proof {
        if store.wf() {
            assert forall|id: u64|
                raw_ids(ids@).contains(id) <==> #[trigger] store.objects().contains_key(id)
                    && store.objects()[id].tags.contains(tag@) by {
                assert(store.tagged(tag@).contains(id) <==> store.objects().contains_key(id)
                    && store.objects()[id].tags.contains(tag@));
            }
        }
    }
    ids
}

/// `ids` without any occurrence of `id`.
fn remove_all(ids: Vec<u64>, id: u64) -> (kept: Vec<u64>)
    ensures
        kept@ == without(ids@, id),
{
    let mut kept: Vec<u64> = Vec::new();
    let mut i: usize = 0;
    while i < ids.len()
        invariant
            i <= ids.len(),
            kept@ == without(ids@.take(i as int), id),
        decreases ids.len() - i,
    {
        assert(ids@.take(i + 1).drop_last() =~= ids@.take(i as int));
        if ids[i] != id {
            kept.push(ids[i]);
        }
        i = i + 1;
    }
    assert(ids@.take(i as int) =~= ids@);
    kept
}

/// Delete an object by identifier, and take the identifier out of the tag
/// index wherever it occurs.
///
/// Fails with `NotFound`, and without any change, if no such object is
/// stored.
pub fn delete(store: &mut ObjectStore, id: ObjId) -> (res: Result<(), ObjError>)
    requires
        old(store).wf(),
    ensures
        final(store).delete_spec(old(store), id@, res),
        final(store).wf(),
        old(store).content_addressed() ==> final(store).content_addressed(),
{
    let key = id.raw();
    let obj = match store.objects.remove(&key) {
        Some(obj) => obj,
        None => {
            proof {
                assert(store.objects@ =~= old(store).objects@);
                assert(store.objects() == old(store).objects());
                assert forall|tag: Seq<char>, other: u64| #[trigger]
                    store.tagged(tag).contains(other) <==> store.objects().contains_key(other)
                        && store.objects()[other].tags.contains(tag) by {
                    let before = old(store);
                    assert(before.tagged(tag).contains(other) <==> before.objects().contains_key(
                        other,
                    ) && before.objects()[other].tags.contains(tag));
                }
            }
            return Err(ObjError::NotFound);
        },
    };
    let ghost tags = obj@.tags;
    assert(tags == old(store).objects()[key].tags);
    assert(store.objects() =~= old(store).objects().remove(key));
    let mut j: usize = 0;
    while j < obj.tags.len()
        invariant
            j <= obj.tags.len(),
            tags == obj@.tags,
            store.objects@ == old(store).objects@.remove(key),
            forall|tag: Seq<char>| #[trigger]
                listed(store.tag_index@, tag) == if tags.take(j as int).contains(tag) {
                    without(listed(old(store).tag_index@, tag), key)
                } else {
                    listed(old(store).tag_index@, tag)
                },
        decreases obj.tags.len() - j,
    {
        let ghost before = store.tag_index@;
        let tag = obj.tags[j].clone();
        match store.tag_index.remove(tag.as_str()) {
            Some(ids) => {
                let kept = remove_all(ids, key);
                store.tag_index.insert(tag, kept);
            },
            None => {},
        }
        proof {
            let after = store.tag_index@;
            let t = tags[j as int];
            assert(t == obj.tags@[j as int]@);
            let seen = tags.take(j as int);
            let seen_next = tags.take(j + 1);
            assert(seen_next[j as int] == t);
            assert forall|other: Seq<char>| seen_next.contains(other) <==> seen.contains(other)
                || other == t by {
                if seen.contains(other) {
                    let i = choose|i: int| 0 <= i < seen.len() && seen[i] == other;
                    assert(seen_next[i] == other);
                }
                if seen_next.contains(other) {
                    let i = choose|i: int| 0 <= i < seen_next.len() && seen_next[i] == other;
                    if i < j {
                        assert(seen[i] == other);
                    }
                }
            }
            assert forall|other: Seq<char>| #[trigger]
                listed(after, other) == if seen_next.contains(other) {
                    without(listed(old(store).tag_index@, other), key)
                } else {
                    listed(old(store).tag_index@, other)
                } by {
                let at_first = listed(old(store).tag_index@, other);
                if other == t {
                    assert(listed(after, other) == without(listed(before, other), key));
                    if seen.contains(other) {
                        lemma_without_contains(at_first, key, key);
                        lemma_without_absent(without(at_first, key), key);
                    }
                } else {
                    assert(listed(after, other) == listed(before, other));
                }
            }
        }
        j = j + 1;
    }
    proof {
        assert(tags.take(j as int) =~= tags);
        assert forall|tag: Seq<char>| #[trigger]
            store.tagged(tag) == without(old(store).tagged(tag), key) by {
            if !tags.contains(tag) {
                assert(!old(store).tagged(tag).contains(key));
                lemma_without_absent(old(store).tagged(tag), key);
            }
        }
        lemma_delete_keeps_index_consistent(*old(store), *store, key);
    }
    Ok(())
}

/// Count of objects in the store.
pub fn count(store: &ObjectStore) -> (n: usize)
    ensures
        n == store.objects().len(),
{
    assert(store.objects().dom() =~= store.objects@.dom());
    store.objects.len()
}

/// An identifier is in a concatenation exactly if it is in one of the parts.
proof fn lemma_concat_contains(a: Seq<u64>, b: Seq<u64>, x: u64)
    ensures
        (a + b).contains(x) <==> a.contains(x) || b.contains(x),
{
    if a.contains(x) {
        let i = choose|i: int| 0 <= i < a.len() && a[i] == x;
        assert((a + b)[i] == x);
    }
    if b.contains(x) {
        let i = choose|i: int| 0 <= i < b.len() && b[i] == x;
        assert((a + b)[a.len() + i] == x);
    }
    if (a + b).contains(x) {
        let i = choose|i: int| 0 <= i < (a + b).len() && (a + b)[i] == x;
        if i < a.len() {
            assert(a[i] == x);
        } else {
            assert(b[i - a.len()] == x);
        }
    }
}

/// A repetition of `id` contains `id` if it is not empty, and nothing else.
proof fn lemma_repeated_contains(id: u64, n: nat, x: u64)
    ensures
        repeated(id, n).contains(x) <==> n > 0 && x == id,
{
    if n > 0 {
        assert(repeated(id, n)[0] == id);
    }
}

/// Content addressing: two objects whose identifiers are the hashes of
/// their contents, and whose contents are the same, have the same
/// identifier.
pub proof fn lemma_same_content_same_id(a: ObjectView, b: ObjectView)
    requires
        a.content_addressed(),
        b.content_addressed(),
        a.content == b.content,
    ensures
        a.id == b.id,
{
}

/// Of two `create` calls with identical content the second is refused:
/// once the first object is stored, the identifier of the second is taken,
/// which is the case in which `create` answers `AlreadyExists`.
pub proof fn lemma_duplicate_content_is_refused(
    objects: Map<u64, ObjectView>,
    first: ObjectView,
    second: ObjectView,
)
    requires
        first.content_addressed(),
        second.content_addressed(),
        first.content == second.content,
    ensures
        objects.insert(first.id, first).contains_key(second.id),
{
}

/// Tag index consistency is kept by what `create` leaves behind: if it
/// held before an object with a new identifier was gained, it holds
/// afterwards.
pub proof fn lemma_create_keeps_index_consistent(
    before: ObjectStore,
    after: ObjectStore,
    obj: ObjectView,
)
    requires
        before.wf(),
        !before.objects().contains_key(obj.id),
        after.has_gained(&before, obj),
    ensures
        after.wf(),
{
    assert forall|tag: Seq<char>, other: u64| #[trigger]
        after.tagged(tag).contains(other) <==> after.objects().contains_key(other)
            && after.objects()[other].tags.contains(tag) by {
        assert(before.tagged(tag).contains(other) <==> before.objects().contains_key(other)
            && before.objects()[other].tags.contains(tag));
        lemma_concat_contains(
            before.tagged(tag),
            repeated(obj.id, occurrences(obj.tags, tag)),
            other,
        );
        lemma_repeated_contains(obj.id, occurrences(obj.tags, tag), other);
        lemma_occurrences_positive(obj.tags, tag);
    }
}

/// Tag index consistency is kept by what `delete` leaves behind: if it
/// held before an object was lost, it holds afterwards. Together with the
/// same for `create`, it holds after any sequence of the two.
pub proof fn lemma_delete_keeps_index_consistent(
    before: ObjectStore,
    after: ObjectStore,
    id: u64,
)
    requires
        before.wf(),
        after.has_lost(&before, id),
    ensures
        after.wf(),
{
    assert forall|tag: Seq<char>, other: u64| #[trigger]
        after.tagged(tag).contains(other) <==> after.objects().contains_key(other)
            && after.objects()[other].tags.contains(tag) by {
        assert(before.tagged(tag).contains(other) <==> before.objects().contains_key(other)
            && before.objects()[other].tags.contains(tag));
        lemma_without_contains(before.tagged(tag), id, other);
    }
}

} // verus!
