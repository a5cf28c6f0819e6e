use std::collections::HashMap;
use vstd::prelude::*;

verus! {

broadcast use vstd::std_specs::hash::group_hash_axioms;

/// An object that can provide a unique id.
pub trait Unique {
    /// The unique id of the object.
    spec fn unique_id(&self) -> u64;

    /// The unique id of the object.
    fn uuid(&self) -> (id: u64)
        ensures
            id == self.unique_id(),
    ;
}

/// The objects of `objs` filed under their ids, in the order of the list, so
/// that of two objects with one id the later one is kept.
pub open spec fn indexed<T: Unique>(objs: Seq<T>) -> Map<u64, T>
    decreases objs.len(),
{
    if objs.len() == 0 {
        Map::empty()
    } else {
        indexed(objs.drop_last()).insert(objs.last().unique_id(), objs.last())
    }
}

/// Files the objects of a collection, as the cloud returns them, under their
/// unique ids.
pub fn index_by_uuid<T: Unique>(objs: Vec<T>) -> (hash: HashMap<u64, T>)
    ensures
        hash@ == indexed(objs@),
{
    let mut hash: HashMap<u64, T> = HashMap::new();
    let ghost all = objs@;
    for obj in it: objs
        invariant
            all == it.seq(),
            hash@ == indexed(all.take(it.index())),
    {
        proof {
            assert(all.take(it.index() + 1).drop_last() =~= all.take(it.index()));
        }
        let id = obj.uuid();
        hash.insert(id, obj);
    }
    proof {
        assert(all.take(all.len() as int) =~= all);
    }
    hash
}


/// Filing a list of objects by id files each id that occurs in the list, and
/// no other, under the last object of the list that has it.
pub proof fn law_indexed_keeps_last<T: Unique>(objs: Seq<T>, k: u64)
    ensures
        indexed(objs).contains_key(k) <==> exists|i: int|
            0 <= i < objs.len() && #[trigger] objs[i].unique_id() == k,
        indexed(objs).contains_key(k) ==> exists|i: int|
            #![trigger objs[i]]
            0 <= i < objs.len() && objs[i].unique_id() == k && indexed(objs)[k] == objs[i]
                && forall|j: int| i < j < objs.len() ==> #[trigger] objs[j].unique_id() != k,
    decreases objs.len(),
{
    if objs.len() > 0 {
        let init = objs.drop_last();
        law_indexed_keeps_last(init, k);
        let last = objs.len() - 1;
        if objs[last].unique_id() == k {
            assert(objs[last] == objs.last());
        } else {
            if indexed(init).contains_key(k) {
                let i = choose|i: int|
                    #![trigger init[i]]
                    0 <= i < init.len() && init[i].unique_id() == k && indexed(init)[k] == init[i]
                        && forall|j: int| i < j < init.len() ==> #[trigger] init[j].unique_id() != k;
                assert(objs[i] == init[i]);
                assert forall|j: int| i < j < objs.len() implies #[trigger] objs[j].unique_id() != k by {
                    if j < init.len() {
                        assert(objs[j] == init[j]);
                    }
                }
            }
            if exists|i: int| 0 <= i < objs.len() && #[trigger] objs[i].unique_id() == k {
                let i = choose|i: int| 0 <= i < objs.len() && #[trigger] objs[i].unique_id() == k;
                assert(init[i] == objs[i]);
            }
        }
        if exists|i: int| 0 <= i < init.len() && #[trigger] init[i].unique_id() == k {
            let i = choose|i: int| 0 <= i < init.len() && #[trigger] init[i].unique_id() == k;
            assert(objs[i] == init[i]);
        }
    }
}

} // verus!
