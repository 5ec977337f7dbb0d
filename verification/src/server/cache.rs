use vstd::prelude::*;
use vstd::string::StringExecFns;
use crate::common::table::KeyedTable;

verus! {

/// A value that is kept under its own id.
pub trait Cached: Sized {
    /// The id of the value.
    spec fn key(&self) -> Seq<char>;

    /// Gives the id of the value.
    fn cache_key(&self) -> (id: String)
        ensures
            id@ == self.key(),
    ;

    /// Copies the value.
    fn duplicate(&self) -> (copy: Self)
        ensures
            copy == *self,
    ;
}

/// The values of a list, each under its id. Of two values with the same id
/// the later one counts.
pub open spec fn indexed<V: Cached>(items: Seq<V>) -> Map<Seq<char>, V>
    decreases items.len(),
{
    if items.len() == 0 {
        Map::empty()
    } else {
        indexed(items.drop_last()).insert(items.last().key(), items.last())
    }
}

/// Every group of a cache is a table without a repeated key.
pub open spec fn groups_well_formed<V>(cache: &KeyedTable<KeyedTable<V>>) -> bool {
    &&& cache.well_formed()
    &&& forall|i: int| 0 <= i < cache.values().len() ==> (#[trigger] cache.values()[i]).well_formed()
}

/// In a cache whose groups are well formed, the group under any id is.
pub proof fn lemma_group_well_formed<V>(cache: &KeyedTable<KeyedTable<V>>, id: Seq<char>)
    requires
        groups_well_formed(cache),
        cache@.contains_key(id),
    ensures
        cache@[id].well_formed(),
{
    let at = crate::common::table::key_index(cache.keys(), id)->0;
    assert(cache.values()[at].well_formed());
}

/// Puts the values of a list into a table, each under its id.
pub fn index_items<V: Cached>(items: &Vec<V>) -> (table: KeyedTable<V>)
    ensures
        table.well_formed(),
        table@ == indexed(items@),
{
    let mut table: KeyedTable<V> = KeyedTable::new();
    let mut next: usize = 0;
    while next < items.len()
        invariant
            next <= items.len(),
            table.well_formed(),
            table@ == indexed(items@.take(next as int)),
        decreases items.len() - next,
    {
        proof {
            assert(items@.take(next + 1).drop_last() =~= items@.take(next as int));
        }
        let _ = table.insert(items[next].cache_key(), items[next].duplicate());
        next = next + 1;
    }
    proof {
        assert(items@.take(next as int) =~= items@);
    }
    table
}

/// Keeps the values of a list as the group of a server, in place of the
/// group that the server had. The groups of other servers stay as they are.
pub fn save_group<V: Cached>(cache: &mut KeyedTable<KeyedTable<V>>, server_id: &str, items: &Vec<V>)
    requires
        groups_well_formed(old(cache)),
    ensures
        groups_well_formed(final(cache)),
        final(cache)@.dom() == old(cache)@.dom().insert(server_id@),
        final(cache)@[server_id@]@ == indexed(items@),
        forall|id: Seq<char>|
            id != server_id@ && old(cache)@.contains_key(id) ==> final(cache)@[id] == old(
                cache,
            )@[id],
{
    let group = index_items(items);
    let ghost before = *cache;
    let _ = cache.insert(String::from_str(server_id), group);
    proof {
        assert(cache@.dom() =~= before@.dom().insert(server_id@));
        assert forall|i: int| 0 <= i < cache.values().len() implies (#[trigger] cache.values()[i]).well_formed() by {
            match crate::common::table::key_index(before.keys(), server_id@) {
                Some(at) => {
                    if i != at {
                        assert(cache.values()[i] == before.values()[i]);
                    }
                },
                None => {
                    if i < before.values().len() {
                        assert(cache.values()[i] == before.values()[i]);
                    }
                },
            }
        }
    }
}

/// The value with this id in the group of a server, if the server has a
/// group and the group holds the id.
pub fn find_in_group<V: Cached>(cache: &KeyedTable<KeyedTable<V>>, server_id: &str, id: &str) -> (found:
    Option<V>)
    requires
        groups_well_formed(cache),
    ensures
        found is Some <==> cache@.contains_key(server_id@) && cache@[server_id@]@.contains_key(
            id@,
        ),
        found is Some ==> found->0 == cache@[server_id@]@[id@],
{
    match cache.get(server_id) {
        Some(group) => {
            proof {
                lemma_group_well_formed(cache, server_id@);
            }
            match group.get(id) {
                Some(value) => Some(value.duplicate()),
                None => None,
            }
        },
        None => None,
    }
}

/// The values in the group of a server, in the order in which their ids
/// came; `None` where the server has no group.
pub fn group_values<V: Cached>(cache: &KeyedTable<KeyedTable<V>>, server_id: &str) -> (values:
    Option<Vec<V>>)
    requires
        groups_well_formed(cache),
    ensures
        values is Some <==> cache@.contains_key(server_id@),
        values is Some ==> values->0@ == cache@[server_id@].values(),
{
    match cache.get(server_id) {
        Some(group) => {
            let mut values: Vec<V> = Vec::new();
            let count = group.len();
            let mut next: usize = 0;
            while next < count
                invariant
                    next <= count,
                    count == group.values().len(),
                    values@ == group.values().take(next as int),
                decreases count - next,
            {
                values.push(group.value_at(next).duplicate());
                proof {
                    assert(values@ =~= group.values().take(next + 1));
                }
                next = next + 1;
            }
            proof {
                assert(group.values().take(next as int) =~= group.values());
            }
            Some(values)
        },
        None => None,
    }
}

} // verus!
