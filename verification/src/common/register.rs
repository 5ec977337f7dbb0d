use vstd::prelude::*;
use crate::common::search::QuerySource;
use crate::common::table::{key_index, KeyedTable};
use crate::common::traits::SearchSource;

verus! {

/// The backends that take part in a round, each under its id.
pub struct SearchSourceRegistry<S: SearchSource> {
    sources: KeyedTable<S>,
}

impl<S: SearchSource> View for SearchSourceRegistry<S> {
    type V = Map<Seq<char>, S>;

    /// The registry as a map from ids to backends.
    closed spec fn view(&self) -> Map<Seq<char>, S> {
        self.sources@
    }
}

impl<S: SearchSource> SearchSourceRegistry<S> {
    /// The ids of the backends, in the order in which they were first
    /// registered.
    pub closed spec fn ids(&self) -> Seq<Seq<char>> {
        self.sources.keys()
    }

    /// The backends, each at the place of its id.
    pub closed spec fn backends(&self) -> Seq<S> {
        self.sources.values()
    }

    /// No id occurs twice, and every backend stands under its own id.
    pub closed spec fn well_formed(&self) -> bool {
        &&& self.sources.well_formed()
        &&& forall|i: int|
            0 <= i < self.sources.values().len() ==> (#[trigger] self.sources.values()[i]).identity().id
                == self.sources.keys()[i]
    }

    /// What `well_formed` promises, in terms of `ids` and `backends`.
    pub proof fn lemma_well_formed(&self)
        requires
            self.well_formed(),
        ensures
            self.ids().no_duplicates(),
            self.ids().len() == self.backends().len(),
            forall|i: int|
                0 <= i < self.backends().len() ==> (#[trigger] self.backends()[i]).identity().id
                    == self.ids()[i],
            self@.dom() =~= self.ids().to_set(),
    {
        assert forall|id: Seq<char>| self@.dom().contains(id) <==> self.ids().to_set().contains(
            id,
        ) by {}
    }

    /// A registry without backends.
    pub fn new() -> (registry: Self)
        ensures
            registry.well_formed(),
            registry.ids() == Seq::<Seq<char>>::empty(),
            registry.backends() == Seq::<S>::empty(),
            registry@ == Map::<Seq<char>, S>::empty(),
    {
        SearchSourceRegistry { sources: KeyedTable::new() }
    }

    /// Registers a backend under its id. A backend that was registered under
    /// this id before is replaced and the id keeps its place; a new id goes
    /// to the end.
    pub fn register_source(&mut self, source: S)
        requires
            old(self).well_formed(),
        ensures
            final(self).well_formed(),
            final(self)@ == old(self)@.insert(source.identity().id, source),
            match key_index(old(self).ids(), source.identity().id) {
                Some(at) => {
                    &&& final(self).ids() == old(self).ids()
                    &&& final(self).backends() == old(self).backends().update(at, source)
                },
                None => {
                    &&& final(self).ids() == old(self).ids().push(source.identity().id)
                    &&& final(self).backends() == old(self).backends().push(source)
                },
            },
    {
        let id = source.get_type().id;
        let _ = self.sources.insert(id, source);
    }

    /// Takes the backend with this id out, if there is one; the others keep
    /// their order.
    pub fn remove_source(&mut self, id: &str)
        requires
            old(self).well_formed(),
        ensures
            final(self).well_formed(),
            final(self)@ == old(self)@.remove(id@),
            match key_index(old(self).ids(), id@) {
                Some(at) => {
                    &&& final(self).ids() == old(self).ids().remove(at)
                    &&& final(self).backends() == old(self).backends().remove(at)
                },
                None => {
                    &&& final(self).ids() == old(self).ids()
                    &&& final(self).backends() == old(self).backends()
                },
            },
    {
        let _ = self.sources.remove(id);
    }

    /// The backend with this id, if there is one.
    pub fn get_source(&self, id: &str) -> (source: Option<&S>)
        requires
            self.well_formed(),
        ensures
            source is Some <==> self@.contains_key(id@),
            source is Some ==> *source->0 == self@[id@],
            source is Some ==> source->0.identity().id == id@,
    {
        let place = self.sources.find(id);
        match place {
            Some(at) => Some(self.sources.value_at(at)),
            None => None,
        }
    }

    /// The backends as they are registered now, in the order of their ids.
    /// What is registered or removed later does not change this listing.
    pub fn get_sources(&self) -> (sources: Vec<&S>)
        ensures
            sources@.len() == self.backends().len(),
            forall|i: int| 0 <= i < sources@.len() ==> *sources@[i] == self.backends()[i],
    {
        let mut sources: Vec<&S> = Vec::new();
        let mut next: usize = 0;
        while next < self.sources.len()
            invariant
                next <= self.sources.values().len(),
                sources@.len() == next,
                forall|i: int| 0 <= i < next ==> *sources@[i] == self.sources.values()[i],
            decreases self.sources.values().len() - next,
        {
            sources.push(self.sources.value_at(next));
            next = next + 1;
        }
        sources
    }

    /// The identities of the backends, in the order of their ids.
    pub fn list_backends(&self) -> (identities: Vec<QuerySource>)
        ensures
            identities@.len() == self.backends().len(),
            forall|i: int|
                0 <= i < identities@.len() ==> identities@[i]@ == self.backends()[i].identity(),
    {
        let mut identities: Vec<QuerySource> = Vec::new();
        let mut next: usize = 0;
        while next < self.sources.len()
            invariant
                next <= self.sources.values().len(),
                identities@.len() == next,
                forall|i: int|
                    0 <= i < next ==> identities@[i]@ == self.sources.values()[i].identity(),
            decreases self.sources.values().len() - next,
        {
            identities.push(self.sources.value_at(next).get_type());
            next = next + 1;
        }
        identities
    }
}

} // verus!
