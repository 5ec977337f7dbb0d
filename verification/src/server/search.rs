use vstd::prelude::*;
use vstd::string::StringExecFns;
use crate::common::document::Document;
use crate::common::search::{QueryHits, QueryResponse, QuerySource, SearchQuery};
use crate::common::server::Server;
use crate::common::table::KeyedTable;
use crate::common::text::{decimal, decimal_text};
use crate::score::{rank_of, score_rank};

verus! {

/// One entry of a collector: the id of the backend, the document and its
/// score, as the bit pattern of an IEEE-754 binary64 number.
pub struct CollectedHit {
    pub source: String,
    pub document: Document,
    pub score: u64,
}

/// The rank of an entry: the rank of its score.
pub open spec fn entry_rank(entry: CollectedHit) -> u64 {
    rank_of(entry.score)
}

/// Entries are in descending order of rank.
pub open spec fn ranked_desc(entries: Seq<CollectedHit>) -> bool {
    forall|i: int, j: int|
        0 <= i < j < entries.len() ==> entry_rank(entries[i]) >= entry_rank(entries[j])
}

/// The number of entries that rank at least as high as `rank`.
pub open spec fn count_at_least(entries: Seq<CollectedHit>, rank: u64) -> nat
    decreases entries.len(),
{
    if entries.len() == 0 {
        0
    } else if entry_rank(entries.last()) >= rank {
        count_at_least(entries.drop_last(), rank) + 1
    } else {
        count_at_least(entries.drop_last(), rank)
    }
}

/// Where the entries before a place rank at least as high as `rank` and the
/// others rank lower, the place is the number of entries that rank at least
/// as high.
pub proof fn lemma_count_at_least(entries: Seq<CollectedHit>, rank: u64, place: int)
    requires
        0 <= place <= entries.len(),
        forall|i: int| 0 <= i < place ==> entry_rank(entries[i]) >= rank,
        forall|i: int| place <= i < entries.len() ==> entry_rank(entries[i]) < rank,
    ensures
        count_at_least(entries, rank) == place,
    decreases entries.len(),
{
    if entries.len() > 0 {
        let rest = entries.drop_last();
        if place == entries.len() {
            assert(entry_rank(entries[entries.len() - 1]) >= rank);
            lemma_count_at_least(rest, rank, place - 1);
        } else {
            assert(entry_rank(entries[entries.len() - 1]) < rank);
            lemma_count_at_least(rest, rank, place);
        }
    }
}

/// `entries` with `entry` put in behind those that rank at least as high,
/// cut down to the `size` first.
pub open spec fn collected(entries: Seq<CollectedHit>, entry: CollectedHit, size: u64) -> Seq<
    CollectedHit,
> {
    let grown = entries.insert(count_at_least(entries, entry_rank(entry)) as int, entry);
    if grown.len() > size {
        grown.take(size as int)
    } else {
        grown
    }
}

/// Putting an entry into ranked entries leaves them ranked, and within the
/// size.
pub proof fn lemma_collected(entries: Seq<CollectedHit>, entry: CollectedHit, size: u64)
    requires
        ranked_desc(entries),
        entries.len() <= size,
    ensures
        ranked_desc(collected(entries, entry, size)),
        collected(entries, entry, size).len() <= size,
        collected(entries, entry, size).len() == if entries.len() < size {
            entries.len() + 1
        } else {
            entries.len()
        },
{
    let rank = entry_rank(entry);
    let place = count_at_least(entries, rank) as int;
    lemma_count_bounds(entries, rank);
    let grown = entries.insert(place, entry);
    assert forall|i: int, j: int| 0 <= i < j < grown.len() implies entry_rank(grown[i])
        >= entry_rank(grown[j]) by {
        let a = if i < place { i } else { i - 1 };
        let b = if j < place { j } else { j - 1 };
        if i != place {
            assert(grown[i] == entries[a]);
        }
        if j != place {
            assert(grown[j] == entries[b]);
        }
    }
}

/// In ranked entries, those that rank at least as high as `rank` come first.
pub proof fn lemma_count_bounds(entries: Seq<CollectedHit>, rank: u64)
    requires
        ranked_desc(entries),
    ensures
        count_at_least(entries, rank) <= entries.len(),
        forall|i: int| 0 <= i < count_at_least(entries, rank) ==> entry_rank(entries[i]) >= rank,
        forall|i: int|
            count_at_least(entries, rank) <= i < entries.len() ==> entry_rank(entries[i]) < rank,
    decreases entries.len(),
{
    if entries.len() > 0 {
        let rest = entries.drop_last();
        let last = entries.len() - 1;
        assert(ranked_desc(rest)) by {
            assert forall|i: int, j: int| 0 <= i < j < rest.len() implies entry_rank(rest[i])
                >= entry_rank(rest[j]) by {
                assert(rest[i] == entries[i] && rest[j] == entries[j]);
            }
        }
        lemma_count_bounds(rest, rank);
        let before = count_at_least(rest, rank) as int;
        assert forall|i: int| 0 <= i < rest.len() implies rest[i] == entries[i] by {}
        if entry_rank(entries.last()) >= rank {
            assert(before == rest.len()) by {
                if before < rest.len() {
                    assert(entry_rank(rest[before]) < rank);
                    assert(entry_rank(entries[before]) >= entry_rank(entries[last]));
                }
            }
        }
    }
}

/// Keeps the best entries that it was given, up to a fixed number, in
/// descending order of score. Entries of equal rank stay in the order in
/// which they came.
pub struct DocumentsSizedCollector {
    size: u64,
    docs: Vec<CollectedHit>,
}

impl DocumentsSizedCollector {
    /// The number of entries that the collector keeps at most.
    pub closed spec fn capacity(&self) -> u64 {
        self.size
    }

    /// The entries that the collector holds, best first.
    pub closed spec fn entries(&self) -> Seq<CollectedHit> {
        self.docs@
    }

    /// The entries are ranked and within the capacity.
    pub open spec fn well_formed(&self) -> bool {
        &&& ranked_desc(self.entries())
        &&& self.entries().len() <= self.capacity()
    }

    /// An empty collector that keeps at most `size` entries.
    pub fn new(size: u64) -> (collector: Self)
        ensures
            collector.well_formed(),
            collector.capacity() == size,
            collector.entries() == Seq::<CollectedHit>::empty(),
    {
        DocumentsSizedCollector { size, docs: Vec::new() }
    }

    /// Puts a document in at its rank. Where that makes one entry too many,
    /// the last one is dropped.
    pub fn push(&mut self, source: String, item: Document, score: u64)
        requires
            old(self).well_formed(),
        ensures
            final(self).well_formed(),
            final(self).capacity() == old(self).capacity(),
            final(self).entries() == collected(
                old(self).entries(),
                CollectedHit { source, document: item, score },
                old(self).capacity(),
            ),
    {
        let rank = score_rank(score);
        let mut low: usize = 0;
        let mut high: usize = self.docs.len();
        while low < high
            invariant
                low <= high <= self.docs.len(),
                *self == *old(self),
                forall|i: int| 0 <= i < low ==> entry_rank(self.docs@[i]) >= rank,
                forall|i: int| high <= i < self.docs.len() ==> entry_rank(self.docs@[i]) < rank,
                ranked_desc(self.docs@),
            decreases high - low,
        {
            let middle: usize = low + (high - low) / 2;
            if score_rank(self.docs[middle].score) >= rank {
                low = middle + 1;
            } else {
                high = middle;
            }
        }
        let entry = CollectedHit { source, document: item, score };
        proof {
            lemma_count_at_least(self.docs@, rank, low as int);
            lemma_collected(self.docs@, entry, self.size);
        }
        self.docs.insert(low, entry);
        if self.docs.len() as u64 > self.size {
            self.docs.truncate(self.size as usize);
        }
    }

    /// The documents that the collector holds, best first.
    pub fn documents(self) -> (documents: Vec<Document>)
        ensures
            documents@.len() == self.entries().len(),
            forall|i: int|
                0 <= i < documents@.len() ==> documents@[i] == self.entries()[i].document,
    {
        let mut documents: Vec<Document> = Vec::new();
        let mut next: usize = 0;
        while next < self.docs.len()
            invariant
                next <= self.docs.len(),
                documents@.len() == next,
                forall|i: int| 0 <= i < next ==> documents@[i] == self.docs@[i].document,
            decreases self.docs.len() - next,
        {
            documents.push(self.docs[next].document.clone());
            next = next + 1;
        }
        documents
    }

    /// The entries as hits, best first, each with the identity that `x` holds
    /// for the id of its backend, or with none where `x` does not know the id.
    pub fn documents_with_sources(self, x: &KeyedTable<QuerySource>) -> (hits: Vec<QueryHits>)
        requires
            x.well_formed(),
        ensures
            hits@.len() == self.entries().len(),
            forall|i: int|
                0 <= i < hits@.len() ==> {
                    &&& hits@[i].document == self.entries()[i].document
                    &&& hits@[i].score == self.entries()[i].score
                    &&& hits@[i].source is Some <==> x@.contains_key(self.entries()[i].source@)
                    &&& hits@[i].source is Some ==> hits@[i].source->0 == x@[self.entries()[i].source@]
                },
    {
        let mut hits: Vec<QueryHits> = Vec::new();
        let mut next: usize = 0;
        while next < self.docs.len()
            invariant
                next <= self.docs.len(),
                x.well_formed(),
                hits@.len() == next,
                forall|i: int|
                    0 <= i < next ==> {
                        &&& hits@[i].document == self.docs@[i].document
                        &&& hits@[i].score == self.docs@[i].score
                        &&& hits@[i].source is Some <==> x@.contains_key(self.docs@[i].source@)
                        &&& hits@[i].source is Some ==> hits@[i].source->0
                            == x@[self.docs@[i].source@]
                    },
            decreases self.docs.len() - next,
        {
            let entry = &self.docs[next];
            let source = match x.get(entry.source.as_str()) {
                Some(identity) => Some(identity.clone()),
                None => None,
            };
            hits.push(QueryHits { source, score: entry.score, document: entry.document.clone() });
            next = next + 1;
        }
        hits
    }
}

/// The kind of every backend that is a server.
pub const COCO_SERVERS: &'static str = "coco-servers";

/// The path at which a server takes queries.
pub const SEARCH_PATH: &'static str = "/query/_search";

/// The texts of a table of strings.
pub open spec fn text_map(table: Map<Seq<char>, String>) -> Map<Seq<char>, Seq<char>> {
    Map::new(|key: Seq<char>| table.contains_key(key), |key: Seq<char>| table[key]@)
}

/// `args` with every pair put in, in their order: a later pair with the same
/// key takes the place of an earlier one.
pub open spec fn with_pairs(args: Map<Seq<char>, Seq<char>>, pairs: Seq<(String, String)>) -> Map<
    Seq<char>,
    Seq<char>,
>
    decreases pairs.len(),
{
    if pairs.len() == 0 {
        args
    } else {
        with_pairs(args, pairs.drop_last()).insert(pairs.last().0@, pairs.last().1@)
    }
}

/// What a query asks of a server: `from` and `size` in decimal digits, and
/// on top of them the query's own parameters.
pub open spec fn args_of(query: SearchQuery) -> Map<Seq<char>, Seq<char>> {
    with_pairs(
        Map::<Seq<char>, Seq<char>>::empty().insert("from"@, decimal_text(query.from as nat)).insert(
            "size"@,
            decimal_text(query.size as nat),
        ),
        query.query_strings@,
    )
}

/// The hits of an answer with their scores; a hit without a score gets the
/// score 0.0, whose bit pattern is 0.
pub open spec fn scored(hits: Seq<(Document, Option<u64>)>) -> Seq<(Document, u64)> {
    Seq::new(
        hits.len(),
        |i: int|
            (
                hits[i].0,
                match hits[i].1 {
                    Some(score) => score,
                    None => 0u64,
                },
            ),
    )
}

/// A server as a backend.
pub struct CocoSearchSource {
    server: Server,
}

impl CocoSearchSource {
    /// The server behind the backend.
    pub closed spec fn server(&self) -> Server {
        self.server
    }

    /// Makes a backend of a server.
    pub fn new(server: Server) -> (source: Self)
        ensures
            source.server() == server,
    {
        CocoSearchSource { server }
    }

    /// Tells who the backend is: it has the server's id and name.
    pub fn get_type(&self) -> (source: QuerySource)
        ensures
            source.kind@ == COCO_SERVERS@,
            source.name == self.server().name,
            source.id == self.server().id,
    {
        QuerySource {
            kind: String::from_str(COCO_SERVERS),
            name: self.server.name.clone(),
            id: self.server.id.clone(),
        }
    }

    /// Writes the parameters with which a query is sent to the server.
    pub fn query_args(query: &SearchQuery) -> (args: KeyedTable<String>)
        ensures
            args.well_formed(),
            text_map(args@) == args_of(*query),
    {
        let mut args: KeyedTable<String> = KeyedTable::new();
        let _ = args.insert(String::from_str("from"), decimal(query.from));
        let _ = args.insert(String::from_str("size"), decimal(query.size));
        let ghost base = Map::<Seq<char>, Seq<char>>::empty().insert(
            "from"@,
            decimal_text(query.from as nat),
        ).insert("size"@, decimal_text(query.size as nat));
        proof {
            assert(text_map(args@) =~= base);
        }
        let mut next: usize = 0;
        while next < query.query_strings.len()
            invariant
                next <= query.query_strings.len(),
                args.well_formed(),
                text_map(args@) == with_pairs(base, query.query_strings@.take(next as int)),
            decreases query.query_strings.len() - next,
        {
            let ghost before = args@;
            let pair = &query.query_strings[next];
            let _ = args.insert(pair.0.clone(), pair.1.clone());
            proof {
                assert(query.query_strings@.take(next + 1).drop_last()
                    =~= query.query_strings@.take(next as int));
                assert(text_map(args@) =~= text_map(before).insert(pair.0@, pair.1@));
            }
            next = next + 1;
        }
        proof {
            assert(query.query_strings@.take(next as int) =~= query.query_strings@);
        }
        args
    }

    /// What the backend answers with the hits that the server found.
    pub fn response(&self, total_hits: usize, hits: &Vec<(Document, Option<u64>)>) -> (response:
        QueryResponse)
        ensures
            response.source.kind@ == COCO_SERVERS@,
            response.source.name == self.server().name,
            response.source.id == self.server().id,
            response.total_hits == total_hits,
            response.hits@ == scored(hits@),
    {
        let mut kept: Vec<(Document, u64)> = Vec::new();
        let mut next: usize = 0;
        while next < hits.len()
            invariant
                next <= hits.len(),
                kept@ == scored(hits@).take(next as int),
            decreases hits.len() - next,
        {
            let score: u64 = match hits[next].1 {
                Some(score) => score,
                None => 0,
            };
            kept.push((hits[next].0.clone(), score));
            proof {
                assert(kept@ =~= scored(hits@).take(next + 1));
            }
            next = next + 1;
        }
        proof {
            assert(scored(hits@).take(next as int) =~= scored(hits@));
        }
        QueryResponse { source: self.get_type(), hits: kept, total_hits }
    }
}

} // verus!
