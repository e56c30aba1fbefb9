//! The accumulator: the mapping from URL to fetched payload that a run fills.
//!
//! The payloads are kept as a list of pairs in which no URL occurs twice. The
//! list is the model that the contracts speak of; the mapping is derived
//! from it.

use vstd::prelude::*;

verus! {

/// Pairs of URL and payload, in the order in which the URLs first arrived.
pub type Entries = Seq<(Seq<char>, Seq<u8>)>;

/// Some entry carries `url`.
pub open spec fn holds_url(entries: Entries, url: Seq<char>) -> bool {
    exists|i: int| 0 <= i < entries.len() && (#[trigger] entries[i]).0 == url
}

/// No URL occurs in two entries.
pub open spec fn distinct_urls(entries: Entries) -> bool {
    forall|i: int, j: int|
        0 <= i < j < entries.len() ==> (#[trigger] entries[i]).0 != (#[trigger] entries[j]).0
}

/// `i` is the place of the first entry that carries `url`.
pub open spec fn is_first_place(entries: Entries, url: Seq<char>, i: int) -> bool {
    &&& 0 <= i < entries.len()
    &&& entries[i].0 == url
    &&& forall|j: int| 0 <= j < i ==> (#[trigger] entries[j]).0 != url
}

/// The place of the first entry that carries `url`, where there is one.
pub open spec fn place_of(entries: Entries, url: Seq<char>) -> int {
    choose|i: int| is_first_place(entries, url, i)
}

/// The entries after `payload` was stored under `url`: the entry of `url`
/// keeps its place and gets the new payload; a new URL goes to the end.
pub open spec fn put(entries: Entries, url: Seq<char>, payload: Seq<u8>) -> Entries {
    if holds_url(entries, url) {
        entries.update(place_of(entries, url), (url, payload))
    } else {
        entries.push((url, payload))
    }
}

/// The mapping that the entries stand for.
pub open spec fn mapping(entries: Entries) -> Map<Seq<char>, Seq<u8>> {
    Map::new(
        |url: Seq<char>| holds_url(entries, url),
        |url: Seq<char>| entries[place_of(entries, url)].1,
    )
}

/// The entries that arise from storing the pairs of `list` one after the
/// other, starting from nothing: a URL that comes again overwrites.
pub open spec fn collect(list: Entries) -> Entries
    decreases list.len(),
{
    if list.len() == 0 {
        Seq::empty()
    } else {
        put(collect(list.drop_last()), list.last().0, list.last().1)
    }
}

/// How many entries carry `url`.
pub open spec fn count_url(entries: Entries, url: Seq<char>) -> nat
    decreases entries.len(),
{
    if entries.len() == 0 {
        0
    } else if entries.last().0 == url {
        count_url(entries.drop_last(), url) + 1
    } else {
        count_url(entries.drop_last(), url)
    }
}

/// Where an entry carries `url` and no earlier one does, that is its first place.
pub proof fn lemma_first_place(entries: Entries, url: Seq<char>, i: int)
    requires
        is_first_place(entries, url, i),
    ensures
        holds_url(entries, url),
        place_of(entries, url) == i,
{
    let p: int = place_of(entries, url);
    assert(is_first_place(entries, url, p));
}

/// Among distinct URLs the entry that carries `url` is the first to do so,
/// and the mapping has its payload.
pub proof fn lemma_place_among_distinct(entries: Entries, url: Seq<char>, i: int)
    requires
        distinct_urls(entries),
        0 <= i < entries.len(),
        entries[i].0 == url,
    ensures
        holds_url(entries, url),
        place_of(entries, url) == i,
        mapping(entries).contains_key(url),
        mapping(entries)[url] == entries[i].1,
{
    lemma_first_place(entries, url, i);
}

/// Among distinct URLs a URL that is held has a place.
pub proof fn lemma_held_url_has_place(entries: Entries, url: Seq<char>)
    requires
        distinct_urls(entries),
        holds_url(entries, url),
    ensures
        is_first_place(entries, url, place_of(entries, url)),
{
    let i: int = choose|i: int| 0 <= i < entries.len() && (#[trigger] entries[i]).0 == url;
    lemma_place_among_distinct(entries, url, i);
}

/// Storing a payload keeps the URLs distinct and changes the mapping at that
/// URL alone.
pub proof fn lemma_put(entries: Entries, url: Seq<char>, payload: Seq<u8>)
    requires
        distinct_urls(entries),
    ensures
        distinct_urls(put(entries, url, payload)),
        mapping(put(entries, url, payload)) == mapping(entries).insert(url, payload),
{
    let after = put(entries, url, payload);
    let place: int = if holds_url(entries, url) {
        place_of(entries, url)
    } else {
        entries.len() as int
    };
    if holds_url(entries, url) {
        lemma_held_url_has_place(entries, url);
    }
    assert forall|i: int| 0 <= i < after.len() && i != place implies #[trigger] after[i]
        == entries[i] && entries[i].0 != url by {}
    lemma_place_among_distinct(after, url, place);
    assert forall|other: Seq<char>| other != url implies holds_url(after, other) == holds_url(
        entries,
        other,
    ) && (holds_url(entries, other) ==> after[place_of(after, other)].1
        == entries[place_of(entries, other)].1) by {
        if holds_url(entries, other) {
            lemma_held_url_has_place(entries, other);
            lemma_place_among_distinct(after, other, place_of(entries, other));
        }
    }
}

/// Distinct URLs stand for as many mapping entries as there are pairs.
pub proof fn lemma_mapping_len(entries: Entries)
    requires
        distinct_urls(entries),
    ensures
        mapping(entries).dom().finite(),
        mapping(entries).len() == entries.len(),
    decreases entries.len(),
{
    if entries.len() == 0 {
        assert(mapping(entries).dom() =~= Set::empty());
    } else {
        let front = entries.drop_last();
        let last = entries.last();
        lemma_mapping_len(front);
        lemma_put(front, last.0, last.1);
        assert(put(front, last.0, last.1) =~= entries);
    }
}

/// Storing pairs with distinct URLs one after the other gives those pairs.
pub proof fn lemma_collect_distinct(list: Entries)
    requires
        distinct_urls(list),
    ensures
        collect(list) == list,
    decreases list.len(),
{
    if list.len() > 0 {
        let front = list.drop_last();
        lemma_collect_distinct(front);
        assert(put(front, list.last().0, list.last().1) =~= list);
    }
}

/// Among distinct URLs, a URL that is held has one entry and any other has none.
pub proof fn lemma_count_url(entries: Entries, url: Seq<char>)
    requires
        distinct_urls(entries),
    ensures
        count_url(entries, url) == if holds_url(entries, url) {
            1nat
        } else {
            0nat
        },
    decreases entries.len(),
{
    if entries.len() > 0 {
        let front = entries.drop_last();
        lemma_count_url(front, url);
        if entries.last().0 != url && holds_url(entries, url) {
            let i: int = choose|i: int| 0 <= i < entries.len() && (#[trigger] entries[i]).0 == url;
            assert(front[i].0 == url);
        }
    }
}

/// The bytes of a payload, as a sequence.
pub proof fn lemma_payload_view(payload: Vec<u8>)
    ensures
        payload.deep_view() == payload@,
{
}

/// The mapping from URL to fetched payload. Each URL has one entry; storing
/// under a URL that is present overwrites its payload.
#[derive(Debug)]
pub struct Accumulator {
    entries: Vec<(String, Vec<u8>)>,
}

impl View for Accumulator {
    type V = Map<Seq<char>, Seq<u8>>;

    open spec fn view(&self) -> Map<Seq<char>, Seq<u8>> {
        mapping(self.entries())
    }
}

impl Accumulator {
    /// The entries, in the order in which their URLs first arrived.
    pub closed spec fn entries(&self) -> Entries {
        self.entries.deep_view()
    }

    /// No URL has two entries.
    pub open spec fn well_formed(&self) -> bool {
        distinct_urls(self.entries())
    }

    /// The empty accumulator.
    pub fn new() -> (store: Accumulator)
        ensures
            store.well_formed(),
            store.entries() == Seq::<(Seq<char>, Seq<u8>)>::empty(),
            store@ == Map::<Seq<char>, Seq<u8>>::empty(),
    {
        Accumulator { entries: Vec::new() }
    }

    /// The place of the entry of `url`, or the number of entries where it has none.
    fn find(&self, url: &String) -> (place: usize)
        requires
            self.well_formed(),
        ensures
            place <= self.entries().len(),
            place < self.entries().len() <==> holds_url(self.entries(), url@),
            place < self.entries().len() ==> place_of(self.entries(), url@) == place,
    {
        let mut i: usize = 0;
        while i < self.entries.len()
            invariant
                i <= self.entries.len(),
                distinct_urls(self.entries()),
                forall|j: int| 0 <= j < i ==> (#[trigger] self.entries()[j]).0 != url@,
            decreases self.entries.len() - i,
        {
            if self.entries[i].0 == *url {
                proof {
                    lemma_place_among_distinct(self.entries(), url@, i as int);
                }
                return i;
            }
            i = i + 1;
        }
        i
    }

    /// Stores `payload` under `url`, in place of what was stored under it, if
    /// anything was.
    pub fn insert(&mut self, url: String, payload: Vec<u8>)
        requires
            old(self).well_formed(),
        ensures
            final(self).well_formed(),
            final(self).entries() == put(old(self).entries(), url@, payload@),
            final(self)@ == old(self)@.insert(url@, payload@),
    {
        proof {
            lemma_put(self.entries(), url@, payload@);
            lemma_payload_view(payload);
        }
        let place: usize = self.find(&url);
        if place < self.entries.len() {
            self.entries.set(place, (url, payload));
        } else {
            self.entries.push((url, payload));
        }
        assert(self.entries() =~= put(old(self).entries(), url@, payload@));
    }

    /// Whether a payload is stored under `url`.
    pub fn contains(&self, url: &str) -> (held: bool)
        requires
            self.well_formed(),
        ensures
            held == self@.contains_key(url@),
    {
        let key = url.to_owned();
        self.find(&key) < self.entries.len()
    }

    /// The payload stored under `url`.
    pub fn get(&self, url: &str) -> (found: Option<&Vec<u8>>)
        requires
            self.well_formed(),
        ensures
            match found {
                Some(payload) => self@.contains_key(url@) && payload@ == self@[url@],
                None => !self@.contains_key(url@),
            },
    {
        let key = url.to_owned();
        let place: usize = self.find(&key);
        if place < self.entries.len() {
            Some(&self.entries[place].1)
        } else {
            None
        }
    }

    /// The number of entries, which is the number of URLs in the mapping.
    pub fn len(&self) -> (count: usize)
        requires
            self.well_formed(),
        ensures
            count == self.entries().len(),
            count == self@.len(),
    {
        proof {
            lemma_mapping_len(self.entries());
        }
        self.entries.len()
    }

    /// Whether nothing is stored.
    pub fn is_empty(&self) -> (empty: bool)
        requires
            self.well_formed(),
        ensures
            empty == (self.entries().len() == 0),
            empty == (self@ == Map::<Seq<char>, Seq<u8>>::empty()),
    {
        proof {
            lemma_mapping_len(self.entries());
            if self.entries().len() == 0 {
                assert(self@ =~= Map::empty());
            }
        }
        self.entries.len() == 0
    }

    /// The stored pairs of URL and payload, in the order of the entries.
    pub fn as_pairs(&self) -> (pairs: &[(String, Vec<u8>)])
        ensures
            pairs.deep_view() == self.entries(),
    {
        self.entries.as_slice()
    }

    /// The accumulator that arises from storing the pairs of `list` one after
    /// the other: of two pairs with one URL the later one stays.
    pub fn from_entries(list: Vec<(String, Vec<u8>)>) -> (store: Accumulator)
        ensures
            store.well_formed(),
            store.entries() == collect(list.deep_view()),
    {
        let ghost all = list.deep_view();
        let ghost items = list@;
        let mut store = Accumulator::new();
        for pair in it: list
            invariant
                store.well_formed(),
                it.seq() == items,
                all == Seq::new(items.len(), |i: int| items[i].deep_view()),
                store.entries() == collect(all.take(it.index() as int)),
        {
            let (url, payload) = pair;
            proof {
                lemma_payload_view(payload);
                assert(all.take(it.index() + 1).drop_last() =~= all.take(it.index() as int));
            }
            store.insert(url, payload);
        }
        assert(all.take(all.len() as int) =~= all);
        store
    }
}

/// No duplication: a URL of the mapping has exactly one entry, and any other
/// URL has none.
pub proof fn law_one_entry_per_url(store: Accumulator, url: Seq<char>)
    requires
        store.well_formed(),
    ensures
        count_url(store.entries(), url) == if store@.contains_key(url) {
            1nat
        } else {
            0nat
        },
{
    lemma_count_url(store.entries(), url);
}

/// Overwriting: of two payloads stored under one URL the later one stays, in
/// one entry, and nothing else changes.
pub proof fn law_later_insert_wins(
    entries: Entries,
    url: Seq<char>,
    first: Seq<u8>,
    second: Seq<u8>,
)
    requires
        distinct_urls(entries),
    ensures
        mapping(put(put(entries, url, first), url, second)) == mapping(entries).insert(url, second),
        count_url(put(put(entries, url, first), url, second), url) == 1,
{
    lemma_put(entries, url, first);
    lemma_put(put(entries, url, first), url, second);
    assert(mapping(entries).insert(url, first).insert(url, second) =~= mapping(entries).insert(
        url,
        second,
    ));
    assert(mapping(put(put(entries, url, first), url, second)).contains_key(url));
    lemma_count_url(put(put(entries, url, first), url, second), url);
}

} // verus!
