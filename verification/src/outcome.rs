//! Outcomes of fetches, and what working them off makes of the accumulator
//! and the log.

use vstd::prelude::*;
use crate::accumulator::{
    count_url, distinct_urls, lemma_count_url, lemma_put, mapping, put, Entries,
};
use crate::fetch::{failure_line, FetchReply};

verus! {

/// What one fetch came to: the URL, and the payload where the fetch succeeded.
pub type Outcome = (Seq<char>, Option<Seq<u8>>);

/// The entries after the outcomes were applied one after the other: a
/// payload is stored under its URL, a failure leaves the entries as they are.
pub open spec fn record(entries: Entries, outcomes: Seq<Outcome>) -> Entries
    decreases outcomes.len(),
{
    if outcomes.len() == 0 {
        entries
    } else {
        let before = record(entries, outcomes.drop_last());
        match outcomes.last().1 {
            Some(payload) => put(before, outcomes.last().0, payload),
            None => before,
        }
    }
}

/// The outcomes of the fetches of one post: each URL with what its reply yields.
pub open spec fn post_outcomes(urls: Seq<Seq<char>>, replies: Seq<FetchReply>) -> Seq<Outcome> {
    Seq::new(urls.len(), |j: int| (urls[j], replies[j].payload()))
}

/// The log lines of one post: one line for each fetch that failed, in the
/// order of the URLs.
pub open spec fn post_failures(urls: Seq<Seq<char>>, replies: Seq<FetchReply>) -> Seq<Seq<char>>
    decreases urls.len(),
{
    if urls.len() == 0 {
        Seq::empty()
    } else {
        let before = post_failures(urls.drop_last(), replies.take(urls.len() - 1));
        let reply = replies[urls.len() - 1];
        if reply.payload() is Some {
            before
        } else {
            before.push(failure_line(urls.last(), reply.cause()))
        }
    }
}

/// Applying outcomes in two parts is applying them in one.
pub proof fn lemma_record_joined(entries: Entries, first: Seq<Outcome>, second: Seq<Outcome>)
    ensures
        record(entries, first + second) == record(record(entries, first), second),
    decreases second.len(),
{
    if second.len() > 0 {
        lemma_record_joined(entries, first, second.drop_last());
        assert((first + second).drop_last() =~= first + second.drop_last());
    }
}

/// Applying outcomes keeps the URLs of the entries distinct.
pub proof fn lemma_record_distinct(entries: Entries, outcomes: Seq<Outcome>)
    requires
        distinct_urls(entries),
    ensures
        distinct_urls(record(entries, outcomes)),
    decreases outcomes.len(),
{
    if outcomes.len() > 0 {
        lemma_record_distinct(entries, outcomes.drop_last());
        if let Some(payload) = outcomes.last().1 {
            lemma_put(record(entries, outcomes.drop_last()), outcomes.last().0, payload);
        }
    }
}

/// The last outcome alone decides how the mapping changes in the last step.
pub proof fn lemma_record_step(entries: Entries, outcomes: Seq<Outcome>)
    requires
        distinct_urls(entries),
        outcomes.len() > 0,
    ensures
        mapping(record(entries, outcomes)) == match outcomes.last().1 {
            Some(payload) => mapping(record(entries, outcomes.drop_last())).insert(
                outcomes.last().0,
                payload,
            ),
            None => mapping(record(entries, outcomes.drop_last())),
        },
{
    lemma_record_distinct(entries, outcomes.drop_last());
    if let Some(payload) = outcomes.last().1 {
        lemma_put(record(entries, outcomes.drop_last()), outcomes.last().0, payload);
    }
}

/// Outcomes of which none stores under `url` leave what the mapping has for it.
pub proof fn lemma_record_other_urls(entries: Entries, outcomes: Seq<Outcome>, url: Seq<char>)
    requires
        distinct_urls(entries),
        forall|i: int|
            0 <= i < outcomes.len() && (#[trigger] outcomes[i]).0 == url ==> outcomes[i].1 is None,
    ensures
        mapping(record(entries, outcomes)).contains_key(url) == mapping(entries).contains_key(url),
        mapping(record(entries, outcomes))[url] == mapping(entries)[url],
    decreases outcomes.len(),
{
    if outcomes.len() > 0 {
        let front = outcomes.drop_last();
        assert forall|i: int|
            0 <= i < front.len() && (#[trigger] front[i]).0 == url implies front[i].1 is None by {
            assert(outcomes[i].0 == url);
        }
        lemma_record_other_urls(entries, front, url);
        lemma_record_step(entries, outcomes);
        assert(outcomes.last().1 is Some ==> outcomes[outcomes.len() - 1].0 != url);
    }
}

/// After the outcomes, a URL has the payload of its last fetch that succeeded.
pub proof fn lemma_record_last_success(
    entries: Entries,
    outcomes: Seq<Outcome>,
    at: int,
    url: Seq<char>,
    body: Seq<u8>,
)
    requires
        distinct_urls(entries),
        0 <= at < outcomes.len(),
        outcomes[at] == (url, Some(body)),
        forall|i: int|
            at < i < outcomes.len() && (#[trigger] outcomes[i]).0 == url ==> outcomes[i].1 is None,
    ensures
        mapping(record(entries, outcomes)).contains_key(url),
        mapping(record(entries, outcomes))[url] == body,
    decreases outcomes.len(),
{
    let front = outcomes.drop_last();
    lemma_record_step(entries, outcomes);
    if at < outcomes.len() - 1 {
        assert forall|i: int|
            at < i < front.len() && (#[trigger] front[i]).0 == url implies front[i].1 is None by {
            assert(outcomes[i].0 == url);
        }
        lemma_record_last_success(entries, front, at, url, body);
        assert(outcomes.last().1 is Some ==> outcomes[outcomes.len() - 1].0 != url);
    }
}

/// After the outcomes, the URL of a fetch that succeeded is in the mapping.
pub proof fn lemma_record_success_held(entries: Entries, outcomes: Seq<Outcome>, at: int)
    requires
        distinct_urls(entries),
        0 <= at < outcomes.len(),
        outcomes[at].1 is Some,
    ensures
        mapping(record(entries, outcomes)).contains_key(outcomes[at].0),
    decreases outcomes.len(),
{
    lemma_record_step(entries, outcomes);
    if at < outcomes.len() - 1 {
        lemma_record_success_held(entries, outcomes.drop_last(), at);
    }
}

/// A URL of which every fetch failed is absent from the accumulator at the end.
pub proof fn law_failed_url_absent(outcomes: Seq<Outcome>, url: Seq<char>)
    requires
        forall|i: int|
            0 <= i < outcomes.len() && (#[trigger] outcomes[i]).0 == url ==> outcomes[i].1 is None,
    ensures
        !mapping(record(Seq::empty(), outcomes)).contains_key(url),
{
    lemma_record_other_urls(Seq::empty(), outcomes, url);
}

/// A URL that was fetched with success, each time with the same bytes, is in
/// the accumulator at the end with exactly those bytes, whatever else failed.
pub proof fn law_fetched_payload_stored(outcomes: Seq<Outcome>, url: Seq<char>, body: Seq<u8>)
    requires
        exists|i: int| 0 <= i < outcomes.len() && #[trigger] outcomes[i] == (url, Some(body)),
        forall|i: int|
            0 <= i < outcomes.len() && (#[trigger] outcomes[i]).0 == url && outcomes[i].1 is Some
                ==> outcomes[i].1 == Some(body),
    ensures
        mapping(record(Seq::empty(), outcomes)).contains_key(url),
        mapping(record(Seq::empty(), outcomes))[url] == body,
    decreases outcomes.len(),
{
    let front = outcomes.drop_last();
    lemma_record_step(Seq::empty(), outcomes);
    if outcomes.last() != (url, Some(body)) {
        let at: int = choose|i: int|
            0 <= i < outcomes.len() && #[trigger] outcomes[i] == (url, Some(body));
        assert(front[at] == (url, Some(body)));
        assert forall|i: int|
            0 <= i < front.len() && (#[trigger] front[i]).0 == url && front[i].1 is Some
            implies front[i].1 == Some(body) by {
            assert(outcomes[i].0 == url);
        }
        law_fetched_payload_stored(front, url, body);
        assert(outcomes.last().0 == url ==> outcomes[outcomes.len() - 1].1 != Some(body));
    }
}

/// A URL that several fetches share has exactly one entry at the end, with
/// the payload of the last of them that succeeded: the last write wins.
pub proof fn law_shared_url_one_entry(
    outcomes: Seq<Outcome>,
    at: int,
    url: Seq<char>,
    body: Seq<u8>,
)
    requires
        0 <= at < outcomes.len(),
        outcomes[at] == (url, Some(body)),
        forall|i: int|
            at < i < outcomes.len() && (#[trigger] outcomes[i]).0 == url ==> outcomes[i].1 is None,
    ensures
        count_url(record(Seq::empty(), outcomes), url) == 1,
        mapping(record(Seq::empty(), outcomes))[url] == body,
{
    lemma_record_last_success(Seq::empty(), outcomes, at, url, body);
    lemma_record_distinct(Seq::empty(), outcomes);
    lemma_count_url(record(Seq::empty(), outcomes), url);
}

} // verus!
