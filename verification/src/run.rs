//! The fetch run: the accumulator, the log and the progress counter as the
//! replies to the fetches of the posts come in.

use vstd::prelude::*;
use crate::accumulator::{count_url, lemma_count_url, mapping, Accumulator};
use crate::fetch::{failure_line_text, FetchReply};
use crate::outcome::{
    law_failed_url_absent, law_fetched_payload_stored, lemma_record_distinct, lemma_record_joined,
    lemma_record_success_held, post_failures, post_outcomes, record, Outcome,
};
use crate::post::Post;

verus! {

/// How many of the posts are completed.
pub open spec fn count_done(done: Seq<bool>) -> nat
    decreases done.len(),
{
    if done.len() == 0 {
        0
    } else if done.last() {
        count_done(done.drop_last()) + 1
    } else {
        count_done(done.drop_last())
    }
}

/// No more posts are completed than there are, and all of them are exactly
/// when the count has reached their number.
pub proof fn lemma_count_done(done: Seq<bool>)
    ensures
        count_done(done) <= done.len(),
        count_done(done) == done.len() <==> forall|i: int| 0 <= i < done.len() ==> done[i],
    decreases done.len(),
{
    if done.len() > 0 {
        let front = done.drop_last();
        lemma_count_done(front);
        if count_done(done) == done.len() {
            assert forall|i: int| 0 <= i < done.len() implies done[i] by {
                if i < front.len() {
                    assert(front[i]);
                }
            }
        }
        if forall|i: int| 0 <= i < done.len() ==> done[i] {
            assert forall|i: int| 0 <= i < front.len() implies front[i] by {
                assert(done[i]);
            }
        }
    }
}

/// Completing one more post raises the count by one.
pub proof fn lemma_count_one_more(done: Seq<bool>, index: int)
    requires
        0 <= index < done.len(),
        !done[index],
    ensures
        count_done(done.update(index, true)) == count_done(done) + 1,
    decreases done.len(),
{
    let after = done.update(index, true);
    if index == done.len() - 1 {
        assert(after.drop_last() =~= done.drop_last());
    } else {
        lemma_count_one_more(done.drop_last(), index);
        assert(after.drop_last() =~= done.drop_last().update(index, true));
    }
}

/// Why a step of the run was refused.
#[derive(Debug, Clone, Copy, PartialEq, Eq, Structural)]
pub enum StepError {
    /// The run has no post with that index.
    UnknownPost,
    /// The post was completed before.
    AlreadyCompleted,
    /// There is not one reply for each image of the post.
    ReplyCountMismatch,
    /// Some post is not completed yet.
    Unfinished,
}

/// A fetch run over a list of posts. It takes the replies to the fetches of
/// each post as they come in, in any order of the posts, stores what was
/// fetched, and counts the posts that are completed.
pub struct FetchRun<'a> {
    posts: &'a [Post],
    done: Vec<bool>,
    completed: usize,
    store: Accumulator,
    recorded: Ghost<Seq<Outcome>>,
}

impl<'a> FetchRun<'a> {
    /// The posts of the run.
    pub closed spec fn posts(&self) -> Seq<Post> {
        self.posts@
    }

    /// For each post, whether it is completed.
    pub closed spec fn done(&self) -> Seq<bool> {
        self.done@
    }

    /// The value of the progress counter.
    pub closed spec fn counter(&self) -> nat {
        self.completed as nat
    }

    /// The accumulator as the run has filled it so far.
    pub closed spec fn store(&self) -> Accumulator {
        self.store
    }

    /// The outcomes that the run has applied so far, in that order.
    pub closed spec fn recorded(&self) -> Seq<Outcome> {
        self.recorded@
    }

    /// The counter is the number of completed posts, and the accumulator
    /// holds what the outcomes so far have put there.
    pub open spec fn well_formed(&self) -> bool {
        &&& self.done().len() == self.posts().len()
        &&& self.counter() == count_done(self.done())
        &&& self.store().well_formed()
        &&& self.store().entries() == record(Seq::empty(), self.recorded())
    }

    /// Every post is completed.
    pub open spec fn complete(&self) -> bool {
        forall|i: int| 0 <= i < self.done().len() ==> self.done()[i]
    }

    /// A run over `posts` in which no post is completed yet.
    pub fn new(posts: &'a [Post]) -> (run: FetchRun<'a>)
        ensures
            run.well_formed(),
            run.posts() == posts@,
            run.done() == Seq::new(posts@.len(), |i: int| false),
            run.counter() == 0,
            run.store().entries() == Seq::<(Seq<char>, Seq<u8>)>::empty(),
            run.recorded() == Seq::<Outcome>::empty(),
    {
        let mut done: Vec<bool> = Vec::new();
        let mut i: usize = 0;
        while i < posts.len()
            invariant
                i <= posts.len(),
                done@ == Seq::new(i as nat, |k: int| false),
                count_done(done@) == 0,
            decreases posts.len() - i,
        {
            done.push(false);
            assert(done@.drop_last() =~= Seq::new(i as nat, |k: int| false));
            i = i + 1;
        }
        FetchRun {
            posts,
            done,
            completed: 0,
            store: Accumulator::new(),
            recorded: Ghost(Seq::empty()),
        }
    }

    /// The number of posts in the run.
    pub fn total(&self) -> (count: usize)
        ensures
            count == self.posts().len(),
    {
        self.posts.len()
    }

    /// The progress counter: the number of completed posts.
    pub fn progress(&self) -> (count: usize)
        requires
            self.well_formed(),
        ensures
            count == self.counter(),
            count == count_done(self.done()),
            count <= self.posts().len(),
    {
        proof {
            lemma_count_done(self.done());
        }
        self.completed
    }

    /// Whether every post is completed.
    pub fn is_complete(&self) -> (complete: bool)
        requires
            self.well_formed(),
        ensures
            complete == self.complete(),
            complete == (self.counter() == self.posts().len()),
    {
        proof {
            lemma_count_done(self.done());
        }
        self.completed == self.posts.len()
    }

    /// Takes the replies to the fetches of the post at `index`, one for each
    /// of its images, in their order. Each payload is stored under its URL;
    /// each failure gives one log line and stores nothing. The post is then
    /// completed and the counter goes up by one, however many fetches failed.
    /// A refused step leaves the run as it was.
    pub fn complete_post(&mut self, index: usize, replies: Vec<FetchReply>) -> (outcome: Result<
        Vec<String>,
        StepError,
    >)
        requires
            old(self).well_formed(),
        ensures
            final(self).well_formed(),
            final(self).posts() == old(self).posts(),
            match outcome {
                Ok(lines) => {
                    let urls = old(self).posts()[index as int].urls();
                    &&& index < old(self).posts().len()
                    &&& !old(self).done()[index as int]
                    &&& replies@.len() == urls.len()
                    &&& final(self).done() == old(self).done().update(index as int, true)
                    &&& final(self).counter() == old(self).counter() + 1
                    &&& final(self).recorded() == old(self).recorded() + post_outcomes(
                        urls,
                        replies@,
                    )
                    &&& final(self).store().entries() == record(
                        old(self).store().entries(),
                        post_outcomes(urls, replies@),
                    )
                    &&& lines.deep_view() == post_failures(urls, replies@)
                },
                Err(error) => {
                    &&& *final(self) == *old(self)
                    &&& error == StepError::UnknownPost <==> index >= old(self).posts().len()
                    &&& error == StepError::AlreadyCompleted <==> index < old(self).posts().len()
                        && old(self).done()[index as int]
                    &&& error == StepError::ReplyCountMismatch <==> index < old(self).posts().len()
                        && !old(self).done()[index as int] && replies@.len() != old(
                        self,
                    ).posts()[index as int].urls().len()
                    &&& error != StepError::Unfinished
                },
            },
    {
        let posts: &'a [Post] = self.posts;
        if index >= posts.len() {
            return Err(StepError::UnknownPost);
        }
        if self.done[index] {
            return Err(StepError::AlreadyCompleted);
        }
        let post = &posts[index];
        if replies.len() != post.images.len() {
            return Err(StepError::ReplyCountMismatch);
        }
        let ghost urls = post.urls();
        let ghost all = replies@;
        let ghost outcomes = post_outcomes(urls, all);
        let ghost before = self.store.entries();
        let mut lines: Vec<String> = Vec::new();
        let mut j: usize = 0;
        for reply in it: replies
            invariant
                it.seq() == all,
                j == it.index(),
                all.len() == post.images.len(),
                urls == post.urls(),
                outcomes == post_outcomes(urls, all),
                self.store.well_formed(),
                self.store.entries() == record(before, outcomes.take(j as int)),
                lines.deep_view() == post_failures(urls.take(j as int), all.take(j as int)),
                self.posts == old(self).posts,
                self.done == old(self).done,
                self.completed == old(self).completed,
                self.recorded == old(self).recorded,
        {
            let url = &post.images[j];
            proof {
                assert(outcomes.take(j + 1).drop_last() =~= outcomes.take(j as int));
                assert(urls.take(j + 1).drop_last() =~= urls.take(j as int));
                assert(all.take(j + 1).take(j as int) =~= all.take(j as int));
            }
            match reply.into_outcome() {
                Ok(body) => {
                    self.store.insert(url.clone(), body);
                },
                Err(cause) => {
                    let line = failure_line_text(url.as_str(), cause.as_str());
                    lines.push(line);
                },
            }
            j = j + 1;
        }
        proof {
            assert(outcomes.take(j as int) =~= outcomes);
            assert(urls.take(j as int) =~= urls);
            assert(all.take(j as int) =~= all);
            lemma_count_done(self.done@);
            lemma_count_one_more(self.done@, index as int);
            lemma_record_joined(Seq::empty(), self.recorded@, outcomes);
        }
        self.done.set(index, true);
        self.completed = self.completed + 1;
        self.recorded = Ghost(self.recorded@ + outcomes);
        Ok(lines)
    }

    /// Ends the run and hands out the accumulator, once every post is
    /// completed; before that it is refused.
    pub fn finish(self) -> (outcome: Result<Accumulator, StepError>)
        requires
            self.well_formed(),
        ensures
            match outcome {
                Ok(store) => {
                    &&& self.complete()
                    &&& self.counter() == self.posts().len()
                    &&& store == self.store()
                    &&& store.well_formed()
                    &&& store.entries() == record(Seq::empty(), self.recorded())
                },
                Err(error) => error == StepError::Unfinished && !self.complete(),
            },
    {
        if self.is_complete() {
            Ok(self.store)
        } else {
            Err(StepError::Unfinished)
        }
    }
}

/// The counter never passes the number of posts, and it stands at that
/// number exactly when every post is completed.
pub proof fn law_counter_counts_posts(run: FetchRun)
    requires
        run.well_formed(),
    ensures
        run.counter() <= run.posts().len(),
        run.complete() <==> run.counter() == run.posts().len(),
{
    lemma_count_done(run.done());
}

/// The replies of a whole run as sequences, post by post.
pub open spec fn reply_lists(replies: Seq<Vec<FetchReply>>) -> Seq<Seq<FetchReply>> {
    Seq::new(replies.len(), |i: int| replies[i]@)
}

/// There is one list of replies for each post, with one reply for each of its images.
pub open spec fn replies_fit(posts: Seq<Post>, replies: Seq<Seq<FetchReply>>) -> bool {
    &&& replies.len() == posts.len()
    &&& forall|i: int|
        0 <= i < posts.len() ==> (#[trigger] replies[i]).len() == posts[i].urls().len()
}

/// The outcomes of a whole run, post after post and image after image.
pub open spec fn run_outcomes(posts: Seq<Post>, replies: Seq<Seq<FetchReply>>) -> Seq<Outcome>
    decreases posts.len(),
{
    if posts.len() == 0 {
        Seq::empty()
    } else {
        run_outcomes(posts.drop_last(), replies.take(posts.len() - 1)) + post_outcomes(
            posts.last().urls(),
            replies[posts.len() - 1],
        )
    }
}

/// The log lines of a whole run, post after post and image after image.
pub open spec fn run_failures(posts: Seq<Post>, replies: Seq<Seq<FetchReply>>) -> Seq<Seq<char>>
    decreases posts.len(),
{
    if posts.len() == 0 {
        Seq::empty()
    } else {
        run_failures(posts.drop_last(), replies.take(posts.len() - 1)) + post_failures(
            posts.last().urls(),
            replies[posts.len() - 1],
        )
    }
}

/// What a whole run came to.
#[derive(Debug)]
pub struct FetchSummary {
    /// The accumulator with everything that was fetched.
    pub store: Accumulator,
    /// One line for each fetch that failed.
    pub log: Vec<String>,
    /// The progress counter at the end.
    pub progress: usize,
}

/// Runs the fetches of all posts to the end, given the reply to each fetch:
/// the posts are completed in their order. The counter ends at the number
/// of posts, however many fetches failed. The run is refused where the
/// replies do not fit the posts.
pub fn fetch_all(posts: &[Post], replies: Vec<Vec<FetchReply>>) -> (outcome: Result<
    FetchSummary,
    StepError,
>)
    ensures
        match outcome {
            Ok(summary) => {
                &&& replies_fit(posts@, reply_lists(replies@))
                &&& summary.progress == posts@.len()
                &&& summary.store.well_formed()
                &&& summary.store.entries() == record(
                    Seq::empty(),
                    run_outcomes(posts@, reply_lists(replies@)),
                )
                &&& summary.log.deep_view() == run_failures(posts@, reply_lists(replies@))
            },
            Err(error) => error == StepError::ReplyCountMismatch && !replies_fit(
                posts@,
                reply_lists(replies@),
            ),
        },
{
    if replies.len() != posts.len() {
        return Err(StepError::ReplyCountMismatch);
    }
    let ghost lists = reply_lists(replies@);
    let ghost all = replies@;
    let mut run = FetchRun::new(posts);
    let mut log: Vec<String> = Vec::new();
    let mut i: usize = 0;
    for list in it: replies
        invariant
            it.seq() == all,
            i == it.index(),
            all.len() == posts@.len() <= usize::MAX,
            lists == reply_lists(all),
            run.well_formed(),
            run.posts() == posts@,
            run.done() == Seq::new(posts@.len(), |k: int| k < i),
            run.recorded() == run_outcomes(posts@.take(i as int), lists.take(i as int)),
            log.deep_view() == run_failures(posts@.take(i as int), lists.take(i as int)),
            forall|k: int| 0 <= k < i ==> (#[trigger] lists[k]).len() == posts@[k].urls().len(),
    {
        proof {
            assert(posts@.take(i + 1).drop_last() =~= posts@.take(i as int));
            assert(lists.take(i + 1).take(i as int) =~= lists.take(i as int));
            assert(lists[i as int] == list@);
        }
        match run.complete_post(i, list) {
            Ok(mut lines) => {
                log.append(&mut lines);
            },
            Err(_) => {
                return Err(StepError::ReplyCountMismatch);
            },
        }
        i = i + 1;
    }
    proof {
        assert(posts@.take(i as int) =~= posts@);
        assert(lists.take(i as int) =~= lists);
    }
    let progress: usize = run.progress();
    match run.finish() {
        Ok(store) => Ok(FetchSummary { store, log, progress }),
        Err(error) => Err(error),
    }
}

/// What the fetch of image `j` of post `i` came to.
pub open spec fn fetch_outcome(
    posts: Seq<Post>,
    replies: Seq<Seq<FetchReply>>,
    i: int,
    j: int,
) -> Outcome {
    (posts[i].urls()[j], replies[i][j].payload())
}

/// `i` and `j` name an image of a post.
pub open spec fn is_fetch(posts: Seq<Post>, i: int, j: int) -> bool {
    0 <= i < posts.len() && 0 <= j < posts[i].urls().len()
}

/// Every fetch of a run is among its outcomes.
pub proof fn lemma_fetch_is_outcome(posts: Seq<Post>, replies: Seq<Seq<FetchReply>>, i: int, j: int)
    requires
        replies_fit(posts, replies),
        is_fetch(posts, i, j),
    ensures
        exists|k: int|
            0 <= k < run_outcomes(posts, replies).len() && #[trigger] run_outcomes(
                posts,
                replies,
            )[k] == fetch_outcome(posts, replies, i, j),
    decreases posts.len(),
{
    let front = posts.drop_last();
    let earlier = replies.take(posts.len() - 1);
    let before = run_outcomes(front, earlier);
    let all = run_outcomes(posts, replies);
    if i == posts.len() - 1 {
        assert(all[before.len() + j] == fetch_outcome(posts, replies, i, j));
    } else {
        assert(replies_fit(front, earlier));
        lemma_fetch_is_outcome(front, earlier, i, j);
        let k: int = choose|k: int|
            0 <= k < before.len() && #[trigger] before[k] == fetch_outcome(front, earlier, i, j);
        assert(all[k] == before[k]);
    }
}

/// Every outcome of a run is what one of its fetches came to.
pub proof fn lemma_outcome_is_fetch(posts: Seq<Post>, replies: Seq<Seq<FetchReply>>, k: int)
    requires
        replies_fit(posts, replies),
        0 <= k < run_outcomes(posts, replies).len(),
    ensures
        exists|i: int, j: int|
            is_fetch(posts, i, j) && run_outcomes(posts, replies)[k] == #[trigger] fetch_outcome(
                posts,
                replies,
                i,
                j,
            ),
    decreases posts.len(),
{
    let front = posts.drop_last();
    let earlier = replies.take(posts.len() - 1);
    let before = run_outcomes(front, earlier);
    let all = run_outcomes(posts, replies);
    if k < before.len() {
        assert(replies_fit(front, earlier));
        lemma_outcome_is_fetch(front, earlier, k);
        let (i, j): (int, int) = choose|i: int, j: int|
            is_fetch(front, i, j) && before[k] == #[trigger] fetch_outcome(front, earlier, i, j);
        assert(all[k] == fetch_outcome(posts, replies, i, j));
    } else {
        let i: int = posts.len() - 1;
        let j: int = k - before.len();
        assert(all[k] == fetch_outcome(posts, replies, i, j));
    }
}

/// A URL of the posts of which every fetch failed is absent from the
/// accumulator at the end of the run.
pub proof fn law_run_failed_url_absent(
    posts: Seq<Post>,
    replies: Seq<Seq<FetchReply>>,
    url: Seq<char>,
)
    requires
        replies_fit(posts, replies),
        forall|i: int, j: int|
            is_fetch(posts, i, j) && (#[trigger] fetch_outcome(posts, replies, i, j)).0 == url
                ==> fetch_outcome(posts, replies, i, j).1 is None,
    ensures
        !mapping(record(Seq::empty(), run_outcomes(posts, replies))).contains_key(url),
{
    let outcomes = run_outcomes(posts, replies);
    assert forall|k: int|
        0 <= k < outcomes.len() && (#[trigger] outcomes[k]).0 == url implies outcomes[k].1
        is None by {
        lemma_outcome_is_fetch(posts, replies, k);
    }
    law_failed_url_absent(outcomes, url);
}

/// A URL of the posts that a fetch brought with success, and every such
/// fetch with the same bytes, is in the accumulator at the end of the run
/// with exactly those bytes.
pub proof fn law_run_fetched_payload_stored(
    posts: Seq<Post>,
    replies: Seq<Seq<FetchReply>>,
    i: int,
    j: int,
    url: Seq<char>,
    body: Seq<u8>,
)
    requires
        replies_fit(posts, replies),
        is_fetch(posts, i, j),
        fetch_outcome(posts, replies, i, j) == (url, Some(body)),
        forall|p: int, q: int|
            is_fetch(posts, p, q) && (#[trigger] fetch_outcome(posts, replies, p, q)).0 == url
                && fetch_outcome(posts, replies, p, q).1 is Some ==> fetch_outcome(
                posts,
                replies,
                p,
                q,
            ).1 == Some(body),
    ensures
        mapping(record(Seq::empty(), run_outcomes(posts, replies))).contains_key(url),
        mapping(record(Seq::empty(), run_outcomes(posts, replies)))[url] == body,
{
    let outcomes = run_outcomes(posts, replies);
    lemma_fetch_is_outcome(posts, replies, i, j);
    assert forall|k: int|
        0 <= k < outcomes.len() && (#[trigger] outcomes[k]).0 == url && outcomes[k].1 is Some
        implies outcomes[k].1 == Some(body) by {
        lemma_outcome_is_fetch(posts, replies, k);
    }
    law_fetched_payload_stored(outcomes, url, body);
}

/// A URL that posts share has exactly one entry in the accumulator at the
/// end of the run, once any fetch of it succeeded, however many did.
pub proof fn law_run_shared_url_one_entry(
    posts: Seq<Post>,
    replies: Seq<Seq<FetchReply>>,
    i: int,
    j: int,
)
    requires
        replies_fit(posts, replies),
        is_fetch(posts, i, j),
        fetch_outcome(posts, replies, i, j).1 is Some,
    ensures
        count_url(
            record(Seq::empty(), run_outcomes(posts, replies)),
            fetch_outcome(posts, replies, i, j).0,
        ) == 1,
{
    let outcomes = run_outcomes(posts, replies);
    lemma_fetch_is_outcome(posts, replies, i, j);
    let k: int = choose|k: int|
        0 <= k < outcomes.len() && #[trigger] outcomes[k] == fetch_outcome(posts, replies, i, j);
    lemma_record_success_held(Seq::empty(), outcomes, k);
    lemma_record_distinct(Seq::empty(), outcomes);
    lemma_count_url(record(Seq::empty(), outcomes), outcomes[k].0);
}

} // verus!
