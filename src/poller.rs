//! One feed's polling state and the decisions of each poll cycle: prime the
//! record of seen titles on the first cycle, then on every later cycle evict
//! the oldest titles, pick out the unseen items and announce them.

use crate::article::{notification_of, Article, ArticleView, FeedUrl};
use crate::channel::SlackChannel;
use crate::seen::{
    evict_to, evicted_by, insert_title, insert_titles, lemma_insert_titles_contents,
    lemma_insert_titles_unique, SeenSet,
};
use crate::source::{articles_of, read_document, FeedType, FetchError};
use vstd::prelude::*;

verus! {

/// How many titles a feed remembers unless configured otherwise.
pub const DEFAULT_MAX_TITLES: usize = 200;

/// Seconds between two polls of a feed unless configured otherwise.
pub const DEFAULT_POLL_INTERVAL_SECS: u64 = 300;

/// The knobs of polling.
#[derive(Clone, Copy, Debug)]
pub struct PollSettings {
    pub max_titles: usize,
    pub poll_interval_secs: u64,
}

impl Default for PollSettings {
    fn default() -> (r: PollSettings)
        ensures
            r.max_titles == DEFAULT_MAX_TITLES,
            r.poll_interval_secs == DEFAULT_POLL_INTERVAL_SECS,
    {
        PollSettings { max_titles: DEFAULT_MAX_TITLES, poll_interval_secs: DEFAULT_POLL_INTERVAL_SECS }
    }
}

/// The items as values.
pub open spec fn views(v: Seq<Article>) -> Seq<ArticleView> {
    v.map_values(|a: Article| a@)
}

/// The titles of the items, in order.
pub open spec fn titles_of(items: Seq<ArticleView>) -> Seq<Seq<char>> {
    items.map_values(|a: ArticleView| a.title)
}

/// What a fetch handed over: the items, or nothing when it failed.
pub open spec fn fetched_items(f: Result<Vec<Article>, FetchError>) -> Option<Seq<ArticleView>> {
    match f {
        Ok(v) => Some(views(v@)),
        Err(_) => None,
    }
}

/// The items whose title is neither in `seen` nor on an earlier item, in order.
pub open spec fn new_items(seen: Seq<Seq<char>>, items: Seq<ArticleView>) -> Seq<ArticleView>
    decreases items.len(),
{
    if items.len() == 0 {
        Seq::empty()
    } else {
        let prev = items.drop_last();
        let found = new_items(seen, prev);
        if insert_titles(seen, titles_of(prev)).contains(items.last().title) {
            found
        } else {
            found.push(items.last())
        }
    }
}

/// The titles kept at the start of a cycle: all of them on the first cycle,
/// the newest `max` on every later one.
pub open spec fn kept_titles(seen: Seq<Seq<char>>, primed: bool, max: nat) -> Seq<Seq<char>> {
    if primed {
        evict_to(seen, max)
    } else {
        seen
    }
}

/// The seen titles after a cycle.
pub open spec fn seen_after(
    seen: Seq<Seq<char>>,
    primed: bool,
    max: nat,
    fetched: Option<Seq<ArticleView>>,
) -> Seq<Seq<char>> {
    match fetched {
        Some(items) => insert_titles(kept_titles(seen, primed, max), titles_of(items)),
        None => kept_titles(seen, primed, max),
    }
}

/// The texts a cycle announces, in the order of the fetched items: none on
/// the first cycle or after a failed fetch.
pub open spec fn announced(
    seen: Seq<Seq<char>>,
    primed: bool,
    max: nat,
    fetched: Option<Seq<ArticleView>>,
) -> Seq<Seq<char>> {
    match fetched {
        Some(items) => if primed {
            notifications(new_items(evict_to(seen, max), items))
        } else {
            Seq::empty()
        },
        None => Seq::empty(),
    }
}

/// One polled feed: where it is, how to read it, where its news goes, and
/// which titles it has already seen.
#[derive(Debug)]
pub struct Feed {
    pub url: FeedUrl,
    pub feed_type: FeedType,
    pub previous_titles: SeenSet,
    pub channel: SlackChannel,
    /// The most titles remembered at the start of a cycle.
    pub max_titles: usize,
    /// Whether the first cycle, which only records titles, has run.
    pub primed: bool,
}

impl Feed {
    /// A feed that remembers the default number of titles.
    pub fn new(url: &str, feed_type: FeedType, channel: SlackChannel) -> (r: Feed)
        ensures
            r.url@ == url@,
            r.feed_type == feed_type,
            r.channel == channel,
            r.previous_titles@ == Seq::<Seq<char>>::empty(),
            r.max_titles == DEFAULT_MAX_TITLES,
            !r.primed,
    {
        Feed::with_max_titles(url, feed_type, channel, DEFAULT_MAX_TITLES)
    }

    /// A feed that remembers at most `max_titles` titles between cycles.
    pub fn with_max_titles(url: &str, feed_type: FeedType, channel: SlackChannel, max_titles: usize) -> (r: Feed)
        ensures
            r.url@ == url@,
            r.feed_type == feed_type,
            r.channel == channel,
            r.previous_titles@ == Seq::<Seq<char>>::empty(),
            r.max_titles == max_titles,
            !r.primed,
    {
        Feed {
            url: FeedUrl::from_str(url),
            feed_type,
            previous_titles: SeenSet::new(),
            channel,
            max_titles,
            primed: false,
        }
    }

    /// Reads a document fetched from this feed into its items, as the feed's
    /// kind asks.
    pub fn read_document(&self, doc: &str) -> (r: Result<Vec<Article>, FetchError>)
        ensures
            r matches Ok(v) ==> articles_of(self.feed_type, doc@) == Ok::<Seq<ArticleView>, FetchError>(
                views(v@),
            ),
            r matches Err(e) ==> articles_of(self.feed_type, doc@) == Err::<Seq<ArticleView>, FetchError>(e),
    {
        read_document(self.feed_type, doc)
    }

    /// Runs one cycle on what the fetch handed over, and returns the texts to
    /// announce on the feed's channel, in order.
    ///
    /// The first cycle records every fetched title and announces nothing.
    /// Every later cycle first evicts the oldest titles down to `max_titles`,
    /// then records and announces each fetched item whose title is unseen.
    /// A failed fetch changes nothing but the eviction.
    pub fn cycle(&mut self, fetched: Result<Vec<Article>, FetchError>) -> (r: Vec<String>)
        requires
            fetched matches Ok(v) ==> old(self).previous_titles@.len() + v@.len() < usize::MAX,
        ensures
            final(self).previous_titles@ == seen_after(
                old(self).previous_titles@,
                old(self).primed,
                old(self).max_titles as nat,
                fetched_items(fetched),
            ),
            texts(r@) == announced(
                old(self).previous_titles@,
                old(self).primed,
                old(self).max_titles as nat,
                fetched_items(fetched),
            ),
            final(self).primed,
            final(self).url == old(self).url,
            final(self).feed_type == old(self).feed_type,
            final(self).channel == old(self).channel,
            final(self).max_titles == old(self).max_titles,
    {
        let announce = self.primed;
        if announce {
            self.previous_titles.evict_excess(self.max_titles);
        }
        self.primed = true;
        match fetched {
            Err(_) => {
                let none: Vec<String> = Vec::new();
                assert(texts(none@) =~= Seq::<Seq<char>>::empty());
                none
            },
            Ok(items) => record_batch(&mut self.previous_titles, &items, announce),
        }
    }
}

/// The characters of each string.
pub open spec fn texts(v: Seq<String>) -> Seq<Seq<char>> {
    v.map_values(|m: String| m@)
}

/// The announcement of each item, in order.
pub open spec fn notifications(items: Seq<ArticleView>) -> Seq<Seq<char>> {
    items.map_values(|a: ArticleView| notification_of(a))
}

/// Records the titles of `items` in order; where `announce` holds, returns
/// the announcements of the items whose title was unseen, in order.
fn record_batch(seen: &mut SeenSet, items: &Vec<Article>, announce: bool) -> (r: Vec<String>)
    requires
        old(seen)@.len() + items@.len() < usize::MAX,
    ensures
        final(seen)@ == insert_titles(old(seen)@, titles_of(views(items@))),
        announce ==> texts(r@) == notifications(new_items(old(seen)@, views(items@))),
        !announce ==> r@.len() == 0,
{
    let ghost kept = seen@;
    let ghost all = views(items@);
    let mut out: Vec<String> = Vec::new();
    let mut i: usize = 0;
    while i < items.len()
        invariant
            i <= items@.len(),
            all == views(items@),
            kept.len() + items@.len() < usize::MAX,
            seen@ == insert_titles(kept, titles_of(all.take(i as int))),
            seen@.len() <= kept.len() + i,
            announce ==> texts(out@) == notifications(new_items(kept, all.take(i as int))),
            !announce ==> out@.len() == 0,
        decreases items@.len() - i,
    {
        let a = &items[i];
        let ghost before = seen@;
        let ghost found = new_items(kept, all.take(i as int));
        proof {
            let next = all.take(i + 1);
            assert(next.drop_last() =~= all.take(i as int));
            lemma_titles_drop_last(next);
            assert(insert_titles(kept, titles_of(next.drop_last())) == before);
        }
        if !seen.contains(a.title().as_str()) {
            seen.insert(a.title().to_string());
            if announce {
                let text = a.notification();
                let ghost out0 = out@;
                out.push(text);
                assert(out@ == out0.push(text));
                assert(texts(out@) =~= texts(out0).push(text@));
                assert(notifications(found.push(a@)) =~= notifications(found).push(notification_of(a@)));
                assert(new_items(kept, all.take(i + 1)) == found.push(a@));
                assert(texts(out@) =~= notifications(found.push(a@)));
            }
        } else {
            assert(new_items(kept, all.take(i + 1)) == found);
        }
        i = i + 1;
    }
    assert(all.take(items@.len() as int) =~= all);
    out
}

/// The titles of a prefix of the items are that prefix of the titles.
proof fn lemma_titles_drop_last(items: Seq<ArticleView>)
    requires
        items.len() > 0,
    ensures
        titles_of(items).drop_last() == titles_of(items.drop_last()),
        titles_of(items).last() == items.last().title,
{
    assert(titles_of(items).drop_last() =~= titles_of(items.drop_last()));
}

/// After recording a batch, the seen titles are the earlier ones followed by
/// the titles of the batch's new items, in fetch order.
pub proof fn lemma_recorded_then_new(seen: Seq<Seq<char>>, items: Seq<ArticleView>)
    ensures
        insert_titles(seen, titles_of(items)) == seen + titles_of(new_items(seen, items)),
    decreases items.len(),
{
    if items.len() == 0 {
        assert(seen + titles_of(new_items(seen, items)) =~= seen);
    } else {
        let prev = items.drop_last();
        lemma_recorded_then_new(seen, prev);
        lemma_titles_drop_last(items);
        let found = new_items(seen, prev);
        if !insert_titles(seen, titles_of(prev)).contains(items.last().title) {
            assert(titles_of(found.push(items.last())) =~= titles_of(found).push(items.last().title));
            assert(seen + titles_of(found.push(items.last())) =~= (seen + titles_of(found)).push(
                items.last().title,
            ));
        }
    }
}

/// The first cycle of a fresh feed records exactly the fetched titles, each
/// once, and announces nothing.
pub proof fn lemma_first_cycle_primes(items: Seq<ArticleView>, max: nat)
    ensures
        seen_after(Seq::empty(), false, max, Some(items)).to_set() == titles_of(items).to_set(),
        seen_after(Seq::empty(), false, max, Some(items)).no_duplicates(),
        announced(Seq::empty(), false, max, Some(items)) == Seq::<Seq<char>>::empty(),
{
    let empty = Seq::<Seq<char>>::empty();
    lemma_insert_titles_contents(empty, titles_of(items));
    lemma_insert_titles_unique(empty, titles_of(items));
    assert(seen_after(empty, false, max, Some(items)).to_set() =~= titles_of(items).to_set());
}

/// At the start of every cycle after the first, once eviction has run, at
/// most `max` titles remain; a cycle then adds at most one title per
/// fetched item.
pub proof fn lemma_eviction_bound(seen: Seq<Seq<char>>, max: nat, fetched: Option<Seq<ArticleView>>)
    requires
        seen.no_duplicates(),
    ensures
        kept_titles(seen, true, max).len() <= max,
        kept_titles(seen, true, max).no_duplicates(),
        fetched matches Some(items) ==> seen_after(seen, true, max, fetched).len() <= max + items.len(),
        fetched is None ==> seen_after(seen, true, max, fetched).len() <= max,
{
    let kept = kept_titles(seen, true, max);
    assert(kept.no_duplicates()) by {
        if seen.len() > max {
            let lo = seen.len() - max;
            assert forall|i: int, j: int| 0 <= i < kept.len() && 0 <= j < kept.len() && i != j implies kept[i]
                != kept[j] by {
                assert(kept[i] == seen[lo + i] && kept[j] == seen[lo + j]);
            }
        }
    }
    if let Some(items) = fetched {
        lemma_insert_titles_unique(kept, titles_of(items));
    }
}

/// The seen titles after `k` cycles of a fresh feed in which cycle `j`
/// fetched the single item `items[j]`.
pub open spec fn seen_after_singles(items: Seq<ArticleView>, max: nat, k: nat) -> Seq<Seq<char>>
    decreases k,
{
    if k == 0 {
        Seq::empty()
    } else {
        seen_after(
            seen_after_singles(items, max, (k - 1) as nat),
            k > 1,
            max,
            Some(seq![items[k - 1]]),
        )
    }
}

/// The position of the oldest title still held after `k` such cycles.
pub open spec fn oldest_kept(max: nat, k: nat) -> int {
    if k > max + 1 {
        k - max - 1
    } else {
        0
    }
}

/// Fed one new title per cycle, a feed evicts titles oldest first: after `k`
/// cycles it holds the titles of `items[oldest_kept(max, k)..k]`, and the
/// next cycle evicts exactly the title of `items[k - max - 1]` once `k > max`,
/// and nothing before.
pub proof fn lemma_eviction_order(items: Seq<ArticleView>, max: nat, k: nat)
    requires
        titles_of(items).no_duplicates(),
        k <= items.len(),
    ensures
        seen_after_singles(items, max, k) == titles_of(items).subrange(oldest_kept(max, k), k as int),
        k > max ==> evicted_by(seen_after_singles(items, max, k), max) == seq![items[k - max - 1].title],
        k <= max ==> evicted_by(seen_after_singles(items, max, k), max) == Seq::<Seq<char>>::empty(),
    decreases k,
{
    let ts = titles_of(items);
    if k == 0 {
        assert(ts.subrange(0, 0) =~= Seq::<Seq<char>>::empty());
    } else {
        lemma_eviction_order(items, max, (k - 1) as nat);
        let s = seen_after_singles(items, max, (k - 1) as nat);
        let kept = kept_titles(s, k > 1, max);
        let lo = oldest_kept(max, k);
        let one = seq![items[k - 1]];
        assert(titles_of(one) =~= seq![items[k - 1].title]);
        assert(titles_of(one).drop_last() =~= Seq::<Seq<char>>::empty());
        assert(kept =~= ts.subrange(lo, k - 1));
        assert(!kept.contains(ts[k - 1])) by {
            if kept.contains(ts[k - 1]) {
                let j = choose|j: int| 0 <= j < kept.len() && kept[j] == ts[k - 1];
                assert(ts[lo + j] == ts[k - 1]);
            }
        }
        assert(insert_titles(kept, Seq::<Seq<char>>::empty()) == kept);
        assert(titles_of(one).last() == ts[k - 1]);
        assert(insert_titles(kept, titles_of(one)) == insert_title(kept, ts[k - 1]));
        assert(kept.push(ts[k - 1]) =~= ts.subrange(lo, k as int));
    }
    let t = seen_after_singles(items, max, k);
    if k > max {
        assert(evicted_by(t, max) =~= seq![items[k - max - 1].title]);
    } else {
        assert(evicted_by(t, max) =~= Seq::<Seq<char>>::empty());
    }
}

/// A cycle whose fetch failed announces nothing and changes the seen titles
/// only by the eviction that every cycle after the first runs.
pub proof fn lemma_failed_fetch(seen: Seq<Seq<char>>, primed: bool, max: nat)
    ensures
        announced(seen, primed, max, None) == Seq::<Seq<char>>::empty(),
        seen_after(seen, primed, max, None) == kept_titles(seen, primed, max),
        !primed ==> seen_after(seen, primed, max, None) == seen,
{
}

/// A cycle after the first records every fetched title, the announced ones
/// and the others alike, and returns one announcement per new item, in fetch
/// order; the record is settled by the cycle itself, before any announcement
/// is handed on.
pub proof fn lemma_batch_recorded(seen: Seq<Seq<char>>, max: nat, items: Seq<ArticleView>)
    requires
        seen.no_duplicates(),
    ensures
        forall|i: int|
            0 <= i < items.len() ==> #[trigger] seen_after(seen, true, max, Some(items)).contains(
                items[i].title,
            ),
        seen_after(seen, true, max, Some(items)) == evict_to(seen, max) + titles_of(
            new_items(evict_to(seen, max), items),
        ),
        titles_of(new_items(evict_to(seen, max), items)).no_duplicates(),
        forall|j: int|
            0 <= j < new_items(evict_to(seen, max), items).len() ==> !evict_to(seen, max).contains(
                #[trigger] new_items(evict_to(seen, max), items)[j].title,
            ),
        announced(seen, true, max, Some(items)) == notifications(new_items(evict_to(seen, max), items)),
{
    let kept = evict_to(seen, max);
    let found = titles_of(new_items(kept, items));
    lemma_eviction_bound(seen, max, Some(items));
    lemma_insert_titles_contents(kept, titles_of(items));
    lemma_insert_titles_unique(kept, titles_of(items));
    lemma_recorded_then_new(kept, items);
    let all = kept + found;
    assert forall|i: int| 0 <= i < items.len() implies #[trigger] seen_after(
        seen,
        true,
        max,
        Some(items),
    ).contains(items[i].title) by {
        assert(titles_of(items)[i] == items[i].title);
    }
    assert forall|a: int, b: int| 0 <= a < found.len() && 0 <= b < found.len() && a != b implies found[a]
        != found[b] by {
        assert(all[kept.len() + a] == found[a] && all[kept.len() + b] == found[b]);
    }
    assert forall|j: int| 0 <= j < new_items(kept, items).len() implies !kept.contains(
        #[trigger] new_items(kept, items)[j].title,
    ) by {
        assert(found[j] == new_items(kept, items)[j].title);
        if kept.contains(found[j]) {
            let i = choose|i: int| 0 <= i < kept.len() && kept[i] == found[j];
            assert(all[i] == all[kept.len() + j]);
        }
    }
}

} // verus!
