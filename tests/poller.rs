use feedbot::article::{Article, ArticleUrl, Title};
use feedbot::channel::SlackChannel;
use feedbot::poller::{Feed, PollSettings, DEFAULT_MAX_TITLES};
use feedbot::seen::SeenSet;
use feedbot::source::{FeedType, FetchError};

fn item(title: &str, link: &str) -> Article {
    Article::new(Title::from_str(title), ArticleUrl::from_str(link))
}

fn items(titles: &[&str]) -> Vec<Article> {
    titles
        .iter()
        .map(|t| item(t, &format!("http://example.com/{}", t)))
        .collect()
}

fn feed() -> Feed {
    Feed::new("http://example.com/feed.xml", FeedType::Rss, SlackChannel::Rust)
}

#[test]
fn first_cycle_records_titles_and_announces_nothing() {
    let mut f = feed();
    let sent = f.cycle(Ok(items(&["A", "B", "C"])));
    assert!(sent.is_empty());
    assert_eq!(f.previous_titles.titles(), vec!["A", "B", "C"]);
    assert!(f.primed);
}

#[test]
fn first_cycle_keeps_first_seen_order_for_repeated_titles() {
    let mut f = feed();
    let sent = f.cycle(Ok(items(&["A", "B", "A", "C"])));
    assert!(sent.is_empty());
    assert_eq!(f.previous_titles.titles(), vec!["A", "B", "C"]);
}

#[test]
fn novelty_detection_announces_only_the_new_item() {
    let mut f = feed();
    f.cycle(Ok(items(&["A", "B"])));
    let sent = f.cycle(Ok(vec![item("A", "http://a"), item("B", "http://b"), item("C", "http://c")]));
    assert_eq!(sent, vec!["<http://c|C>".to_string()]);
    assert_eq!(f.previous_titles.size(), 3);
    assert!(f.previous_titles.contains("A"));
    assert!(f.previous_titles.contains("B"));
    assert!(f.previous_titles.contains("C"));
}

#[test]
fn new_items_are_announced_in_fetch_order_once() {
    let mut f = feed();
    f.cycle(Ok(items(&["A"])));
    let sent = f.cycle(Ok(vec![
        item("Z", "http://z"),
        item("A", "http://a"),
        item("Y", "http://y"),
        item("Z", "http://z2"),
    ]));
    assert_eq!(sent, vec!["<http://z|Z>".to_string(), "<http://y|Y>".to_string()]);
    assert_eq!(f.previous_titles.titles(), vec!["A", "Z", "Y"]);
}

#[test]
fn eviction_bound_holds_at_the_start_of_every_cycle() {
    let mut f = Feed::with_max_titles("http://example.com/feed.xml", FeedType::Atom, SlackChannel::Aws, 3);
    f.cycle(Ok(items(&["a", "b", "c", "d", "e"])));
    assert_eq!(f.previous_titles.size(), 5);
    for round in 0..10 {
        let fresh = format!("n{}", round);
        let fresh2 = format!("m{}", round);
        f.cycle(Ok(items(&[&fresh, &fresh2])));
        // at most 3 kept through eviction, plus the two recorded this cycle
        assert_eq!(f.previous_titles.size(), 5);
        let held = f.previous_titles.titles();
        assert_eq!(held[3], fresh);
        assert_eq!(held[4], fresh2);
    }
}

#[test]
fn eviction_order_is_oldest_first_one_title_per_cycle() {
    let max = DEFAULT_MAX_TITLES;
    let titles: Vec<String> = (1..=max + 5).map(|i| format!("T{}", i)).collect();
    let mut f = feed();
    let mut evicted: Vec<String> = Vec::new();
    for t in &titles {
        // what the eviction at the start of this cycle will drop
        let held = f.previous_titles.titles();
        if f.primed && held.len() > max {
            evicted.extend(held[..held.len() - max].iter().cloned());
        }
        f.cycle(Ok(items(&[t])));
    }
    // one more cycle with nothing new, to run the last eviction
    let held = f.previous_titles.titles();
    evicted.extend(held[..held.len() - max].iter().cloned());
    f.cycle(Ok(Vec::new()));
    assert_eq!(evicted, vec!["T1", "T2", "T3", "T4", "T5"]);
    assert_eq!(f.previous_titles.size(), max);
    assert_eq!(f.previous_titles.titles()[0], "T6");
}

#[test]
fn evict_excess_returns_oldest_titles_in_order() {
    let mut s = SeenSet::new();
    for t in ["T1", "T2", "T3", "T4", "T5", "T6", "T7"] {
        assert!(s.insert(t.to_string()));
    }
    assert!(!s.insert("T3".to_string()));
    let gone = s.evict_excess(2);
    assert_eq!(gone, vec!["T1", "T2", "T3", "T4", "T5"]);
    assert_eq!(s.titles(), vec!["T6", "T7"]);
    assert!(s.evict_excess(2).is_empty());
    assert!(s.evict_excess(5).is_empty());
    assert_eq!(s.evict_excess(0), vec!["T6", "T7"]);
    assert_eq!(s.size(), 0);
}

#[test]
fn seen_set_insert_does_not_move_an_existing_title() {
    let mut s = SeenSet::new();
    s.insert("A".to_string());
    s.insert("B".to_string());
    assert!(!s.insert("A".to_string()));
    assert_eq!(s.titles(), vec!["A", "B"]);
    assert!(s.contains("A"));
    assert!(!s.contains("C"));
}

#[test]
fn failed_fetch_announces_nothing_and_next_cycle_proceeds() {
    let mut f = feed();
    f.cycle(Ok(items(&["A", "B"])));
    let sent = f.cycle(Err(FetchError::Transport));
    assert!(sent.is_empty());
    assert_eq!(f.previous_titles.titles(), vec!["A", "B"]);
    let sent = f.cycle(Ok(vec![item("A", "http://a"), item("C", "http://c")]));
    assert_eq!(sent, vec!["<http://c|C>".to_string()]);
    assert_eq!(f.previous_titles.titles(), vec!["A", "B", "C"]);
}

#[test]
fn failed_fetch_still_evicts() {
    let mut f = Feed::with_max_titles("http://example.com/feed.xml", FeedType::Rss, SlackChannel::Rust, 1);
    f.cycle(Ok(items(&["A", "B", "C"])));
    let sent = f.cycle(Err(FetchError::Rss));
    assert!(sent.is_empty());
    assert_eq!(f.previous_titles.titles(), vec!["C"]);
}

#[test]
fn failed_first_fetch_primes_with_nothing() {
    let mut f = feed();
    assert!(f.cycle(Err(FetchError::Atom)).is_empty());
    assert!(f.primed);
    assert_eq!(f.previous_titles.size(), 0);
    let sent = f.cycle(Ok(vec![item("A", "http://a")]));
    assert_eq!(sent, vec!["<http://a|A>".to_string()]);
}

#[test]
fn send_failure_does_not_stop_the_batch_or_the_record() {
    let mut f = feed();
    f.cycle(Ok(items(&["old"])));
    let sent = f.cycle(Ok(vec![item("1", "http://1"), item("2", "http://2"), item("3", "http://3")]));
    let mut attempted: Vec<String> = Vec::new();
    let mut failures = 0;
    let mut send = |text: &String| -> Result<(), String> {
        attempted.push(text.clone());
        if attempted.len() == 1 {
            Err("refused".to_string())
        } else {
            Ok(())
        }
    };
    for text in &sent {
        if send(text).is_err() {
            failures += 1;
        }
    }
    assert_eq!(failures, 1);
    assert_eq!(attempted, vec!["<http://1|1>", "<http://2|2>", "<http://3|3>"]);
    assert!(f.previous_titles.contains("1"));
    assert!(f.previous_titles.contains("2"));
    assert!(f.previous_titles.contains("3"));
}

#[test]
fn notification_text_is_link_bar_title_in_angle_brackets() {
    let a = item("Foo", "http://x");
    assert_eq!(a.notification(), "<http://x|Foo>");
}

#[test]
fn failing_feed_does_not_hold_back_another_feed() {
    let mut broken = Feed::new("http://broken.example/feed", FeedType::Atom, SlackChannel::Aws);
    let mut healthy = feed();
    let mut announced: Vec<String> = Vec::new();
    for round in 0..3 {
        assert!(broken.cycle(Err(FetchError::Transport)).is_empty());
        let mut batch = items(&["A"]);
        if round == 2 {
            batch.push(item("B", "http://b"));
        }
        announced.extend(healthy.cycle(Ok(batch)));
    }
    assert_eq!(announced, vec!["<http://b|B>".to_string()]);
    assert_eq!(broken.previous_titles.size(), 0);
}

#[test]
fn feed_new_uses_defaults() {
    let f = Feed::new("https://blog.rust-lang.org/feed.xml", FeedType::Atom, SlackChannel::Rust);
    assert_eq!(f.url.as_str(), "https://blog.rust-lang.org/feed.xml");
    assert_eq!(f.feed_type, FeedType::Atom);
    assert_eq!(f.channel, SlackChannel::Rust);
    assert_eq!(f.max_titles, 200);
    assert!(!f.primed);
    let s = PollSettings::default();
    assert_eq!(s.max_titles, 200);
    assert_eq!(s.poll_interval_secs, 300);
}
