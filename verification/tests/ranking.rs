use visual_vocab::rank::{rank_scores, RankedCandidate};
use visual_vocab::spider::google_image::{GoogleImage, Image, SearchSession};

fn image(n: u32) -> GoogleImage {
    GoogleImage {
        thumb: Image { src: format!("https://t.example/{}", n), alt: String::new() },
        full: Image { src: format!("https://f.example/{}", n), alt: String::new() },
        title: format!("t{}", n),
        url: format!("https://p.example/{}", n),
    }
}

#[test]
fn rank_orders_by_score_then_index() {
    // Scores as fixed-point values; ties break by ascending input index.
    let scores: Vec<i64> = vec![500_000, 900_000, 500_000, -100_000];
    let r = rank_scores(&scores, 0, -1_000_000);
    assert_eq!(
        r,
        vec![
            RankedCandidate { index: 1, score: 900_000 },
            RankedCandidate { index: 0, score: 500_000 },
            RankedCandidate { index: 2, score: 500_000 },
            RankedCandidate { index: 3, score: -100_000 },
        ]
    );
}

#[test]
fn rank_returns_min_of_limit_and_count() {
    // With a threshold below every score, the count is min(limit, n),
    // or all of them when the limit is zero.
    let scores: Vec<i64> = vec![100, -200, 300];
    assert_eq!(rank_scores(&scores, 0, -1_000_000).len(), 3);
    assert_eq!(rank_scores(&scores, 2, -1_000_000).len(), 2);
    assert_eq!(rank_scores(&scores, 9, -1_000_000).len(), 3);
    for c in rank_scores(&scores, 0, -1_000_000) {
        assert!(-1_000_000 <= c.score && c.score <= 1_000_000);
        assert_eq!(c.score, scores[c.index]);
    }
}

#[test]
fn rank_is_a_permutation_and_deterministic() {
    let scores: Vec<i64> = vec![7, 3, 9, 3, 5];
    let once = rank_scores(&scores, 0, -1_000_000);
    let twice = rank_scores(&scores, 0, -1_000_000);
    assert_eq!(once, twice);
    assert_eq!(once.len(), scores.len());
    let mut seen = vec![false; scores.len()];
    for c in &once {
        assert!(!seen[c.index]);
        seen[c.index] = true;
    }
    assert!(seen.iter().all(|b| *b));
    for w in once.windows(2) {
        assert!(w[0].score > w[1].score || (w[0].score == w[1].score && w[0].index < w[1].index));
    }
}

#[test]
fn rank_filters_at_threshold() {
    // Only scores strictly above the threshold are kept.
    let scores: Vec<i64> = vec![0, 1, -1, 10];
    let r = rank_scores(&scores, 0, 0);
    assert_eq!(
        r,
        vec![
            RankedCandidate { index: 3, score: 10 },
            RankedCandidate { index: 1, score: 1 },
        ]
    );
    assert_eq!(rank_scores(&vec![0, 0], 0, 0), vec![]);
}

#[test]
fn search_session_accumulates_up_to_max() {
    let mut s = SearchSession::new("cat", 5);
    assert!(s.wants_more());
    assert_eq!(s.next_offset(), 0);
    s.feed_page(vec![image(0), image(1), image(2)]);
    assert!(s.wants_more());
    assert_eq!(s.next_offset(), 3);
    // The last page overshoots; the result is cut to exactly max.
    s.feed_page(vec![image(3), image(4), image(5), image(6)]);
    assert!(!s.wants_more());
    let images = s.finish();
    assert_eq!(images.len(), 5);
    assert_eq!(images[4].url, "https://p.example/4");
}

#[test]
fn search_session_stops_when_exhausted() {
    let mut s = SearchSession::new("cat", 10);
    s.feed_page(vec![image(0), image(1)]);
    // An empty page signals exhaustion: fewer than max may come back.
    s.feed_page(Vec::new());
    assert!(!s.wants_more());
    assert!(s.exhausted);
    let images = s.finish();
    assert_eq!(images.len(), 2);
}

#[test]
fn search_session_stops_on_failure() {
    let mut s = SearchSession::new("cat", 10);
    s.feed_page(vec![image(0)]);
    s.fail();
    assert!(!s.wants_more());
    let images = s.finish();
    assert_eq!(images.len(), 1);
}

#[test]
fn rank_of_nothing_is_nothing() {
    // No candidates: the ranking returns empty at once.
    let scores: Vec<i64> = Vec::new();
    assert_eq!(rank_scores(&scores, 0, -1_000_000), vec![]);
    assert_eq!(rank_scores(&scores, 1, 0), vec![]);
}
