use repo_finder::domain::{Org, Repo};
use repo_finder::engine::{AlreadySeededError, MatchEngine};
use repo_finder::matcher::RepoMatcher;
use repo_finder::matching::{fold_char, matches_key};
use repo_finder::ranking::{rank, OrderKey, Ranked};

const DAY: i64 = 86_400;
const NOW: i64 = 1_700_000_000;

fn chars(text: &str) -> Vec<char> {
    text.chars().collect()
}

fn is_match(pattern: &str, key: &str) -> bool {
    matches_key(&chars(pattern), &chars(key))
}

fn repo(full_name: &str, uses: u32, last_used: Option<i64>) -> Repo {
    let mut repo = Repo::new(
        1,
        full_name.to_string(),
        full_name.to_string(),
        1,
        "owner".to_string(),
        false,
        None,
        None,
        None,
    );
    repo.access_count = uses;
    repo.last_accessed_at = last_used;
    repo
}

fn names(keys: &[&str]) -> Vec<String> {
    keys.iter().map(|key| key.to_string()).collect()
}

fn seeded(keys: &[&str]) -> MatchEngine {
    let mut engine = MatchEngine::new();
    engine.seed(names(keys)).unwrap();
    engine
}

fn settle(engine: &mut MatchEngine) {
    while engine.advance_by(3) {}
}

fn handles(engine: &MatchEngine) -> Vec<usize> {
    engine.snapshot().iter().map(|found| found.handle).collect()
}

fn settled_matcher(repos: Vec<Repo>, orgs: Vec<Org>, pattern: &str) -> RepoMatcher {
    let mut matcher = RepoMatcher::new_at(repos, orgs, NOW);
    matcher.update_pattern(pattern.to_string());
    while matcher.has_pending_work() {
        matcher.tick();
    }
    matcher
}

fn shown(matcher: &RepoMatcher) -> Vec<String> {
    matcher
        .matches_sorted()
        .iter()
        .map(|item| item.full_name.clone())
        .collect()
}

#[test]
fn letters_fold_to_lower_case() {
    assert_eq!(fold_char('A'), 'a');
    assert_eq!(fold_char('Z'), 'z');
    assert_eq!(fold_char('m'), 'm');
    assert_eq!(fold_char('@'), '@');
    assert_eq!(fold_char('['), '[');
    assert_eq!(fold_char('É'), 'é');
    assert_eq!(fold_char('é'), 'é');
    assert_eq!(fold_char('Ω'), 'ω');
    assert_eq!(fold_char('ж'), 'ж');
    assert_eq!(fold_char('\u{7f}'), '\u{7f}');
    assert_eq!(fold_char('中'), '中');
}

#[test]
fn a_pattern_matches_as_a_subsequence() {
    assert!(is_match("", ""));
    assert!(is_match("", "anything"));
    assert!(!is_match("a", ""));
    assert!(is_match("react", "facebook/react"));
    assert!(is_match("fbr", "facebook/react"));
    assert!(is_match("REACT", "facebook/react"));
    assert!(is_match("react", "Facebook/ReAct"));
    assert!(!is_match("tcaer", "facebook/react"));
    assert!(!is_match("reactt", "facebook/react"));
    assert!(is_match("aa", "banana"));
    assert!(is_match("aaa", "banana"));
    assert!(!is_match("aaaa", "banana"));
    assert!(is_match("facebook/react", "facebook/react"));
    assert!(!is_match("facebook/reactx", "facebook/react"));
}

#[test]
fn letter_case_is_ignored_beyond_ascii() {
    assert!(is_match("É", "é"));
    assert!(is_match("é", "É"));
    assert!(is_match("ÉCOLE", "org/école"));
    assert!(is_match("жук", "ЖУК"));
    assert!(!is_match("e", "é"));
    assert!(!is_match("é", "e"));
    let mut engine = seeded(&["é", "e"]);
    engine.set_pattern("É");
    settle(&mut engine);
    assert_eq!(handles(&engine), vec![0]);
}

#[test]
fn special_characters_are_matched_literally() {
    assert!(!is_match("!a", "a/x"));
    assert!(is_match("!a", "!a"));
    assert!(!is_match("^a", "a/x"));
    assert!(!is_match("x$", "a/x"));
    assert!(is_match("a x", "a big x"));
    assert!(!is_match("a x", "a/x"));
}

#[test]
fn a_longer_pattern_matches_no_more_keys() {
    let keys = [
        "facebook/react",
        "rust-lang/rust",
        "reactive/streams",
        "torvalds/linux",
        "a/x",
        "!a",
        "",
    ];
    let patterns = ["", "r", "re", "rea", "reac", "react", "!", "!a", "a", "x", "t/"];
    let extensions = ['a', 'b', 't', 'x', '/', '!', 's', 'R'];
    for pattern in patterns {
        for c in extensions {
            let mut longer = pattern.to_string();
            longer.push(c);
            for key in keys {
                if is_match(&longer, key) {
                    assert!(is_match(pattern, key));
                }
            }
        }
    }
}

#[test]
fn an_engine_is_seeded_once() {
    let mut engine = MatchEngine::new();
    assert_eq!(engine.seed(names(&["a/x", "a/y"])), Ok(()));
    assert_eq!(engine.seed(names(&["b/z"])), Err(AlreadySeededError));
    engine.set_pattern("");
    settle(&mut engine);
    assert_eq!(handles(&engine), vec![0, 1]);
}

#[test]
fn an_empty_corpus_gives_an_empty_snapshot() {
    let mut engine = MatchEngine::new();
    assert!(engine.snapshot().is_empty());
    assert!(!engine.advance_by(10));
    assert!(engine.snapshot().is_empty());
    let mut engine = seeded(&[]);
    engine.set_pattern("abc");
    assert!(engine.snapshot().is_empty());
    assert!(!engine.advance(5));
    assert!(engine.snapshot().is_empty());
}

#[test]
fn a_snapshot_is_replaced_only_by_a_finished_scan() {
    let mut engine = seeded(&["alpha", "beta", "gamma", "delta", "epsilon"]);
    assert!(engine.snapshot().is_empty());
    assert!(engine.has_pending_work());
    assert!(engine.advance_by(2));
    assert!(engine.snapshot().is_empty());
    assert!(engine.advance_by(2));
    assert!(engine.snapshot().is_empty());
    assert!(!engine.advance_by(2));
    assert_eq!(handles(&engine), vec![0, 1, 2, 3, 4]);
    engine.set_pattern("l");
    assert!(engine.has_pending_work());
    assert!(engine.advance_by(4));
    assert_eq!(handles(&engine), vec![0, 1, 2, 3, 4]);
    assert!(!engine.advance_by(1));
    assert_eq!(handles(&engine), vec![0, 3, 4]);
}

#[test]
fn a_budget_of_nothing_still_finishes_a_scan_with_nothing_left() {
    let mut engine = seeded(&["one"]);
    assert!(engine.advance_by(0));
    assert!(!engine.advance_by(1));
    engine.set_pattern("o");
    assert!(engine.advance_by(0));
    assert!(engine.advance_by(0));
    assert!(!engine.advance_by(usize::MAX));
    assert_eq!(handles(&engine), vec![0]);
    let mut empty = seeded(&[]);
    assert!(!empty.advance_by(0));
}

#[test]
fn a_spent_budget_allows_one_batch() {
    let keys: Vec<String> = (0..600).map(|i| format!("key-{}", i)).collect();
    let mut engine = MatchEngine::new();
    engine.seed(keys).unwrap();
    engine.set_pattern("key");
    assert!(engine.advance(0));
    assert!(engine.snapshot().is_empty());
    assert!(engine.advance(0));
    assert!(engine.snapshot().is_empty());
    assert!(!engine.advance(0));
    assert_eq!(engine.snapshot().len(), 600);
    assert!(!engine.advance(0));
    assert_eq!(engine.snapshot().len(), 600);
}

#[test]
fn a_tick_after_the_scan_has_finished_changes_nothing() {
    let mut engine = seeded(&["facebook/react", "rust-lang/rust", "reactive/streams"]);
    engine.set_pattern("rea");
    settle(&mut engine);
    let before = engine.snapshot().clone();
    assert_eq!(handles(&engine), vec![0, 2]);
    for _ in 0..5 {
        assert!(!engine.advance_by(7));
        assert!(!engine.advance(1));
        assert_eq!(engine.snapshot(), &before);
    }
}

#[test]
fn the_result_depends_on_corpus_and_pattern_alone() {
    let keys = ["facebook/react", "rust-lang/rust", "reactive/streams", "a/x"];
    let mut slow = seeded(&keys);
    for pattern in ["r", "re", "rex", "re", "rea"] {
        slow.set_pattern(pattern);
        while slow.advance_by(1) {}
    }
    let mut hasty = seeded(&keys);
    hasty.set_pattern("zzz");
    hasty.advance_by(2);
    hasty.set_pattern("rea");
    while hasty.advance(50) {}
    assert_eq!(slow.snapshot(), hasty.snapshot());
    assert_eq!(handles(&slow), vec![0, 2]);
}

#[test]
fn the_empty_pattern_scores_nothing() {
    let mut engine = seeded(&["facebook/react", "a/x"]);
    settle(&mut engine);
    for found in engine.snapshot() {
        assert_eq!(found.raw_score, 0);
    }
}

#[test]
fn a_tighter_match_scores_higher() {
    let mut engine = seeded(&["facebook/react", "r-e-a-c-t", "xrxexaxcxt", "other"]);
    engine.set_pattern("react");
    settle(&mut engine);
    let found = engine.snapshot().clone();
    assert_eq!(handles(&engine), vec![0, 1, 2]);
    assert!(found[0].raw_score > 0);
    assert!(found[0].raw_score > found[2].raw_score);
    assert!(found[1].raw_score > found[2].raw_score);
}

#[test]
fn a_pattern_too_long_to_grade_scores_nothing() {
    let long: String = "ab".repeat(600);
    let mut engine = seeded(&[long.as_str(), "ab"]);
    engine.set_pattern(&long);
    settle(&mut engine);
    assert_eq!(handles(&engine), vec![0]);
    assert_eq!(engine.snapshot()[0].raw_score, 0);
    let graded: String = "ab".repeat(512);
    engine.set_pattern(&graded);
    settle(&mut engine);
    assert_eq!(handles(&engine), vec![0]);
    assert!(engine.snapshot()[0].raw_score > 0);
}

#[test]
fn usage_decides_among_equal_matches() {
    let repos = vec![
        repo("a/x", 0, None),
        repo("a/y", 10, Some(NOW - 2 * DAY)),
    ];
    let matcher = settled_matcher(repos.clone(), vec![], "x");
    assert_eq!(shown(&matcher), vec!["a/x"]);
    assert_eq!(matcher.match_count(), 1);
    let matcher = settled_matcher(repos, vec![], "");
    assert_eq!(shown(&matcher), vec!["a/y", "a/x"]);
    assert_eq!(matcher.match_count(), 2);
    let ranked = matcher.ranked_entries();
    assert_eq!(ranked[0].handle, 1);
    assert_eq!(ranked[0].key, OrderKey { numerator: 90, denominator: 3 });
    assert_eq!(ranked[1].key, OrderKey { numerator: 0, denominator: 31 });
}

#[test]
fn backspace_gives_back_what_the_longer_pattern_lost() {
    let repos = vec![
        repo("facebook/react", 0, None),
        repo("reach/ui", 0, None),
        repo("preactjs/preact", 0, None),
        repo("rust-lang/rust", 0, None),
    ];
    let mut matcher = RepoMatcher::new_at(repos, vec![], NOW);
    matcher.update_pattern("react".to_string());
    while matcher.has_pending_work() {
        matcher.tick();
    }
    let longer = shown(&matcher);
    matcher.update_pattern("reac".to_string());
    while matcher.has_pending_work() {
        matcher.tick();
    }
    let shorter = shown(&matcher);
    for name in &longer {
        assert!(shorter.contains(name));
    }
    assert!(shorter.contains(&"reach/ui".to_string()));
    assert!(!longer.contains(&"reach/ui".to_string()));
    assert!(!shorter.contains(&"rust-lang/rust".to_string()));
}

#[test]
fn equal_keys_keep_the_order_of_the_items() {
    let repos = vec![
        repo("o/c", 0, None),
        repo("o/a", 0, None),
        repo("o/b", 0, None),
    ];
    let orgs = vec![Org::new(5, "o".to_string(), None, None)];
    let matcher = settled_matcher(repos, orgs, "");
    assert_eq!(shown(&matcher), vec!["o/c", "o/a", "o/b", "o/"]);
}

#[test]
fn nothing_is_shown_before_the_first_tick() {
    let mut matcher = RepoMatcher::new_at(vec![repo("a/x", 0, None)], vec![], NOW);
    assert!(matcher.has_pending_work());
    assert_eq!(matcher.match_count(), 0);
    assert!(matcher.matches_sorted().is_empty());
    matcher.tick();
    assert!(!matcher.has_pending_work());
    assert_eq!(shown(&matcher), vec!["a/x"]);
    let fresh = RepoMatcher::new(vec![repo("a/x", 0, None)], vec![]);
    assert_eq!(fresh.match_count(), 0);
}

#[test]
fn ranking_sorts_by_key_then_handle() {
    let key = |numerator: u128, denominator: u64| OrderKey { numerator, denominator };
    let entries = vec![
        Ranked { handle: 0, key: key(1, 2) },
        Ranked { handle: 1, key: key(5, 1) },
        Ranked { handle: 2, key: key(2, 4) },
        Ranked { handle: 3, key: key(10, 2) },
        Ranked { handle: 4, key: key(0, 7) },
        Ranked { handle: 5, key: key(7, 1) },
    ];
    let ranked: Vec<usize> = rank(&entries).iter().map(|entry| entry.handle).collect();
    assert_eq!(ranked, vec![5, 1, 3, 0, 2, 4]);
    assert!(rank(&Vec::new()).is_empty());
    let same_again: Vec<usize> = rank(&rank(&entries)).iter().map(|entry| entry.handle).collect();
    assert_eq!(same_again, ranked);
}
