use prompter::corpus::Corpus;
use prompter::request::SelectionRequest;
use prompter::router::handle_request;
use prompter::router::RouteResponse;

fn strings(v: Vec<&str>) -> Vec<String> {
    let mut r = Vec::new();
    for s in v {
        r.push(String::from(s));
    }
    r
}

fn numbered_lines(prefix: &str, n: usize) -> Vec<String> {
    let mut r = Vec::new();
    for i in 0..n {
        r.push(format!("{}{}", prefix, i));
    }
    r
}

#[test]
fn corpus_from_texts_splits_lines() {
    let c = Corpus::new("alpha\nbeta\n", "gamma\r\ndelta").unwrap();
    assert_eq!(c.len(false), 2);
    assert_eq!(c.len(true), 4);
    assert_eq!(c.line_at(false, 0), "alpha");
    assert_eq!(c.line_at(false, 1), "beta");
    assert_eq!(c.line_at(true, 0), "gamma");
    assert_eq!(c.line_at(true, 1), "delta");
    assert_eq!(c.line_at(true, 2), "alpha");
    assert_eq!(c.line_at(true, 3), "beta");
}

#[test]
fn corpus_refuses_empty_sources() {
    assert!(Corpus::new("", "x").is_none());
    assert!(Corpus::new("x", "").is_none());
    assert!(Corpus::new("", "").is_none());
    assert!(Corpus::from_lines(strings(vec![]), strings(vec!["x"])).is_none());
}

#[test]
fn corpus_allows_empty_extra_pool() {
    let c = Corpus::from_lines(strings(vec!["only"]), strings(vec![])).unwrap();
    assert_eq!(c.len(true), 1);
    assert_eq!(c.line_at(true, 0), "only");
}

#[test]
fn seeded_selection_is_deterministic() {
    let c = Corpus::from_lines(numbered_lines("safe", 100), numbered_lines("extra", 50)).unwrap();
    for seed in [0u64, 1, 7, u64::MAX] {
        for step in [None, Some(0u64), Some(3), Some(u64::MAX)] {
            for allow in [false, true] {
                let a = c.get_random_prompt(Some(seed), step, allow);
                let b = c.get_random_prompt(Some(seed), step, allow);
                assert_eq!(a, b);
            }
        }
    }
}

#[test]
fn seeded_streams_are_well_spread() {
    let c = Corpus::from_lines(numbered_lines("line", 50), strings(vec![])).unwrap();
    let mut seen: Vec<String> = Vec::new();
    for step in 0u64..200 {
        let p = c.get_random_prompt(Some(12345), Some(step), false);
        if !seen.contains(&p) {
            seen.push(p);
        }
    }
    // 200 draws over 50 lines: a generator with a short cycle or a constant
    // output would land far below this.
    assert!(seen.len() >= 25, "only {} distinct lines", seen.len());
}

#[test]
fn safe_mode_returns_only_safe_lines() {
    let safe = numbered_lines("safe", 20);
    let c = Corpus::from_lines(safe.clone(), numbered_lines("extra", 20)).unwrap();
    for step in 0u64..100 {
        let p = c.get_random_prompt(Some(9), Some(step), false);
        assert!(safe.contains(&p));
    }
    for _ in 0..100 {
        let p = c.get_random_prompt(None, None, false);
        assert!(safe.contains(&p));
    }
}

#[test]
fn unseeded_selection_varies() {
    let c = Corpus::from_lines(numbered_lines("line", 1000), strings(vec![])).unwrap();
    let first = c.get_random_prompt(None, None, false);
    let mut all_equal = true;
    for _ in 0..4 {
        if c.get_random_prompt(None, None, false) != first {
            all_equal = false;
        }
    }
    assert!(!all_equal, "five unseeded draws from 1000 lines all agreed");
}

#[test]
fn query_parsing_reads_parameters() {
    let r = SelectionRequest::from_query(Some("seed=42&step=7&allow_non_pg=true"));
    assert_eq!(r.seed, Some(42));
    assert_eq!(r.step, Some(7));
    assert!(r.allow_non_pg);
}

#[test]
fn query_parsing_defaults() {
    let d = SelectionRequest::default();
    assert_eq!(d.seed, None);
    assert_eq!(d.step, None);
    assert!(!d.allow_non_pg);

    let r = SelectionRequest::from_query(None);
    assert_eq!(r.seed, None);
    assert_eq!(r.step, None);
    assert!(!r.allow_non_pg);

    let r = SelectionRequest::from_query(Some(""));
    assert_eq!(r.seed, None);
    assert_eq!(r.step, None);
    assert!(!r.allow_non_pg);
}

#[test]
fn malformed_seed_reads_as_absent() {
    let a = SelectionRequest::from_query(Some("seed=notanumber&step=5"));
    let b = SelectionRequest::from_query(Some("step=5"));
    assert_eq!(a.seed, b.seed);
    assert_eq!(a.step, b.step);
    assert_eq!(a.allow_non_pg, b.allow_non_pg);
    assert_eq!(a.seed, None);
    assert_eq!(a.step, Some(5));
}

#[test]
fn malformed_allow_reads_as_false() {
    let r = SelectionRequest::from_query(Some("allow_non_pg=1"));
    assert!(!r.allow_non_pg);
    let r = SelectionRequest::from_query(Some("allow_non_pg=false"));
    assert!(!r.allow_non_pg);
}

#[test]
fn non_ascii_query_reads_as_default() {
    let r = SelectionRequest::from_query(Some("é=1"));
    assert_eq!(r.seed, None);
    assert_eq!(r.step, None);
    assert!(!r.allow_non_pg);

    let r = SelectionRequest::from_query(Some("seed=5&é=c"));
    assert_eq!(r.seed, None);
    assert_eq!(r.step, None);
    assert!(!r.allow_non_pg);

    let c = Corpus::from_lines(strings(vec!["Hello"]), strings(vec![])).unwrap();
    let reply = handle_request(&c, "GET", "/prompt", Some("é=1"));
    assert_eq!(reply.status(), 200);
    assert_eq!(reply.into_body(), "Hello");
}

#[test]
fn seed_parsing_edges() {
    let r = SelectionRequest::from_query(Some("seed=+7"));
    assert_eq!(r.seed, Some(7));
    let r = SelectionRequest::from_query(Some("seed=18446744073709551615"));
    assert_eq!(r.seed, Some(u64::MAX));
    let r = SelectionRequest::from_query(Some("seed=18446744073709551616"));
    assert_eq!(r.seed, None);
    let r = SelectionRequest::from_query(Some("seed="));
    assert_eq!(r.seed, None);
}

#[test]
fn first_occurrence_of_a_parameter_wins() {
    let r = SelectionRequest::from_query(Some("seed=1&seed=2"));
    assert_eq!(r.seed, Some(1));
}

#[test]
fn singleton_corpus_always_answers_hello() {
    let c = Corpus::from_lines(strings(vec!["Hello"]), strings(vec![])).unwrap();
    for query in [
        None,
        Some(""),
        Some("seed=5"),
        Some("seed=5&step=9"),
        Some("allow_non_pg=true"),
        Some("seed=notanumber&allow_non_pg=true"),
    ] {
        let reply = handle_request(&c, "GET", "/prompt", query);
        assert_eq!(reply.status(), 200);
        assert_eq!(reply.into_body(), "Hello");
    }
}

#[test]
fn unknown_routes_get_404() {
    let c = Corpus::from_lines(strings(vec!["Hello"]), strings(vec![])).unwrap();
    let reply = handle_request(&c, "GET", "/unknown", None);
    assert_eq!(reply.status(), 404);
    assert_eq!(reply.into_body(), "");
    let reply = handle_request(&c, "POST", "/prompt", None);
    assert_eq!(reply.status(), 404);
    assert_eq!(reply.into_body(), "");
}

#[test]
fn routed_prompt_matches_direct_selection() {
    let c = Corpus::from_lines(numbered_lines("safe", 30), numbered_lines("extra", 10)).unwrap();
    let direct = c.get_random_prompt(Some(42), Some(7), true);
    let reply = handle_request(&c, "GET", "/prompt", Some("seed=42&step=7&allow_non_pg=true"));
    assert_eq!(reply.status(), 200);
    assert_eq!(reply.into_body(), direct);
    match handle_request(&c, "GET", "/prompt", Some("seed=42&step=7&allow_non_pg=true")) {
        RouteResponse::Prompt(p) => assert_eq!(p, direct),
        RouteResponse::NotFound => panic!("served route answered not-found"),
    }
}
