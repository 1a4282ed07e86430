use minigrep::{search, search_case_insensitive, Config, SearchResult};

#[test]
fn one_result() {
    let query = "fzf";
    let contents = "Some thing goes h e r e a n d h e r e c o m e s \nfzf";

    assert_eq!(search(query, contents), vec![(SearchResult { line: "fzf", lineno: 1 })])
}

#[test]
fn case_insensitive() {
    // No line of these contents holds "here": "hre" is not a match.
    let query = "here";
    let contents = "Some thing goes hre and \nhre comes \nfzf";

    assert_eq!(search_case_insensitive(query, contents), vec![])
}

#[test]
fn results_hold_query_and_line_numbers() {
    let contents = "foo\nbar\nboo";
    let r = search("o", contents);
    assert_eq!(
        r,
        vec![
            SearchResult { line: "foo", lineno: 0 },
            SearchResult { line: "boo", lineno: 2 },
        ]
    );
    let lines: Vec<&str> = contents.lines().collect();
    for x in &r {
        assert!(x.line.contains("o"));
        assert_eq!(lines[x.lineno], x.line);
    }
}

#[test]
fn case_insensitive_lowercases_both_sides() {
    let contents = "rust\nTrust me\nRUST\nnothing";
    assert_eq!(
        search_case_insensitive("Rust", contents),
        vec![
            SearchResult { line: "rust", lineno: 0 },
            SearchResult { line: "Trust me", lineno: 1 },
            SearchResult { line: "RUST", lineno: 2 },
        ]
    );
    assert_eq!(search("Rust", contents), vec![]);
}

#[test]
fn case_insensitive_covers_case_sensitive_on_lowercase_text() {
    let contents = "alpha\nbeta\nalphabet";
    let exact = search("alpha", contents);
    let folded = search_case_insensitive("alpha", contents);
    for x in &exact {
        assert!(folded.iter().any(|y| y.lineno == x.lineno));
    }
    assert_eq!(exact, folded);
}

#[test]
fn search_twice_gives_same_results() {
    let contents = "one\ntwo\nthree\ntwenty";
    assert_eq!(search("tw", contents), search("tw", contents));
    assert_eq!(
        search_case_insensitive("TW", contents),
        search_case_insensitive("TW", contents)
    );
}

#[test]
fn empty_contents_give_nothing() {
    assert_eq!(search("a", ""), vec![]);
    assert_eq!(search("", ""), vec![]);
    assert_eq!(search_case_insensitive("a", ""), vec![]);
    assert_eq!(search_case_insensitive("", ""), vec![]);
}

#[test]
fn empty_query_matches_every_line() {
    let contents = "a\n\nb";
    let all = vec![
        SearchResult { line: "a", lineno: 0 },
        SearchResult { line: "", lineno: 1 },
        SearchResult { line: "b", lineno: 2 },
    ];
    assert_eq!(search("", contents), all);
    assert_eq!(search_case_insensitive("", contents), all);
}

#[test]
fn line_endings() {
    let contents = "a1\r\nb1\r\nc1\n";
    assert_eq!(
        search("1", contents),
        vec![
            SearchResult { line: "a1", lineno: 0 },
            SearchResult { line: "b1", lineno: 1 },
            SearchResult { line: "c1", lineno: 2 },
        ]
    );
    assert_eq!(search("", "x\n").len(), 1);
    assert_eq!(search("\r", "x\r"), vec![SearchResult { line: "x\r", lineno: 0 }]);
}

#[test]
fn repeated_occurrences_count_once() {
    assert_eq!(search("aa", "aaaa"), vec![SearchResult { line: "aaaa", lineno: 0 }]);
}

#[test]
fn query_equal_to_line_matches() {
    assert_eq!(
        search("whole line", "x\nwhole line"),
        vec![SearchResult { line: "whole line", lineno: 1 }]
    );
    assert_eq!(search("whole line!", "whole line"), vec![]);
}

#[test]
fn non_ascii_lines() {
    let contents = "grüße\nÄRGER\nplain";
    assert_eq!(search("üß", contents), vec![SearchResult { line: "grüße", lineno: 0 }]);
    assert_eq!(
        search_case_insensitive("ärger", contents),
        vec![SearchResult { line: "ÄRGER", lineno: 1 }]
    );
}

fn args(v: &[&str]) -> Vec<String> {
    v.iter().map(|s| s.to_string()).collect()
}

#[test]
fn config_needs_two_arguments() {
    let r = Config::new(args(&["prog", "query"]), None);
    assert_eq!(r.err(), Some("Expected two arguments, but got too little arguments"));
    assert!(Config::new(args(&["prog"]), Some("true".to_string())).is_err());
}

#[test]
fn config_reads_arguments_and_variable() {
    let c = Config::new(args(&["prog", "needle", "hay.txt"]), Some("true".to_string())).unwrap();
    assert_eq!(c.query, "needle");
    assert_eq!(c.filename, "hay.txt");
    assert!(c.case_sensitive);

    let c = Config::new(args(&["prog", "needle", "hay.txt", "extra"]), None).unwrap();
    assert!(!c.case_sensitive);
    let c = Config::new(args(&["prog", "n", "f"]), Some("TRUE".to_string())).unwrap();
    assert!(!c.case_sensitive);
    let c = Config::new(args(&["prog", "n", "f"]), Some("1".to_string())).unwrap();
    assert!(!c.case_sensitive);
}

#[test]
fn config_picks_search_mode() {
    let contents = "Needle\nneedle";
    let sensitive = Config::new(args(&["prog", "needle", "f"]), Some("true".to_string())).unwrap();
    assert_eq!(
        sensitive.search_in(contents),
        vec![SearchResult { line: "needle", lineno: 1 }]
    );
    let folded = Config::new(args(&["prog", "needle", "f"]), None).unwrap();
    assert_eq!(folded.search_in(contents).len(), 2);
}
