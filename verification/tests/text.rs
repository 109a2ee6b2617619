use chain_apps::text::{lines_of, search_str};

fn std_search(query: &str, contents: &str) -> bool {
    contents.lines().any(|line| line.contains(query))
}

#[test]
fn finds_string_within_a_line() {
    assert!(search_str("duct", "Rust:\nsafe, fast, productive.\nPick three."));
    assert!(!search_str("rust", "Rust:\nsafe, fast, productive.\nPick three."));
    assert!(!search_str("fast, productive.\nPick", "Rust:\nsafe, fast, productive.\nPick three."));
}

#[test]
fn empty_query_and_empty_text() {
    assert!(!search_str("", ""));
    assert!(search_str("", "a"));
    assert!(search_str("", "\n"));
}

#[test]
fn carriage_returns() {
    assert!(!search_str("a\r", "a\r\nb"));
    assert!(search_str("a\r", "a\rb"));
    assert!(search_str("b\r", "a\nb\r"));
}

#[test]
fn agrees_with_std_lines() {
    let texts = [
        "", "\n", "\n\n", "a", "a\n", "a\r\n", "a\rb\r\n\r\nc\r", "ab\ncd\n\nef", "\r", "\r\n", "x\n\ry", "héllo\nwörld\n",
    ];
    let queries = ["", "a", "\r", "\n", "b\r", "c\r", "ab", "cd", "d\ne", "ll", "ö", "wörld", "\ry", "x"];
    for t in texts.iter() {
        for q in queries.iter() {
            assert_eq!(search_str(q, t), std_search(q, t), "query {:?} in {:?}", q, t);
        }
        let ours: Vec<String> = lines_of(t).into_iter().map(|l| l.into_iter().collect()).collect();
        let theirs: Vec<String> = t.lines().map(|l| l.to_string()).collect();
        assert_eq!(ours, theirs, "lines of {:?}", t);
    }
}

#[test]
fn joined_texts_join_their_lines() {
    let parts = ["", "ab", "x\ny", "a\r", "\n", "cab\r\n"];
    let queries = ["a", "b", "ab", "y", "\r", "b\r"];
    for a in parts.iter() {
        if a.ends_with('\r') {
            continue;
        }
        for b in parts.iter() {
            let joined = format!("{}\n{}", a, b);
            for q in queries.iter() {
                assert_eq!(search_str(q, &joined), search_str(q, a) || search_str(q, b), "{:?} in {:?}", q, joined);
            }
        }
    }
}

#[test]
fn found_where_it_occurs_within_a_line() {
    assert!(search_str("ab", "xxab"));
    assert!(search_str("a\r", "a\r"));
    assert!(!search_str("a\r", "a\r\n"));
    assert!(!search_str("a\nb", "a\nb"));
}
