use ws::minigrep::config::Config;
use ws::minigrep::search::{find_line, find_line_ci, lines};

const POEM: &str = "\
I'm nobody! Who are you?
Are you nobody, too?
Then there's a pair of us - don't tell!
They'd banish us, you know.

How dreary to be somebody!
How public, like a frog
To tell your name the livelong day
To an admiring bog!";

fn test_find_line_case<'a>(query: &str, content: &'a str, expected: Vec<&'a str>) {
    let result = find_line(query, content);
    assert_eq!(result, expected);
}

#[test]
fn test_find_line() {
    test_find_line_case("fish", POEM, Vec::new());
    test_find_line_case("frog", POEM, vec!["How public, like a frog"]);
    test_find_line_case("nobody", POEM, vec![
        "I'm nobody! Who are you?",
        "Are you nobody, too?",
    ]);
    test_find_line_case("dog", "", Vec::new());
    test_find_line_case("Frog", POEM, Vec::new());
}

fn test_find_line_ci_case<'a>(query: &str, content: &'a str, expected: Vec<&'a str>) {
    let result = find_line_ci(query, content);
    assert_eq!(result, expected);
}

#[test]
fn test_find_line_ci() {
    test_find_line_ci_case("FRoG", POEM, vec!["How public, like a frog"]);
}

#[test]
fn case_insensitive_search_finds_exact_matches() {
    for q in ["nobody", "us", "To", "a"] {
        let exact = find_line(q, POEM);
        let blind = find_line_ci(q, POEM);
        for l in exact {
            assert!(blind.contains(&l));
        }
    }
}

#[test]
fn lines_follow_str_lines() {
    for text in ["", "a", "a\n", "a\n\nb", "a\r\nb\r\n", "x\ry", "\n", "tail\r"] {
        let expected: Vec<&str> = text.lines().collect();
        assert_eq!(lines(text), expected, "text {:?}", text);
    }
}

#[test]
fn empty_query_matches_every_line() {
    assert_eq!(find_line("", "a\nb\n"), vec!["a", "b"]);
}

#[test]
fn test_build_config() {
    let args = vec![String::from("minigrep"), String::from("query"), String::from("filename.txt")];
    assert_eq!(
        Config::build(args.clone(), false),
        Ok(Config { query: String::from("query"), filename: String::from("filename.txt"), ignore_case: false })
    );
    assert_eq!(
        Config::build(args, true),
        Ok(Config { query: String::from("query"), filename: String::from("filename.txt"), ignore_case: true })
    );
    assert_eq!(
        Config::build(vec![String::from("minigrep")], false).unwrap_err().to_string(),
        "Please provide a query string"
    );
    assert_eq!(
        Config::build(vec![String::from("minigrep"), String::from("query")], false).unwrap_err().to_string(),
        "Please provide a filename"
    );
}

#[test]
fn case_insensitive_search_ignores_query_case() {
    let contents = "Rust:\nsafe, fast, productive.\nPick three.\nTrust me.";
    assert_eq!(find_line_ci("rUsT", contents), find_line_ci("RUST", contents));
    assert_eq!(find_line_ci("rust", contents), vec!["Rust:", "Trust me."]);
    let exact = find_line("Rust", contents);
    let ci = find_line_ci("Rust", contents);
    let part: Vec<&str> = ci.into_iter().filter(|l| l.contains("Rust")).collect();
    assert_eq!(exact, part);
}
