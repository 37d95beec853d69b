use minigrep::{
    contains_query, filter, search, search_case_insensitive, search_without_query,
    search_without_query_insensitive, split_lines, Config, Mode,
};

#[test]
fn case_sensitive() {
    let query = "duct";

    let contents = "\
Rust:
safe, fast, productive.
Pick three.
Duct tape.";

    assert_eq!(vec!["safe, fast, productive."], search(query, contents));
}

#[test]
fn case_insensitive() {
    let query = "rUsT";

    let contents = "\
Rust:
safe, fast, productive.
Pick three.
Trust me.";

    assert_eq!(
        vec!["Rust:", "Trust me."],
        search_case_insensitive(query, contents)
    );
}

#[test]
fn test_search_without_query_sensitive() {
    let query = "hello";

    let contents = "\
hello
world from rust.
rust is the best language.
hello from rust.
Hello World";

    assert_eq!(
        vec![
            "world from rust.",
            "rust is the best language.",
            "Hello World"
        ],
        search_without_query(query, contents)
    );
}

#[test]
fn test_search_without_query_insensitive() {
    let query = "rust";

    let contents = "\
rust is great.
C++ is good.
C is my father.
Rust is future.";

    assert_eq!(
        vec!["C++ is good.", "C is my father."],
        search_without_query_insensitive(query, contents)
    );
}

#[test]
fn lines_of_empty_text() {
    assert!(split_lines("").is_empty());
}

#[test]
fn final_newline_adds_no_line() {
    assert_eq!(vec!["a", "b"], split_lines("a\nb\n"));
}

#[test]
fn crlf_endings_are_dropped() {
    assert_eq!(vec!["a", "", "b"], split_lines("a\r\n\r\nb"));
}

#[test]
fn lone_cr_at_end_stays() {
    assert_eq!(vec!["a", "b\r"], split_lines("a\nb\r"));
}

#[test]
fn blank_lines_are_lines() {
    assert_eq!(vec!["", ""], split_lines("\n\n"));
}

#[test]
fn lines_with_wide_chars() {
    assert_eq!(vec!["größe", "日本語 text"], split_lines("größe\n日本語 text\n"));
    assert_eq!(vec!["日本語 text"], search("本語", "größe\n日本語 text\n"));
}

#[test]
fn exact_search_reports_matching_lines_in_order() {
    let contents = "one fish\ntwo fish\r\nred\nblue fish";
    assert_eq!(vec!["one fish", "two fish", "blue fish"], search("fish", contents));
    assert_eq!(vec!["red"], search_without_query("fish", contents));
    assert!(search("Fish", contents).is_empty());
}

#[test]
fn repeated_lines_are_kept() {
    assert_eq!(vec!["x", "x", "x"], search("x", "x\ny\nx\nx"));
}

#[test]
fn ignoring_case_matches_every_spelling() {
    let contents = "Rust\nrust\nRUST\nrUsT\ncrust\nruts";
    let expected = vec!["Rust", "rust", "RUST", "rUsT", "crust"];
    assert_eq!(expected, search_case_insensitive("rUsT", contents));
    assert_eq!(expected, search_case_insensitive("RUST", contents));
    assert_eq!(vec!["ruts"], search_without_query_insensitive("Rust", contents));
}

#[test]
fn lowercasing_reaches_the_query() {
    assert_eq!(vec!["abc"], search_case_insensitive("ABC", "abc\nxyz"));
    assert!(search("ABC", "abc\nxyz").is_empty());
}

#[test]
fn inverted_search_is_the_complement() {
    let contents = "hello\nworld from rust.\nHello again\nhello from rust.\nbye";
    for case_sensitive in [true, false] {
        let direct = filter("hello", contents, case_sensitive, false);
        let inverted = filter("hello", contents, case_sensitive, true);
        assert_eq!(split_lines(contents).len(), direct.len() + inverted.len());
        for line in split_lines(contents) {
            assert!(direct.contains(&line) != inverted.contains(&line));
        }
    }
}

#[test]
fn searching_a_result_again_changes_nothing() {
    let contents = "alpha\nbeta\nalphabet\ngamma";
    let once = search("alpha", contents);
    let joined = once.join("\n");
    assert_eq!(once, search("alpha", &joined));
    let once = search_without_query_insensitive("ALPHA", contents);
    let joined = once.join("\n");
    assert_eq!(once, search_without_query_insensitive("ALPHA", &joined));
}

#[test]
fn empty_query_reports_every_line() {
    let contents = "a\n\nb c\nD";
    assert_eq!(vec!["a", "", "b c", "D"], search("", contents));
    assert_eq!(vec!["a", "", "b c", "D"], search_case_insensitive("", contents));
    assert!(search_without_query("", contents).is_empty());
    assert!(search_without_query_insensitive("", contents).is_empty());
}

#[test]
fn containment_of_substrings() {
    assert!(contains_query("productive", "duct"));
    assert!(contains_query("duct", "duct"));
    assert!(contains_query("anything", ""));
    assert!(!contains_query("", "a"));
    assert!(!contains_query("duc", "duct"));
    assert!(!contains_query("Duct tape.", "duct"));
}

#[test]
fn every_flag_pair_has_its_own_mode() {
    let contents = "rust is great.\nC++ is good.\nRust is future.";
    assert_eq!(vec!["rust is great."], filter("rust", contents, true, false));
    assert_eq!(
        vec!["rust is great.", "Rust is future."],
        filter("rust", contents, false, false)
    );
    assert_eq!(
        vec!["C++ is good.", "Rust is future."],
        filter("rust", contents, true, true)
    );
    assert_eq!(vec!["C++ is good."], filter("rust", contents, false, true));
    assert_eq!(
        vec!["C++ is good."],
        Mode::new(false, true).search("rust", contents)
    );
}

fn args(words: &[&str]) -> Vec<String> {
    words.iter().map(|w| w.to_string()).collect()
}

#[test]
fn config_needs_query_and_file() {
    assert_eq!(
        Err("Not enough arguments!"),
        Config::new(&args(&["prog", "query"]), false).map(|_| ())
    );
    assert!(Config::new(&args(&["prog"]), false).is_err());
    assert!(Config::new(&args(&[]), false).is_err());
}

#[test]
fn config_defaults() {
    let c = Config::new(&args(&["prog", "needle", "poem.txt"]), false).unwrap();
    assert_eq!("needle", c.query);
    assert_eq!("poem.txt", c.filename);
    assert!(c.is_sensitive);
    assert!(!c.exists_ignore_option);
}

#[test]
fn config_options() {
    let c = Config::new(
        &args(&["prog", "needle", "poem.txt", "--ignore", "--insensitive"]),
        false,
    )
    .unwrap();
    assert!(!c.is_sensitive);
    assert!(c.exists_ignore_option);
    assert_eq!(
        vec!["C++"],
        c.mode().search("needle", "NEEDLE\nC++")
    );
}

#[test]
fn config_environment_turns_off_case() {
    let c = Config::new(&args(&["prog", "needle", "poem.txt"]), true).unwrap();
    assert!(!c.is_sensitive);
    let c = Config::new(&args(&["prog", "needle", "poem.txt", "--other"]), false).unwrap();
    assert!(c.is_sensitive);
    assert!(!c.exists_ignore_option);
}

#[test]
fn options_before_the_file_name_are_positional() {
    let c = Config::new(&args(&["prog", "--ignore", "--insensitive"]), false).unwrap();
    assert_eq!("--ignore", c.query);
    assert_eq!("--insensitive", c.filename);
    assert!(c.is_sensitive);
    assert!(!c.exists_ignore_option);
}
