use lsp_bridge::json::Json;
use lsp_bridge::search::ctags::{
    complete, complete_args, find_definition, find_definition_args, make_annotation, parse_tag_line, read_tags, TagInfo,
    DEFAULT_FILTER, DEFAULT_SORTER,
};
use lsp_bridge::search::file_words::{collect_words, complete_word, extract_words, LoadedFile, SearchFileWords};
use lsp_bridge::search::double::{round, Double};
use lsp_bridge::search::fuzzy::{at_least, fuzzy_ratio, lcs_length, Threshold};
use lsp_bridge::search::list::{match_symbol as match_listed, rank_symbols, SearchList};
use lsp_bridge::search::paths::{match_symbol, search_paths, sort_files, PathEntry, MAX_NUMBER};
use std::cmp::Ordering;

fn json(s: &str) -> Json {
    Json::parse(s).unwrap()
}

fn percent(n: u32) -> Threshold {
    Threshold { numerator: n, denominator: 1 }
}

fn labels(results: &[Json]) -> Vec<String> {
    results.iter().filter_map(|r| r.get("label").and_then(|l| l.as_str()).map(|s| s.to_string())).collect()
}

fn has(words: &[String], word: &str) -> bool {
    words.iter().any(|w| w == word)
}

/// The ratio as a number.
fn value(r: Double) -> f64 {
    r.mantissa as f64 * 2f64.powi(r.exponent as i32)
}

// ===== Words of files =====

#[test]
fn extract_words_basic() {
    let words = extract_words("hello world foo bar");
    assert!(has(&words, "hello"));
    assert!(has(&words, "world"));
    assert!(!has(&words, "foo")); // len <= 3
}

#[test]
fn extract_words_code() {
    let words = extract_words("def my_function(arg1, arg2):\n    return value");
    assert!(has(&words, "my_function"));
    assert!(has(&words, "return"));
    assert!(has(&words, "value"));
}

#[test]
fn extract_words_filters_numbers() {
    let words = extract_words("hello 12345 world");
    assert!(!has(&words, "12345"));
    assert!(has(&words, "hello"));
}

#[test]
fn extract_words_keeps_hyphens() {
    let words = extract_words("my-variable some-long-name");
    assert!(has(&words, "my-variable"));
    assert!(has(&words, "some-long-name"));
}

#[test]
fn search_prefix_match() {
    let mut sfw = SearchFileWords::new(10, false, percent(0));
    sfw.index_file("test.py", "hello world helicopter help");
    let results = sfw.search("hel");
    let labels = labels(&results);
    assert!(has(&labels, "hello"));
    assert!(has(&labels, "helicopter"));
    assert!(has(&labels, "help"));
}

#[test]
fn search_fuzzy_match() {
    let mut sfw = SearchFileWords::new(10, true, percent(50));
    sfw.index_file("test.py", "hello world helicopter help something");
    let results = sfw.search("helo"); // typo for hello
    let labels = labels(&results);
    assert!(has(&labels, "hello"));
}

#[test]
fn search_dash_split_fallback() {
    let mut sfw = SearchFileWords::new(10, false, percent(0));
    sfw.index_file("test.el", "defun buffer-name buffer-list");
    let results = sfw.search("my-buffer");
    let labels = labels(&results);
    assert!(!labels.is_empty() || results.is_empty());
    // The last piece is searched, and the others stand in front of what it leads to.
    assert_eq!(labels, vec!["my-buffer-name", "my-buffer-list"]);
}

#[test]
fn close_file_removes_words() {
    let mut sfw = SearchFileWords::new(10, false, percent(0));
    sfw.index_file("test.py", "hello world something");
    assert!(!sfw.search("hello").is_empty());
    sfw.close_file("test.py");
    assert!(sfw.search("hello").is_empty());
}

#[test]
fn fuzzy_ratio_identical() {
    assert!((value(fuzzy_ratio("hello", "hello")) - 100.0).abs() < 0.01);
}

#[test]
fn fuzzy_ratio_empty() {
    assert!((value(fuzzy_ratio("", "")) - 100.0).abs() < 0.01);
    assert!((value(fuzzy_ratio("hello", "")) - 0.0).abs() < 0.01);
}

#[test]
fn fuzzy_ratio_partial() {
    let ratio = value(fuzzy_ratio("hello", "helo"));
    assert!(ratio > 50.0); // high similarity
}

#[test]
fn file_words_candidate_format() {
    let mut sfw = SearchFileWords::new(10, false, percent(0));
    sfw.index_file("test.py", "something");
    let results = sfw.search("some");
    let c = results.first().unwrap();
    assert_eq!(c.get("icon").unwrap().as_str(), Some("search"));
    assert_eq!(c.get("backend").unwrap().as_str(), Some("search-file-words"));
    assert_eq!(c.get("annotation").unwrap().as_str(), Some("Search Word"));
}

#[test]
fn words_come_once_and_in_order() {
    assert_eq!(extract_words("beta-1 alpha beta-1 ab 1234 12345x"), vec!["beta-1", "alpha", "12345x"]);
    let tokens: Vec<String> = ["a-b_c", "été", "éa", "9999", "----"].iter().map(|s| s.to_string()).collect();
    assert_eq!(collect_words(&tokens), vec!["a-b_c", "été", "----"]);
}

#[test]
fn prefixes_keep_their_case() {
    assert_eq!(complete_word("Hel", "hello"), Some("Hello".to_string()));
    assert_eq!(complete_word("hEL", "HELLO"), Some("hELLO".to_string()));
    assert_eq!(complete_word("HE", "hello"), Some("HELLO".to_string()));
    assert_eq!(complete_word("É", "été"), Some("ÉTÉ".to_string()));
    assert_eq!(complete_word("", "word"), Some("WORD".to_string()));
    assert_eq!(complete_word("x", "hello"), None);
}

#[test]
fn shorter_words_come_first() {
    let mut sfw = SearchFileWords::new(2, false, percent(0));
    sfw.index_file("a", "prefix-long prefix prefix-x");
    assert_eq!(labels(&sfw.search("pre")), vec!["prefix", "prefix-x"]);
}

#[test]
fn underscore_split_fallback() {
    let mut sfw = SearchFileWords::new(10, false, percent(0));
    sfw.index_file("a", "buffer-name");
    assert_eq!(labels(&sfw.search("my_buf")), vec!["my_buffer-name"]);
    assert!(sfw.search("my_").is_empty());
    assert!(sfw.search("my-").is_empty());
}

#[test]
fn more_alike_words_come_first() {
    let mut sfw = SearchFileWords::new(10, true, percent(60));
    sfw.index_file("a", "helicopter hello yellow");
    assert_eq!(labels(&sfw.search("hello")), vec!["hello", "yellow"]);
}

#[test]
fn files_are_indexed_once() {
    let mut sfw = SearchFileWords::new(10, false, percent(0));
    sfw.index_file("a", "first");
    let files = vec![
        LoadedFile { filepath: "a".to_string(), content: Some("second".to_string()) },
        LoadedFile { filepath: "b".to_string(), content: None },
        LoadedFile { filepath: "c".to_string(), content: Some("third".to_string()) },
    ];
    sfw.index_files(&files);
    assert!(sfw.is_indexed("a") && sfw.is_indexed("c") && !sfw.is_indexed("b"));
    assert_eq!(labels(&sfw.search("second")).len(), 0);
    sfw.load_file("a", Some("second"));
    sfw.load_file("c", None);
    assert_eq!(labels(&sfw.search("second")), vec!["second"]);
    assert_eq!(labels(&sfw.search("third")), vec!["third"]);
}

#[test]
fn common_subsequences() {
    let chars = |s: &str| -> Vec<char> { s.chars().collect() };
    assert_eq!(lcs_length(&chars("abcbdab"), &chars("bdcaba")), 4);
    assert_eq!(lcs_length(&chars(""), &chars("abc")), 0);
    assert_eq!(lcs_length(&chars("été"), &chars("tête")), 1);
    let r = fuzzy_ratio("hello", "helo");
    assert_eq!(value(r), (2.0 * 4.0 / 9.0) * 100.0);
    assert!(at_least(&r, &Threshold { numerator: 888, denominator: 10 }));
    assert!(!at_least(&r, &percent(89)));
    assert!(fuzzy_ratio("ab", "ab").exceeds(&r) && !r.exceeds(&r));
}

// ===== Lists of symbols =====

#[test]
fn update_and_search() {
    let mut sl = SearchList::new();
    sl.update(
        "test",
        vec![
            "hello".to_string(),
            "help".to_string(),
            "world".to_string(),
            "helicopter".to_string(),
        ],
        100,
    );
    let results = sl.search("test", "hel");
    assert!(results.contains(&"hello".to_string()));
    assert!(results.contains(&"help".to_string()));
    assert!(results.contains(&"helicopter".to_string()));
    assert!(!results.contains(&"world".to_string()));
}

#[test]
fn search_dash_removal() {
    let mut sl = SearchList::new();
    sl.update("test", vec!["my-func".to_string()], 100);
    let results = sl.search("test", "myfunc");
    assert!(results.contains(&"my-func".to_string()));
}

#[test]
fn search_fuzzy_regex() {
    let mut sl = SearchList::new();
    sl.update("test", vec!["buffer-string".to_string()], 100);
    let results = sl.search("test", "bs");
    assert!(results.contains(&"buffer-string".to_string()));
}

#[test]
fn search_empty_backend() {
    let sl = SearchList::new();
    let results = sl.search("nonexistent", "hello");
    assert!(results.is_empty());
}

#[test]
fn search_respects_max() {
    let mut sl = SearchList::new();
    let symbols: Vec<String> = (0..200).map(|i| format!("sym{}", i)).collect();
    sl.update("test", symbols, 10);
    let results = sl.search("test", "sym");
    assert!(results.len() <= 10);
}

#[test]
fn sort_prefix_first() {
    let mut sl = SearchList::new();
    sl.update(
        "test",
        vec![
            "something".to_string(),
            "prefix-long".to_string(),
            "prefix".to_string(),
        ],
        100,
    );
    let results = sl.search("test", "prefix");
    assert_eq!(results[0], "prefix");
}

#[test]
fn python_fuzzy_regex_pattern() {
    // The characters "b" and "s" occur in this order in all of them but "abc".
    let mut sl = SearchList::new();
    sl.update(
        "t",
        vec![
            "buffer-string".to_string(),
            "buffer-size".to_string(),
            "abc".to_string(),
            "basic".to_string(),
        ],
        100,
    );
    let results = sl.search("t", "bs");
    assert!(results.contains(&"buffer-string".to_string()));
    assert!(results.contains(&"buffer-size".to_string()));
    assert!(!results.contains(&"abc".to_string()));
    assert!(results.contains(&"basic".to_string()));
}

#[test]
fn python_dash_removal_match() {
    let mut sl = SearchList::new();
    sl.update("t", vec!["my-func".to_string(), "other".to_string()], 100);
    let results = sl.search("t", "myfunc");
    assert!(results.contains(&"my-func".to_string()));
    assert!(!results.contains(&"other".to_string()));
}

#[test]
fn listed_symbols_in_order() {
    let mut sl = SearchList::default();
    let symbols = ["xa", "ab-c", "abc", "axb", "a-b"].iter().map(|s| s.to_string()).collect();
    sl.update("t", symbols, 4);
    // Sorted by length first, cut after four matches, then those that start with the prefix.
    assert_eq!(sl.search("t", "ab"), vec!["abc", "ab-c", "axb", "a-b"]);
    assert_eq!(sl.search("t", "a.b"), vec!["abc", "axb", "a-b", "ab-c"]);
    assert_eq!(sl.search("t", "").len(), 4);
    let ranked = rank_symbols("p", vec!["qp".to_string(), "pq".to_string(), "p".to_string()]);
    assert_eq!(ranked, vec!["p", "pq", "qp"]);
    assert!(match_listed("x", Some(true), "y") && !match_listed("x", Some(false), "y") && !match_listed("x", None, "y"));
}

// ===== Paths =====

#[test]
fn match_symbol_prefix() {
    assert!(match_symbol("hel", "hello"));
    assert!(!match_symbol("xyz", "hello"));
}

#[test]
fn match_symbol_dash_removed() {
    assert!(match_symbol("foo", "f-o-o-bar")); // "foobar".starts_with("foo")
}

#[test]
fn match_symbol_substring() {
    assert!(match_symbol("ello", "hello"));
}

#[test]
fn sort_dirs_first() {
    let a = json(r#"{"key": "src", "icon": "dir"}"#);
    let b = json(r#"{"key": "main.rs", "icon": "file"}"#);
    assert_eq!(sort_files("", &a, &b), Ordering::Less);
}

#[test]
fn sort_prefix_match_first() {
    let a = json(r#"{"key": "main.rs", "icon": "file"}"#);
    let b = json(r#"{"key": "other.rs", "icon": "file"}"#);
    assert_eq!(sort_files("main", &a, &b), Ordering::Less);
}

fn entry(name: &str, is_dir: bool) -> PathEntry {
    PathEntry { name: name.to_string(), is_dir }
}

#[test]
fn paths_in_order() {
    let entries = vec![
        entry("xmain.rs", false),
        entry("MAIN", false),
        entry("main.rs", false),
        entry("main", true),
        entry("other", true),
        entry("b-main", true),
    ];
    let results = search_paths(&entries, "main");
    assert_eq!(labels(&results), vec!["main", "main.rs", "b-main", "MAIN", "xmain.rs"]);
    assert_eq!(
        results[0],
        json(r#"{"key": "main", "icon": "dir", "label": "main", "displayLabel": "main", "annotation": "DIR", "backend": "path"}"#)
    );
    assert_eq!(results[1].get("annotation").unwrap().as_str(), Some("FILE"));
    for pair in results.windows(2) {
        assert_ne!(sort_files("main", &pair[1], &pair[0]), Ordering::Less);
    }
    assert_eq!(sort_files("main", &results[0], &results[0]), Ordering::Equal);
    assert_eq!(sort_files("main", &results[4], &results[0]), Ordering::Greater);
}

#[test]
fn paths_stop_after_the_limit() {
    let entries: Vec<PathEntry> = (0..400).map(|i| entry(&format!("f{}", i), false)).collect();
    assert_eq!(search_paths(&entries, "f").len(), MAX_NUMBER);
    assert!(search_paths(&vec![], "f").is_empty());
}

// ===== Tags =====

#[test]
fn parse_simple_tag() {
    let line = "my_func\tsrc/main.py\t/^def my_func/;\"\tkind:function\tscope:module";
    let tag = parse_tag_line(line).unwrap();
    assert_eq!(tag.name, "my_func");
    assert_eq!(tag.file, "src/main.py");
    assert_eq!(tag.kind, "function");
    assert_eq!(tag.scope, "module");
}

#[test]
fn parse_tag_no_extras() {
    let line = "MyClass\tlib.py\t/^class MyClass/;\"";
    let tag = parse_tag_line(line).unwrap();
    assert_eq!(tag.name, "MyClass");
    assert_eq!(tag.file, "lib.py");
}

#[test]
fn parse_tag_with_typeref() {
    let line = "field_x\tmod.c\t/^int field_x;\t/;\"\tkind:member\ttyperef:typename:int\tscope:struct:MyStruct";
    let tag = parse_tag_line(line).unwrap();
    assert_eq!(tag.kind, "member");
    assert_eq!(tag.typeref, "typename:int");
    assert_eq!(tag.scope, "struct:MyStruct");
}

#[test]
fn parse_empty_line() {
    assert!(parse_tag_line("").is_none());
}

#[test]
fn annotation_basic() {
    let tag = TagInfo {
        name: "foo".to_string(),
        file: "test.py".to_string(),
        address: "/^def foo/".to_string(),
        kind: "function".to_string(),
        typeref: String::new(),
        scope: "module:main".to_string(),
        extras: String::new(),
    };
    assert_eq!(tag.annotation(), "function@module:main");
}

#[test]
fn annotation_with_typeref() {
    let tag = TagInfo {
        name: "x".to_string(),
        file: "test.c".to_string(),
        address: "".to_string(),
        kind: "member".to_string(),
        typeref: "typename:int".to_string(),
        scope: String::new(),
        extras: String::new(),
    };
    assert_eq!(tag.annotation(), "member/int");
}

#[test]
fn annotation_reference() {
    let tag = TagInfo {
        name: "x".to_string(),
        file: "test.c".to_string(),
        address: "".to_string(),
        kind: "variable".to_string(),
        typeref: String::new(),
        scope: String::new(),
        extras: "reference".to_string(),
    };
    assert_eq!(tag.annotation(), "<R>variable");
}

#[test]
fn annotation_anon_cleanup() {
    let tag = TagInfo {
        name: "x".to_string(),
        file: "test.c".to_string(),
        address: "".to_string(),
        kind: "member".to_string(),
        typeref: String::new(),
        scope: "struct:__anon12345abc".to_string(),
        extras: String::new(),
    };
    let ann = tag.annotation();
    assert!(ann.contains("__anon"));
    assert!(!ann.contains("__anon12345abc")); // should be cleaned
    assert_eq!(ann, "member@struct:__anon");
}

#[test]
fn ctags_candidate_format() {
    let tag = TagInfo {
        name: "my_func".to_string(),
        file: "test.py".to_string(),
        address: "".to_string(),
        kind: "function".to_string(),
        typeref: String::new(),
        scope: String::new(),
        extras: String::new(),
    };
    let c = tag.to_candidate();
    assert_eq!(c.get("key").unwrap().as_str(), Some("my_func"));
    assert_eq!(c.get("icon").unwrap().as_str(), Some("function"));
    assert_eq!(c.get("backend").unwrap().as_str(), Some("ctags"));
}

#[test]
fn tags_of_readtags_output() {
    let output = "a\tf.c\t1;\"\tf\r\nnot a tag\nb\tg.c\t2\tx;\"\t\textras:reference\n\nc\th.c\t3\r";
    let tags = read_tags(output);
    assert_eq!(tags.len(), 3);
    assert_eq!((tags[0].name.as_str(), tags[0].kind.as_str()), ("a", "f"));
    assert_eq!((tags[1].address.as_str(), tags[1].extras.as_str()), ("2\tx", "reference"));
    assert_eq!(tags[2].address, "3\r");
    assert_eq!(complete(true, output).len(), 3);
    assert!(complete(false, output).is_empty());
    assert!(find_definition(false, output).is_empty());
    assert_eq!(
        find_definition(true, "a\tf.c\t1;\"\tf\n"),
        vec![json(r#"{"name": "a", "file": "f.c", "address": "1", "annotation": "f"}"#)]
    );
    assert_eq!(complete(true, "a\tf.c\t1\n")[0].get("icon").unwrap().as_str(), Some("text"));
}

#[test]
fn arguments_of_readtags() {
    assert_eq!(
        complete_args("sym"),
        vec!["-t", "tags", "-Q", DEFAULT_FILTER, "-S", DEFAULT_SORTER, "-p", "-i", "-", "sym"]
    );
    assert_eq!(find_definition_args("sym"), vec!["-t", "tags", "-Q", DEFAULT_FILTER, "-e", "-", "sym"]);
}

#[test]
fn parts_of_annotations() {
    assert_eq!(make_annotation("k", "x,reference", "t", "s"), "<R>k/t@s");
    assert_eq!(make_annotation("", "", "t", ""), "t");
    assert_eq!(make_annotation("k", "", "", "s"), "k@s");
}

#[test]
fn search_real_directory() {
    let entries = vec![
        PathEntry { name: "a.txt".to_string(), is_dir: false },
        PathEntry { name: "b".to_string(), is_dir: true },
    ];
    let results = search_paths(&entries, "");
    assert!(results.iter().all(|r| r.get("backend").and_then(|b| b.as_str()) == Some("path")));
    assert_eq!(labels(&results), vec!["b", "a.txt"]);
}

#[test]
fn search_nonexistent_directory() {
    assert!(search_paths(&vec![], "test").is_empty());
}

#[test]
fn fuzzy_symbols_match_from_their_start() {
    let mut list = SearchList::new();
    list.update("t", vec!["xbs".to_string(), "buffers".to_string(), "b-s".to_string()], 100);
    assert_eq!(list.search("t", "bs"), vec!["b-s", "buffers"]);
    list.update("t", vec!["xbs".to_string()], 100);
    assert!(list.search("t", "bs").is_empty());
    list.update("t", vec!["abc".to_string(), "ab".to_string(), "ab".to_string()], 2);
    assert_eq!(list.search("t", "a"), vec!["ab", "ab"]);
}

#[test]
fn bars_do_not_end_words() {
    assert_eq!(extract_words("left|right a-b|c"), vec!["leftright", "a-bc"]);
}

#[test]
fn likeness_is_rounded() {
    for shared in 0..60usize {
        for total in 1..130usize {
            let first: String = "a".repeat(shared);
            let second: String = if 2 * shared <= total { "a".repeat(shared) + &"b".repeat(total - 2 * shared) } else { continue };
            let expected = if total == 0 { 100.0 } else { (2.0 * shared as f64 / total as f64) * 100.0 };
            assert_eq!(value(fuzzy_ratio(&first, &second)), expected);
        }
    }
    let r = fuzzy_ratio(&"a".repeat(29), &("a".repeat(29) + &"b".repeat(42)));
    assert!(value(r) < 58.0);
    assert!(!at_least(&r, &percent(58)));
    assert!(at_least(&r, &percent(57)));
    assert!(!at_least(&r, &Threshold { numerator: 0, denominator: 0 }));
}

#[test]
fn numbers_round_to_the_nearest() {
    assert_eq!(round(0, 1, 0), Double { mantissa: 0, exponent: 0 });
    assert_eq!(value(round(1, 3, 0)), 1.0 / 3.0);
    assert_eq!(value(round(583, 10, 0)), 58.3);
    assert_eq!(value(round((1 << 53) + 1, 1, 0)), ((1u64 << 53) + 1) as f64);
    assert_eq!(value(round((1 << 53) + 3, 1, 0)), ((1u64 << 53) + 3) as f64);
    assert_eq!(value(round((1 << 54) - 1, 1, 0)), ((1u64 << 54) - 1) as f64);
}
