use negentropy::config::{load, Boundary, Config, File};
use negentropy::files::{skip, wanted};
use negentropy::grammar::{parse, Cst, Kind, Source};
use negentropy::kernel::{check, pathdepth, placeable, structure, upper, Class, Finding, Node};
use negentropy::lex::{lex, tagged, Slot};
use negentropy::parse::run;
use negentropy::peg::{Pat, Quant, Rule};
use negentropy::report::report;
use negentropy::shape::{draw, escape, name};
use negentropy::text::{ends, listed, same};

fn source(path: &str, text: &str) -> Source {
    Source {
        path: path.to_string(),
        text: text.to_string(),
    }
}

fn plain() -> Config {
    Config {
        file: File::default(),
        vocab: Vec::new(),
    }
}

fn found(config: &Config, path: &str, text: &str) -> Vec<Finding> {
    let src = source(path, text);
    let node = structure(&src);
    assert!(placeable(&src, &node, config));
    check(&src, &node, config)
}

fn laws(config: &Config, text: &str) -> Vec<String> {
    found(config, "t.rs", text)
        .iter()
        .map(|f| f.law.clone())
        .collect()
}

fn edge(paths: &[&str], allow: &[&str]) -> Boundary {
    Boundary {
        paths: paths.iter().map(|p| p.to_string()).collect(),
        allow: allow.iter().map(|a| a.to_string()).collect(),
    }
}

fn bounded(edges: Vec<Boundary>) -> Config {
    let mut file = File::default();
    file.boundary = edges;
    Config {
        file,
        vocab: Vec::new(),
    }
}

fn finding(law: &str, path: &str, line: usize, col: usize, note: &str, class: Class) -> Finding {
    Finding {
        law: law.to_string(),
        path: path.to_string(),
        line,
        col,
        note: note.to_string(),
        class,
    }
}

fn text_lines(lines: &[Vec<u8>]) -> Vec<String> {
    lines
        .iter()
        .map(|l| String::from_utf8(l.clone()).unwrap())
        .collect()
}

fn max_depth(node: &Node) -> usize {
    let mut best = node.depth;
    for kid in &node.kids {
        let d = max_depth(kid);
        if d > best {
            best = d;
        }
    }
    best
}

fn count(node: &Node, kind: Kind) -> usize {
    let mut n = if node.kind == kind { 1 } else { 0 };
    for kid in &node.kids {
        n += count(kid, kind);
    }
    n
}

fn toy() -> Vec<Rule> {
    vec![
        Rule {
            name: "WS".to_string(),
            tag: Some("skip".to_string()),
            pat: Pat::Rep(Box::new(Pat::Class(vec![(b' ', b' ')], false)), Quant::Plus),
        },
        Rule {
            name: "KW".to_string(),
            tag: None,
            pat: Pat::Lit(b"if".to_vec()),
        },
        Rule {
            name: "ID".to_string(),
            tag: None,
            pat: Pat::Rep(Box::new(Pat::Class(vec![(b'a', b'z')], false)), Quant::Plus),
        },
        Rule {
            name: "NOTE".to_string(),
            tag: Some("comment".to_string()),
            pat: Pat::Cat(vec![
                Pat::Lit(b"#".to_vec()),
                Pat::Rep(Box::new(Pat::Class(vec![(b'\n', b'\n')], true)), Quant::Star),
            ]),
        },
    ]
}

#[test]
fn longest_match_wins() {
    let tokens = lex(&toy(), b"if iff");
    assert_eq!(tokens.len(), 2);
    assert_eq!(tokens[0].name, "KW");
    assert_eq!((tokens[0].start, tokens[0].end), (0, 2));
    assert_eq!(tokens[1].name, "ID");
    assert_eq!((tokens[1].start, tokens[1].end), (3, 6));
}

#[test]
fn unmatched_bytes_are_passed() {
    let tokens = lex(&toy(), b"a?b");
    assert_eq!(tokens.len(), 2);
    assert_eq!((tokens[0].start, tokens[0].end), (0, 1));
    assert_eq!((tokens[1].start, tokens[1].end), (2, 3));
}

#[test]
fn comment_tokens_are_set_aside() {
    let tokens = lex(&toy(), b"a #x y\nb");
    assert_eq!(tokens.len(), 3);
    assert!(matches!(tokens[0].kind, Slot::Emit));
    assert!(matches!(tokens[1].kind, Slot::Comment));
    assert_eq!((tokens[1].start, tokens[1].end), (2, 6));
    assert!(matches!(tokens[2].kind, Slot::Emit));
}

#[test]
fn tokens_are_ordered() {
    let tokens = lex(&toy(), b"ab  if  cd # e\nf");
    for pair in tokens.windows(2) {
        assert!(pair[0].end <= pair[1].start);
    }
    for token in &tokens {
        assert!(token.start < token.end);
    }
}

#[test]
fn tags() {
    let rules = toy();
    assert!(tagged(&rules[0], "skip"));
    assert!(!tagged(&rules[0], "comment"));
    assert!(!tagged(&rules[1], "skip"));
}

#[test]
fn patterns() {
    let digit = Pat::Class(vec![(b'0', b'9')], false);
    assert_eq!(negentropy::peg::matches(&digit, b"7a", 0), Some(1));
    assert_eq!(negentropy::peg::matches(&digit, b"7a", 1), None);
    let other = Pat::Class(vec![(b'0', b'9')], true);
    assert_eq!(negentropy::peg::matches(&other, b"7a", 1), Some(2));
    let word = Pat::Alt(vec![Pat::Lit(b"for".to_vec()), Pat::Lit(b"fo".to_vec())]);
    assert_eq!(negentropy::peg::matches(&word, b"fox", 0), Some(2));
    let guard = Pat::Cat(vec![Pat::Lit(b"a".to_vec()), Pat::Not(Box::new(Pat::Lit(b"b".to_vec())))]);
    assert_eq!(negentropy::peg::matches(&guard, b"ab", 0), None);
    assert_eq!(negentropy::peg::matches(&guard, b"ac", 0), Some(1));
    let opt = Pat::Rep(Box::new(Pat::Lit(b"x".to_vec())), Quant::Opt);
    assert_eq!(negentropy::peg::matches(&opt, b"xx", 0), Some(1));
    assert_eq!(negentropy::peg::matches(&opt, b"y", 0), Some(0));
    assert_eq!(negentropy::peg::matches(&Pat::Any, b"y", 0), Some(1));
    assert_eq!(negentropy::peg::matches(&Pat::Any, b"y", 1), None);
}

fn spans(cst: &Cst) -> Vec<(usize, usize, usize)> {
    cst.kids
        .iter()
        .map(|k| (k.span.start, k.span.end, k.kids.len()))
        .collect()
}

#[test]
fn markdown_heads_nest() {
    let cst = parse(&source("a.md", "# A\ntext\n## B\n# C\n"));
    assert!(cst.kind == Kind::Root);
    assert_eq!((cst.span.start, cst.span.end), (0, 18));
    assert_eq!(spans(&cst), vec![(0, 14, 1), (14, 18, 0)]);
    assert!(cst.kids[0].kind == Kind::Scope);
    assert_eq!(spans(&cst.kids[0]), vec![(9, 14, 0)]);
}

#[test]
fn markdown_needs_a_space() {
    let cst = parse(&source("a.md", "#tag\n"));
    assert!(cst.kids.is_empty());
}

#[test]
fn markdown_depth() {
    let node = structure(&source("a.md", "# A\n## B\n### C\n#### D\n"));
    assert_eq!(max_depth(&node), 4);
    assert!(found(&plain(), "a.md", "# A\n## B\n### C\n#### D\n")
        .iter()
        .any(|f| f.law == "block" && f.line == 4 && f.col == 1));
}

#[test]
fn other_files_are_bare() {
    let cst = parse(&source("notes.txt", "fn f() { }"));
    assert!(cst.kind == Kind::Root);
    assert_eq!((cst.span.start, cst.span.end), (0, 10));
    assert!(cst.kids.is_empty());
}

#[test]
fn scopes_add_depth() {
    let node = structure(&source("t.rs", "fn f() { if a { b(); } }"));
    assert_eq!(node.depth, 0);
    assert_eq!(max_depth(&node), 2);
    assert_eq!(count(&node, Kind::Scope), 2);
}

#[test]
fn literals_add_no_depth() {
    let node = structure(&source("t.rs", "fn f() { let v = S { x: 1 }; }"));
    assert_eq!(max_depth(&node), 1);
    assert_eq!(count(&node, Kind::Literal), 1);
}

#[test]
fn three_is_allowed() {
    assert!(!laws(&plain(), "fn f() { if a { for b in c { d(); } } }").contains(&"block".to_string()));
}

#[test]
fn comment_place() {
    let hits = found(&plain(), "t.rs", "fn f() {}\n// note");
    let hit = hits.iter().find(|f| f.law == "comment").unwrap();
    assert_eq!((hit.line, hit.col), (2, 1));
    assert_eq!(hit.note, "denied by default");
    assert!(hit.class == Class::Fault);
    assert_eq!(hit.path, "t.rs");
}

#[test]
fn comments_allowed() {
    let mut config = plain();
    config.file.comment.allow = true;
    assert!(!laws(&config, "fn f() {}\n// note").contains(&"comment".to_string()));
}

#[test]
fn boundary_waives_block() {
    let config = bounded(vec![edge(&["t.rs"], &["block"])]);
    let text = "fn f() { if a { for b in c { while d { e(); } } } }";
    assert!(!laws(&config, text).contains(&"block".to_string()));
    assert!(laws(&plain(), text).contains(&"block".to_string()));
}

#[test]
fn boundary_waives_comment_and_word() {
    let config = bounded(vec![edge(&["*"], &["comment", "word"])]);
    let got = laws(&config, "fn read_file() {}\n// note");
    assert!(!got.contains(&"comment".to_string()));
    assert!(!got.contains(&"word".to_string()));
}

#[test]
fn word_debt_names_the_word() {
    let hits = found(&plain(), "t.rs", "fn read_file() {}");
    let hit = hits.iter().find(|f| f.law == "word").unwrap();
    assert_eq!(hit.note, "read_file");
    assert!(hit.class == Class::Debt);
    assert_eq!((hit.line, hit.col), (1, 4));
}

#[test]
fn registered_word_is_clean() {
    let config = load(File::default(), vec![("read_file".to_string(), "reads one file".to_string())]);
    assert!(!laws(&config, "fn read_file() {}").contains(&"word".to_string()));
}

#[test]
fn single_word_off() {
    let mut config = plain();
    config.file.word.single = false;
    assert!(!laws(&config, "fn read_file() {}").contains(&"word".to_string()));
}

#[test]
fn camel_case_is_compound() {
    assert!(laws(&plain(), "fn readFile() {}").contains(&"word".to_string()));
    assert!(!laws(&plain(), "fn HTTP() {}").contains(&"word".to_string()));
    assert!(!laws(&plain(), "fn Read() {}").contains(&"word".to_string()));
    assert!(!laws(&plain(), "fn _read_() {}").contains(&"word".to_string()));
}

#[test]
fn unicode_upper_case_splits() {
    assert!(laws(&plain(), "fn lireÉcrire() {}").contains(&"word".to_string()));
}

#[test]
fn blind_spot() {
    let hits = found(&plain(), "t.rs", "fn f() {}\n@ @\n");
    let hit = hits.iter().find(|f| f.law == "coverage").unwrap();
    assert!(hit.class == Class::Blind);
    assert_eq!(hit.note, "unparsed region");
    assert_eq!(hit.line, 2);
}

#[test]
fn path_depth() {
    assert!(pathdepth("a/b/c/d.rs", &plain()).is_none());
    let hit = pathdepth("a/b/c/d/e.rs", &plain()).unwrap();
    assert_eq!(hit.law, "path");
    assert_eq!(hit.path, "a/b/c/d/e.rs");
    assert_eq!((hit.line, hit.col), (0, 0));
    assert_eq!(hit.note, "depth over three");
    assert!(hit.class == Class::Fault);
    let config = bounded(vec![edge(&["a/*"], &["path"])]);
    assert!(pathdepth("a/b/c/d/e.rs", &config).is_none());
    let mut tight = plain();
    tight.file.limit.path = 0;
    assert!(pathdepth("a.rs", &tight).is_none());
    assert!(pathdepth("a/b.rs", &tight).is_some());
}

#[test]
fn exemptions() {
    let config = bounded(vec![edge(&["vendor/*"], &["comment"]), edge(&["tests/"], &["word"])]);
    assert!(config.exempt("vendor/x.rs", "comment"));
    assert!(!config.exempt("src/x.rs", "comment"));
    assert!(!config.exempt("vendor/x.rs", "block"));
    assert!(config.exempt("tests/a.rs", "word"));
    assert!(!config.exempt("test/a.rs", "word"));
    let all = bounded(vec![edge(&["*"], &["block"])]);
    assert!(all.exempt("any/where.rs", "block"));
    assert!(!plain().exempt("x.rs", "block"));
}

#[test]
fn defaults() {
    let file = File::default();
    assert_eq!(file.limit.block, 3);
    assert_eq!(file.limit.path, 3);
    assert!(!file.comment.allow);
    assert!(file.word.single);
    assert!(file.boundary.is_empty());
}

#[test]
fn vocabulary_needs_a_reason() {
    let config = load(
        File::default(),
        vec![
            ("read_file".to_string(), "reads one file".to_string()),
            ("bad_name".to_string(), "  \t".to_string()),
            ("wide_gap".to_string(), "\u{2003}".to_string()),
            ("write_all".to_string(), "flushes".to_string()),
        ],
    );
    assert_eq!(config.vocab, vec!["read_file".to_string(), "write_all".to_string()]);
    assert_eq!(config.file.limit.block, 3);
}

#[test]
fn report_orders_and_counts() {
    let findings = vec![
        finding("block", "b.rs", 3, 5, "depth over limit", Class::Fault),
        finding("coverage", "a.rs", 1, 1, "unparsed region", Class::Blind),
        finding("word", "a.rs", 2, 1, "bad_name", Class::Debt),
        finding("path", "x/y/z/w/v.rs", 0, 0, "depth over three", Class::Fault),
        finding("comment", "b.rs", 1, 9, "denied by default", Class::Fault),
    ];
    let (lines, fails) = report(&findings, false, true);
    assert_eq!(
        text_lines(&lines),
        vec![
            "b.rs:1:9 comment denied by default",
            "b.rs:3:5 block depth over limit",
            "x/y/z/w/v.rs path depth over three",
            "a.rs:1:1 blindspot unparsed region",
            "a.rs:2:1 debt bad_name",
            "3 faults, 1 blindspots, 1 debt",
        ]
    );
    assert!(fails);
    let (quiet, _) = report(&findings, false, false);
    assert_eq!(quiet.len(), 5);
    assert_eq!(String::from_utf8(quiet[4].clone()).unwrap(), "3 faults, 1 blindspots, 1 debt");
}

#[test]
fn report_clean() {
    let (lines, fails) = report(&[], true, true);
    assert_eq!(text_lines(&lines), vec!["clean"]);
    assert!(!fails);
}

#[test]
fn report_strict_blind() {
    let findings = vec![finding("coverage", "a.rs", 4, 2, "unparsed region", Class::Blind)];
    let (lines, fails) = report(&findings, false, false);
    assert!(!fails);
    assert_eq!(text_lines(&lines), vec!["a.rs:4:2 blindspot unparsed region", "0 faults, 1 blindspots, 0 debt"]);
    let (_, strict) = report(&findings, true, false);
    assert!(strict);
}

#[test]
fn report_debt_never_fails() {
    let findings = vec![finding("word", "a.rs", 1, 1, "bad_name", Class::Debt)];
    let (lines, fails) = report(&findings, true, false);
    assert!(!fails);
    assert_eq!(text_lines(&lines), vec!["0 faults, 0 blindspots, 1 debt"]);
}

#[test]
fn report_keeps_order_of_ties() {
    let findings = vec![
        finding("second", "a.rs", 1, 1, "x", Class::Fault),
        finding("first", "a.rs", 1, 1, "y", Class::Fault),
        finding("early", "a.rs", 0, 0, "z", Class::Fault),
        finding("path", "A.rs", 9, 9, "w", Class::Fault),
    ];
    let (lines, _) = report(&findings, false, false);
    assert_eq!(
        text_lines(&lines),
        vec!["A.rs:9:9 path w", "a.rs early z", "a.rs:1:1 second x", "a.rs:1:1 first y", "4 faults, 0 blindspots, 0 debt"]
    );
}

#[test]
fn json_line() {
    let out = draw(&source("a.md", "# A\n"));
    assert_eq!(
        String::from_utf8(out).unwrap(),
        "{\"path\":\"a.md\",\"tree\":{\"kind\":\"root\",\"depth\":0,\"start\":0,\"end\":4,\"kids\":[{\"kind\":\"scope\",\"depth\":1,\"start\":0,\"end\":4,\"kids\":[]}]}}"
    );
}

#[test]
fn json_bare() {
    let out = draw(&source("q\"x.txt", "abc"));
    assert_eq!(
        String::from_utf8(out).unwrap(),
        "{\"path\":\"q\\\"x.txt\",\"tree\":{\"kind\":\"root\",\"depth\":0,\"start\":0,\"end\":3,\"kids\":[]}}"
    );
}

#[test]
fn escapes() {
    assert_eq!(escape("a\"b\\c"), b"a\\\"b\\\\c".to_vec());
    assert_eq!(escape("plain"), b"plain".to_vec());
}

#[test]
fn kind_names() {
    assert_eq!(name(Kind::Root), "root");
    assert_eq!(name(Kind::Scope), "scope");
    assert_eq!(name(Kind::Item), "item");
    assert_eq!(name(Kind::Literal), "literal");
    assert_eq!(name(Kind::Pattern), "pattern");
    assert_eq!(name(Kind::Comment), "comment");
    assert_eq!(name(Kind::Loose), "loose");
    assert_eq!(name(Kind::Word), "word");
}

#[test]
fn walking() {
    assert!(skip("target"));
    assert!(skip(".git"));
    assert!(skip("node_modules"));
    assert!(!skip("src"));
    assert!(!skip("targets"));
    assert!(wanted("src/lib.rs"));
    assert!(wanted("web/app.ts"));
    assert!(wanted("README.md"));
    assert!(!wanted("Cargo.toml"));
    assert!(!wanted("rs"));
}

#[test]
fn strings() {
    assert!(same("abc", "abc"));
    assert!(!same("abc", "abd"));
    assert!(!same("ab", "abc"));
    assert!(ends("lib.rs", ".rs"));
    assert!(!ends("rs", ".rs"));
    assert!(ends("é.md", ".md"));
    let list = vec!["a".to_string(), "bc".to_string()];
    assert!(listed(&list, "bc"));
    assert!(!listed(&list, "b"));
}

fn rule(name: &str, tag: Option<&str>, pat: Pat) -> Rule {
    Rule {
        name: name.to_string(),
        tag: tag.map(|t| t.to_string()),
        pat,
    }
}

#[test]
fn parser_nests_and_recovers() {
    let lexers = vec![
        rule("WS", Some("skip"), Pat::Rep(Box::new(Pat::Class(vec![(b' ', b' ')], false)), Quant::Plus)),
        rule("ID", None, Pat::Rep(Box::new(Pat::Class(vec![(b'a', b'z')], false)), Quant::Plus)),
        rule("PUNCT", None, Pat::Class(vec![(b'{', b'{'), (b'}', b'}')], false)),
    ];
    let parsers = vec![
        rule("unit", None, Pat::Alt(vec![Pat::Name("block".to_string()), Pat::Name("name".to_string())])),
        rule("name", Some("word"), Pat::Name("ID".to_string())),
        rule(
            "block",
            Some("scope"),
            Pat::Cat(vec![
                Pat::Lit(b"{".to_vec()),
                Pat::Rep(Box::new(Pat::Name("unit".to_string())), Quant::Star),
                Pat::Lit(b"}".to_vec()),
            ]),
        ),
    ];
    let src = b"{ a } }";
    let tokens = lex(&lexers, src);
    assert_eq!(tokens.len(), 4);
    let root = run(&parsers, &tokens, src, src.len());
    assert!(root.kind == Kind::Root);
    assert_eq!((root.span.start, root.span.end), (0, 7));
    assert_eq!(root.kids.len(), 2);
    assert!(root.kids[0].kind == Kind::Scope);
    assert_eq!((root.kids[0].span.start, root.kids[0].span.end), (0, 5));
    assert_eq!(root.kids[0].kids.len(), 1);
    assert!(root.kids[0].kids[0].kind == Kind::Word);
    assert_eq!((root.kids[0].kids[0].span.start, root.kids[0].kids[0].span.end), (2, 3));
    assert!(root.kids[1].kind == Kind::Loose);
    assert_eq!((root.kids[1].span.start, root.kids[1].span.end), (6, 7));
}

#[test]
fn parser_without_unit() {
    let tokens = lex(&toy(), b"a b");
    let root = run(&[], &tokens, b"a b", 3);
    assert!(root.kids.is_empty());
    assert_eq!((root.span.start, root.span.end), (0, 3));
}

#[test]
fn empty_match_span_stays_put() {
    let lexers = vec![
        rule("WS", Some("skip"), Pat::Rep(Box::new(Pat::Class(vec![(b' ', b' ')], false)), Quant::Plus)),
        rule("ID", None, Pat::Rep(Box::new(Pat::Class(vec![(b'a', b'z')], false)), Quant::Plus)),
    ];
    let parsers = vec![
        rule("unit", None, Pat::Cat(vec![Pat::Name("gap".to_string()), Pat::Name("ID".to_string())])),
        rule("gap", Some("literal"), Pat::Rep(Box::new(Pat::Lit(b"z".to_vec())), Quant::Opt)),
    ];
    let src = b"a b";
    let tokens = lex(&lexers, src);
    let root = run(&parsers, &tokens, src, src.len());
    assert_eq!(root.kids.len(), 2);
    assert!(root.kids[0].kind == Kind::Literal);
    assert_eq!((root.kids[0].span.start, root.kids[0].span.end), (0, 0));
    assert!(root.kids[1].kind == Kind::Literal);
    assert_eq!((root.kids[1].span.start, root.kids[1].span.end), (2, 2));
}

#[test]
fn white_space_table() {
    let config = load(
        File::default(),
        vec![
            ("next_line".to_string(), "\u{85}".to_string()),
            ("ideographic".to_string(), "\u{3000}\u{2028}".to_string()),
            ("zero_width".to_string(), "\u{200b}".to_string()),
            ("plain".to_string(), " x ".to_string()),
        ],
    );
    assert_eq!(config.vocab, vec!["zero_width".to_string(), "plain".to_string()]);
}

#[test]
fn placeable_trees() {
    let src = source("t.rs", "fn read_file() {}\n// note");
    let node = structure(&src);
    assert!(placeable(&src, &node, &plain()));
}

#[test]
fn one_finding_per_node() {
    let hits = found(&plain(), "t.rs", "fn a_b() { let c_d = 1; }\n// x\n// y");
    assert_eq!(hits.iter().filter(|f| f.law == "word").count(), 2);
    assert_eq!(hits.iter().filter(|f| f.law == "comment").count(), 2);
    assert!(hits
        .iter()
        .all(|f| f.law == "block" || f.law == "comment" || f.law == "coverage" || f.law == "word"));
}

#[test]
fn sections_end_at_headings() {
    let cst = parse(&source("a.md", "intro\n## A\nx\n# B\n"));
    assert_eq!(spans(&cst), vec![(6, 13, 0), (13, 17, 0)]);
}

#[test]
fn deep_nesting_is_read() {
    let n = 200;
    let mut text = String::from("fn f() { ");
    for _ in 0..n {
        text.push_str("if a { ");
    }
    for _ in 0..=n {
        text.push_str("} ");
    }
    let hits = found(&plain(), "t.rs", &text);
    assert_eq!(hits.iter().filter(|f| f.law == "block").count(), n - 2);
    assert_eq!(hits.iter().filter(|f| f.law == "coverage").count(), 0);
}

#[test]
fn upper_case() {
    assert!(upper('A'));
    assert!(upper('Z'));
    assert!(!upper('a'));
    assert!(!upper('7'));
    assert!(!upper('_'));
    assert!(upper('É'));
    assert!(!upper('é'));
}

#[test]
fn one_section_per_heading() {
    let cst = parse(&source("a.md", "# A\n## B\n# C\n## D\n### E\ntext\n## F\n"));
    assert_eq!(spans(&cst), vec![(0, 9, 1), (9, 34, 2)]);
    assert_eq!(spans(&cst.kids[0]), vec![(4, 9, 0)]);
    assert_eq!(spans(&cst.kids[1]), vec![(13, 29, 1), (29, 34, 0)]);
    assert_eq!(spans(&cst.kids[1].kids[0]), vec![(18, 29, 0)]);
}

#[test]
fn relative_paths() {
    assert_eq!(negentropy::files::relative("base", "base/src/a.rs"), "src/a.rs");
    assert_eq!(negentropy::files::relative(".", "./x/y.rs"), "x/y.rs");
    assert_eq!(negentropy::files::relative("a", "b/c.rs"), "b/c.rs");
    assert_eq!(negentropy::files::relative("root", "root/./src/a.rs"), "src/a.rs");
}
