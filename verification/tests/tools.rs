//! The front end, the translation to C and the commands.

use hone::bundle::{build, cache_file_ok, cache_name, detect, fnv1a64, launch, parse_script_pkg, show_version, Launch};
use hone::checker::HeaderRead;
use hone::cli::pack::{
    build_exe, build_library, build_package, check_update, collect_imports, load_program, open_script, packed_line,
    parse_build_args, parse_version, BuildOptions,
};
use hone::cli::poop::{analyze_poop, poop_report};
use hone::cli::resume::{read_state, script_hash, state_file_name};
use hone::cli::run::{after_failure, parse_run_args, restart_line};
use hone::cli::{bind, explain_code, run_cli, tally, test_result, Command};
use hone::codegen::emit::c_str_lit;
use hone::error::{codes, explain};
use hone::lexer::{Key, Lexer, Tok};
use hone::parser::Parser;
use hone::srvmod::{content_type, parse_head, read_head, request_body, write_resp, Reading, Server};
use hone::table::Table;

fn strings(a: &[&str]) -> Vec<String> {
    a.iter().map(|x| x.to_string()).collect()
}

fn rejected(src: &str) -> (&'static str, String) {
    let h: Table<HeaderRead> = Table::new();
    match load_program("t.hn", src, &h) {
        Ok(_) => panic!("accepted: {}", src),
        Err(e) => (e.code, e.msg),
    }
}

fn accepted(src: &str) {
    let h: Table<HeaderRead> = Table::new();
    if let Err(e) = load_program("t.hn", src, &h) {
        panic!("{}", e.render());
    }
}

#[test]
fn texts_become_tokens() {
    let ts = match Lexer::new("t.hn", "x = \"a\\n\"; // c\n/* d */ 1.5 |> f").tokenize() {
        Ok(ts) => ts,
        Err(e) => panic!("{}", e.render()),
    };
    assert_eq!(ts.len(), 8);
    assert!(matches!(&ts[0].0, Tok::Ident(n) if n == "x"));
    assert!(matches!(&ts[2].0, Tok::StrLit(t) if t == "a\n"));
    assert_eq!((ts[4].1.line, ts[4].1.col), (2, 9));
    assert!(matches!(&ts[7].0, Tok::Key(Key::Eof)));
}

#[test]
fn places_lie_in_the_text() {
    let src = "a = 1;\n\n  bb = \"x\";\n";
    let ts = Lexer::new("t.hn", src).tokenize().ok().unwrap();
    let lines: Vec<&str> = src.split('\n').collect();
    for (_, s) in &ts {
        assert!(1 <= s.line && s.line <= lines.len());
        assert!(1 <= s.col && s.col + s.len <= lines[s.line - 1].len() + 1);
    }
    let e = Lexer::new("t.hn", "a = 1;\n  $").tokenize().err().unwrap();
    assert_eq!((e.line, e.col), (2, 3));
}

#[test]
fn broken_texts_have_their_codes() {
    let code = |src: &str| Lexer::new("t.hn", src).tokenize().err().map(|e| e.code);
    assert_eq!(code("\"abc"), Some(codes::UNTERMINATED_STRING));
    assert_eq!(code("/* abc"), Some(codes::UNTERMINATED_COMMENT));
    assert_eq!(code("x = #;"), Some(codes::ILLEGAL_CHAR));
}

#[test]
fn syntax_errors_have_their_codes() {
    assert_eq!(Parser::parse("t.hn", "x = 1").err().map(|e| e.code), Some(codes::MISSING_SEMI));
    assert_eq!(Parser::parse("t.hn", "x = ;").err().map(|e| e.code), Some(codes::SYNTAX));
    assert!(Parser::parse("t.hn", "fn f(a, b) { return a + b; } print(f(1, 2));").is_ok());
}

#[test]
fn checks_before_a_run() {
    assert_eq!(rejected("x = 1; x = \"a\";").0, codes::TYPE_MISMATCH);
    assert_eq!(rejected("x : int = \"a\";").0, codes::TYPE_MISMATCH);
    assert_eq!(rejected("print(y);").0, codes::UNDEFINED);
    assert_eq!(rejected("if (1) { print(1); }").0, codes::COND_NOT_BOOL);
    assert_eq!(rejected("fn f(a) { return a; } f(1, 2);").0, codes::ARG_COUNT);
    assert_eq!(rejected("x = 1 + \"a\";").0, codes::TYPE_MISMATCH);
    accepted("x = 1; x = 2; y = 1.5; z = x + 1;");
    assert_eq!(rejected("fn f(a) { return a; } print(f(1)); print(f(\"a\"));").0, codes::TYPE_MISMATCH);
}

#[test]
fn errors_are_shown_with_their_line() {
    let h: Table<HeaderRead> = Table::new();
    let e = match load_program("t.hn", "a = 1;\nx = a + nope;\n", &h) {
        Err(e) => e,
        Ok(_) => panic!("accepted"),
    };
    let t = e.render();
    assert!(t.contains("error[H002]"));
    assert!(t.contains("t.hn:2:9"));
    assert!(t.contains("x = a + nope;"));
    assert!(t.contains("^^^^"));
}

#[test]
fn every_code_is_explained() {
    for c in [codes::TYPE_MISMATCH, codes::SYNTAX, codes::PTR_OOB, codes::THROW, codes::ASSERT, codes::LIB_LOAD, codes::LAZY_MISSING] {
        assert!(explain(c).is_some());
        assert!(explain_code(c).is_ok());
    }
    assert!(explain("H100").is_some() && explain("H110").is_some());
    assert_eq!(explain_code("H998").err().map(|e| e.code), Some(codes::NOT_FOUND));
}

fn library(src: &str) -> Result<(String, Vec<String>), (&'static str, String)> {
    let h: Table<HeaderRead> = Table::new();
    build_library("t.hn", src, &h, &vec![("1.5".to_string(), "1.5".to_string())], false).map_err(|e| (e.code, e.msg))
}

#[test]
fn exported_functions_become_c() {
    let (c, es) = library("fn two() { return 2; } fn add(a: int, b: int) { return a * two() + b; } fn no() { return 0; } @export add;").unwrap();
    assert_eq!(es, strings(&["add"]));
    assert!(c.contains("int64_t"));
    assert!(c.contains("add("));
    assert!(c.contains("two("));
    assert!(!c.contains("no("));
    assert_eq!(library("x = 1;").err().map(|e| e.0), Some(codes::NOT_IMPLEMENTED));
    assert!(library("@export gone;").is_err());
    assert!(library("tmp fn helper() { return 1; } @export helper;").is_err());
    let (c, _) = library("fn a() { return b(); } fn b() { return c(); } fn c() { return 3; } @export a; @export c;").unwrap();
    for f in ["a", "b", "c"] {
        assert_eq!(c.matches(&format!(" {}() {{", f)).count(), 1);
        assert_eq!(c.matches(&format!(" {}();\n", f)).count(), if f == "a" { 1 } else { 2 });
    }
}

#[test]
fn recursion_and_floats_in_c() {
    let (c, _) = library("fn f(n: int) -> int { if (n <= 1) { return n; } return f(n - 1) + f(n - 2); } fn half(x: float) { return x / 1.5; } @export f; @export half;").unwrap();
    assert!(c.contains("double"));
    assert!(c.contains("1.5"));
    assert_eq!(c_str_lit("a\"b\\\n"), "\"a\\\"b\\\\\\n\"");
}

#[test]
fn commands_are_read() {
    let cmd = |a: &[&str]| run_cli(&strings(a));
    assert!(matches!(cmd(&["--version"]), Ok(Command::Version)));
    assert!(matches!(cmd(&["help"]), Ok(Command::Help)));
    match cmd(&["run", "--restart", "a.hn", "--x=1", "b"]) {
        Ok(Command::Run(o, p, a)) => {
            assert!(o.restart.is_some());
            assert!(!o.resume);
            assert_eq!(p, "a.hn");
            assert_eq!(a, strings(&["--x=1", "b"]));
        }
        _ => panic!("no run"),
    }
    assert!(matches!(cmd(&["explain", "H001"]), Ok(Command::Explain(c)) if c == "H001"));
    assert_eq!(cmd(&["run"]).err().map(|e| e.code), Some(codes::SYNTAX));
    assert!(cmd(&["frobnicate"]).is_err());
}

#[test]
fn failed_runs_are_taken_up_again() {
    let (o, rest) = parse_run_args(&strings(&["--restart=2", "--resume", "a.hn", "--restart"]));
    assert_eq!(rest, strings(&["a.hn", "--restart"]));
    assert!(o.resume);
    let p = o.restart.unwrap();
    assert_eq!((p.max, p.backoff.clone()), (2, vec![1, 3, 10]));
    assert_eq!(after_failure(&p, 0, "H009"), Some(1));
    assert_eq!(after_failure(&p, 1, "H009"), Some(3));
    assert_eq!(after_failure(&p, 2, "H009"), None);
    assert_eq!(restart_line("a.hn", "H009", 0, 2, 1), "[restart] a.hn: error[H009] \u{2014} retry 1/2 after 1s");
}

#[test]
fn build_options_are_read() {
    let o = parse_build_args(&strings(&["a.hn", "-o", "x.exe", "--icon=i.ico"]), true).ok().unwrap();
    assert_eq!((o.path, o.out, o.icon), ("a.hn".to_string(), Some("x.exe".to_string()), Some("i.ico".to_string())));
    assert!(parse_build_args(&strings(&["a.hn", "--icon", "i"]), false).is_err());
    assert!(parse_build_args(&strings(&["a.hn", "b.hn"]), true).is_err());
    assert!(parse_build_args(&strings(&[]), true).is_err());
    assert_eq!(parse_version("1.20.3"), (1, 20, 3));
    assert_eq!(parse_version("7"), (7, 0, 0));
}

#[test]
fn bundles_give_back_what_was_bundled() {
    let b = build(b"RUNTIME", "print(1);", "app.hn", (0, 1, 2), 1698765432);
    let info = match detect(&b) {
        Ok(Some(i)) => i,
        _ => panic!("no bundle"),
    };
    assert_eq!(info.hone, b"RUNTIME".to_vec());
    assert_eq!(info.script, b"print(1);".to_vec());
    assert_eq!((info.version, info.timestamp), ((0, 1, 2), 1698765432));
    assert_eq!(show_version(&info, "app"), "app (Hone v0.1.2) built at 2023-10-31 15:17:12\nscript: app.hn");
    assert!(matches!(detect(b"plain"), Ok(None)));
    for at in [0, 7 + 6 + 2] {
        let mut broken = b.clone();
        broken[at] ^= 1;
        assert_eq!(detect(&broken).err().map(|e| e.code), Some(codes::NOT_FOUND));
    }
    assert_eq!(cache_name("a.b/c"), "hone-bundle-a_b_c");
    assert!(cache_file_ok(b"abc", b"abc"));
    assert!(!cache_file_ok(b"abc", b"abd"));
    assert_eq!(fnv1a64(b""), 0xcbf2_9ce4_8422_2325);
    assert_eq!(fnv1a64(b"a"), 0xaf63_dc4c_8601_ec8c);
}

#[test]
fn packages_give_back_their_script() {
    let o = BuildOptions { path: "dir/app.hn".to_string(), out: None, icon: None };
    let p = build_package(&o, "print(\"gr\u{fc}n\");", false);
    assert!(p.out.ends_with("app.hzp"));
    assert_eq!(parse_script_pkg(&p.bytes), Some((p.name.clone(), "print(\"gr\u{fc}n\");".to_string())));
    assert_eq!(open_script("x.hzp", &p.bytes).1, "print(\"gr\u{fc}n\");");
    assert_eq!(open_script("x.hn", b"a\xffb"), ("x.hn".to_string(), "a\u{fffd}b".to_string()));
    let e = build_exe(&o, b"RT", "x", "0.1.0", 5, false);
    assert!(matches!(detect(&e.bytes), Ok(Some(_))));
    assert!(packed_line("a.hzp", "1.0").contains("hone run a.hzp"));
    let mut cut = p.bytes.clone();
    cut.pop();
    assert!(parse_script_pkg(&cut).is_none());
}

#[test]
fn bundled_programs_read_their_arguments() {
    assert!(matches!(launch(&strings(&["a", "-V"])), Launch::Version));
    match launch(&strings(&["a", "--keep-cache", "b"])) {
        Launch::Run { keep_cache, script_args } => {
            assert!(keep_cache);
            assert_eq!(script_args, strings(&["a", "b"]));
        }
        _ => panic!("no run"),
    }
}

#[test]
fn a_changed_script_starts_anew() {
    let h = script_hash("print(1);");
    let state = format!("{{\"script\":\"{}\",\"kv\":{{\"a\":\"1\"}}}}", h);
    assert_eq!(read_state(&state, &h), vec![("a".to_string(), "1".to_string())]);
    assert_eq!(read_state(&state, &script_hash("print(2);")), vec![]);
    assert_eq!(read_state("no json", &h), vec![]);
    assert_ne!(state_file_name("a.hn"), state_file_name("b.hn"));
}

#[test]
fn deep_nesting_is_reported() {
    let (d, c) = analyze_poop("if (a) { if (b) { if (c) { } } }");
    assert_eq!(d, 3);
    assert!(c >= 4);
    assert_eq!(analyze_poop("if (a) { while (b) { } if (c) { } }"), (2, 4));
    assert_eq!(analyze_poop("if (a) { } else if (b) { } if (c) { }"), (1, 4));
    assert_eq!(analyze_poop("while (a) { if (b) x; if (c) { } }"), (1, 4));
    assert!(poop_report(1, 1).contains("\u{2705}"));
    assert!(poop_report(5, 1).contains("return early"));
}

#[test]
fn small_reports() {
    assert_eq!(tally(2, 1), "2 passed, 1 failed (3 total)");
    assert!(test_result(2, 0).is_ok());
    assert_eq!(test_result(2, 1).err().map(|e| e.msg), Some("1 of 3 test file(s) failed".to_string()));
    assert!(bind("x.h", &vec![]).contains("load \"\u{4f60}\u{7684}\u{52a8}\u{6001}\u{5e93}\" as lib {\n}"));
    assert!(check_update(b"MZ....", true).is_err());
    assert!(check_update(b"hello", false).is_err());
}

#[test]
fn imports_are_collected() {
    let p = Parser::parse("t.hn", "import \"x\" from \"https://h/x.hn\"; if (true) { import \"y\" from \"https://h/y.hn\"; }").ok().unwrap();
    let mut out = Vec::new();
    collect_imports(&p.stmts, &mut out);
    let pair = |a: &str, b: &str| (a.to_string(), b.to_string());
    assert_eq!(out, vec![pair("x", "https://h/x.hn"), pair("y", "https://h/y.hn")]);
}

#[test]
fn the_queue_is_bounded_and_in_order() {
    let mut s = Server::new();
    for i in 0..2000u32 {
        s.arrive("GET".to_string(), format!("/{}", i), "".to_string());
    }
    let n = s.queue.len();
    assert!(n < 2000);
    assert_eq!(s.queue[n - 1].path, "/1999");
    assert_eq!(s.queue[0].path, format!("/{}", 2000 - n));
    let t = s.poll();
    assert!(t.starts_with("[{\"id\":"));
    assert_eq!(s.poll(), "[]");
}

#[test]
fn heads_of_requests_are_read() {
    let b = b"POST /a?b HTTP/1.1\r\nContent-Length: 5\r\n\r\nhello";
    let n = match read_head(b) {
        Reading::Head(n) => n,
        _ => panic!("no head"),
    };
    assert_eq!(n, b.len() - 5);
    assert_eq!(parse_head(&b[..n]), Some(("POST".to_string(), "/a?b".to_string(), 5)));
    assert_eq!(request_body(&b[n..], 5), "hello");
    assert!(matches!(read_head(b"GET / HTTP/1.1\r\n"), Reading::More));
    assert_eq!(content_type("/a/b.CSS?x=1.js"), "text/css; charset=utf-8");
    assert_eq!(content_type("/"), "text/html; charset=utf-8");
    assert!(write_resp(404, "text/plain", "gr\u{fc}n").starts_with("HTTP/1.1 404 Not Found\r\nContent-Type: text/plain\r\nContent-Length: 5\r\n"));
}

#[test]
fn imports_are_collected_everywhere() {
    let src = "import \"a\" from \"https://h/a.hn\"; fn f() { import \"b\" from \"https://h/b.hn\"; } for x in [1] { import \"c\" from \"https://h/c.hn\"; } try { import \"d\" from \"https://h/d.hn\"; } catch e { import \"e\" from \"https://h/e.hn\"; }";
    let p = Parser::parse("t.hn", src).ok().unwrap();
    let mut out = Vec::new();
    collect_imports(&p.stmts, &mut out);
    let names: Vec<String> = out.into_iter().map(|x| x.0).collect();
    assert_eq!(names, strings(&["a", "b", "c", "d", "e"]));
}

#[test]
fn locals_are_declared_in_c() {
    let (c, _) = library("fn f(a: int) -> int { x = a + 1; return x; }\n@export f;\n").unwrap();
    assert!(c.contains("    int64_t x = (a + 1);\n"), "{}", c);
    let (c, _) = library("fn f(a: int) -> int { x = a; x = x + 1; return x; } @export f;").unwrap();
    assert_eq!(c.matches("int64_t x = ").count(), 1);
    assert!(c.contains("    x = (x + 1);\n"));
    let (c, _) = library("fn f(a: int) -> int { if (a > 0) { y = 1; a = y; } else { y = 2; a = y; } return a; } @export f;").unwrap();
    assert_eq!(c.matches("int64_t y = ").count(), 2);
    let (c, _) = library("fn f(a: int) -> int { x = 0; while (x < a) { x = x + 1; } return x; } @export f;").unwrap();
    assert_eq!(c.matches("int64_t x = ").count(), 1);
    let (c, _) = library("fn f() -> int { fn g() -> int { return 1; } { x = g(); } return 2; } @export f;").unwrap();
    assert!(c.contains("g()"));
}

#[test]
fn c_has_no_mixed_numbers() {
    for e in ["a - 2.5", "a * 2.5", "a / 2.5", "a % 2.5", "a + 2.5"] {
        let src = format!("fn f(a: int) -> int {{ return {}; }} @export f;", e);
        assert_eq!(library(&src).err().map(|x| x.0), Some(codes::TYPE_MISMATCH));
    }
    assert_eq!(library("fn f(a: int) -> int { if (a < 2.5) { return 1; } return 2; } @export f;").err().map(|x| x.0), Some(codes::TYPE_MISMATCH));
}

#[test]
fn control_characters_in_c_have_three_digits() {
    assert_eq!(c_str_lit("\u{1}a"), "\"\\001a\"");
    assert_eq!(c_str_lit("\u{1b}7"), "\"\\0337\"");
    assert_eq!(c_str_lit("??="), "\"\\?\\?=\"");
    assert_eq!(c_str_lit("gr\u{fc}n\t"), "\"gr\u{fc}n\\t\"");
}

#[test]
fn tokens_name_headers_and_literals() {
    let ts = Lexer::new("t.hn", "load \"m.so\" as m from \"m.h\"; x = 1.5; y = 2; z = 0.25;").tokenize().ok().unwrap();
    assert_eq!(hone::scan::headers_in(&ts), strings(&["m.h"]));
    assert_eq!(hone::scan::floats_in(&ts), strings(&["1.5", "0.25"]));
}

#[test]
fn cut_and_altered_packages_are_refused() {
    let b = hone::bundle::build_script_pkg("print(1);", "b.hn");
    assert!(parse_script_pkg(&b).is_some());
    for k in 0..b.len() {
        assert!(parse_script_pkg(&b[..k]).is_none());
    }
    let mut bad = b.clone();
    let at = 16 + "b.hn".len();
    bad[at] = b'q';
    assert!(parse_script_pkg(&bad).is_none());
    for k in (0..8).chain(at..b.len()) {
        let mut bad = b.clone();
        bad[k] ^= 1;
        assert!(parse_script_pkg(&bad).is_none(), "{}", k);
    }
}
