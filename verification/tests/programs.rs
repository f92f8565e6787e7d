//! Whole programs: read, checked and run.

use hone::builtins::world::{FloatOp, IoKind, Num, Reply, Request};
use hone::builtins::World;
use hone::checker::HeaderRead;
use hone::cli::pack::load_program;
use hone::error::ZError;
use hone::interp::ffi::CArg;
use hone::interp::machine::{Answer, Now, Want};
use hone::interp::{run, start};
use hone::table::Table;

fn float_op(op: FloatOp, a: f64, b: f64) -> f64 {
    match op {
        FloatOp::Plus => a + b,
        FloatOp::Minus => a - b,
        FloatOp::Times => a * b,
        FloatOp::Over => a / b,
        FloatOp::Rest => a % b,
        FloatOp::Max => a.max(b),
        FloatOp::Min => a.min(b),
    }
}

fn reply(q: Request, out: &mut Vec<String>, files: &mut Vec<(String, String)>) -> Reply {
    match q {
        Request::Print(s) => {
            out.push(s);
            Reply::Done
        }
        Request::Log(s) => {
            out.push(s);
            Reply::Done
        }
        Request::FloatTexts(v) => Reply::Texts(v.iter().map(|b| f64::from_bits(*b).to_string()).collect()),
        Request::JsonFloats(v) => {
            Reply::Texts(v.iter().map(|b| serde_json::Value::from(f64::from_bits(*b)).to_string()).collect())
        }
        Request::FloatFromText(t) => Reply::MaybeFloat(t.parse::<f64>().ok().map(|x| x.to_bits())),
        Request::FloatFromInt(i) => Reply::Float((i as f64).to_bits()),
        Request::FloatToInt(b) => Reply::Int(f64::from_bits(b) as i64),
        Request::Float(op, a, b) => Reply::Float(float_op(op, f64::from_bits(a), f64::from_bits(b)).to_bits()),
        Request::FloatUnit(k) => Reply::Float((k as f64 / 9007199254740992.0).to_bits()),
        Request::ReadFile(p) => match files.iter().find(|f| f.0 == p) {
            Some(f) => Reply::Text(f.1.clone()),
            None => Reply::Trouble(IoKind::NotFound, "no such file".to_string()),
        },
        Request::WriteFile(p, t) => {
            files.push((p, t));
            Reply::Done
        }
        Request::FileExists(p) => Reply::Flag(files.iter().any(|f| f.0 == p)),
        Request::Now => Reply::Int(1698765432),
        Request::Sleep(Num::Int(_)) | Request::Sleep(Num::Float(_)) => Reply::Done,
        Request::EnvGet(k) => Reply::MaybeText(if k == "HOME" { Some("/home/me".to_string()) } else { None }),
        Request::EnvSet(_, _) => Reply::Done,
        _ => panic!("not asked for here"),
    }
}

fn go(src: &str, debug: bool) -> (Vec<String>, Option<ZError>, usize) {
    go_with(src, debug, &mut Vec::new())
}

fn go_with(src: &str, debug: bool, files: &mut Vec<(String, String)>) -> (Vec<String>, Option<ZError>, usize) {
    let headers: Table<HeaderRead> = Table::new();
    let program = match load_program("t.hn", src, &headers) {
        Ok(p) => Box::leak(Box::new(p)),
        Err(e) => return (Vec::new(), Some(e), 0),
    };
    let mut world = World::new(7);
    let mut out = Vec::new();
    let mut spawned = Vec::new();
    let mut children = 0;
    let mut ip = start(program, "t.hn", src, debug, false);
    let mut pauses = 0;
    loop {
        let mut want = run(&mut ip, &mut world, 1000);
        while let Some(x) = want {
            want = match x {
                Want::World(q) => {
                    let r = reply(q, &mut out, files);
                    ip.answer(&mut world, Answer::World(r))
                }
                Want::Spawn(m) => {
                    children += 1;
                    spawned.push(*m);
                    None
                }
                Want::Pause => {
                    pauses += 1;
                    ip.answer(&mut world, Answer::World(Reply::Done))
                }
                Want::Adopt(p) => {
                    let held: &'static hone::ast::Program = Box::leak(Box::new(p));
                    ip.answer(&mut world, Answer::Module(held))
                }
                Want::Cached(_) => ip.answer(&mut world, Answer::World(Reply::MaybeText(None))),
                Want::Download(_, c) => {
                    assert_eq!(c.host, "example.com");
                    let body = b"HTTP/1.1 200 OK\r\n\r\nfn far_add(a, b) { return a + b; }".to_vec();
                    ip.answer(&mut world, Answer::World(Reply::Bytes(body)))
                }
                Want::SaveModule(n, t) => {
                    files.push((format!("{}.hn", n), t));
                    ip.answer(&mut world, Answer::World(Reply::Done))
                }
                Want::Load(_, p) => {
                    let r = if p == "missing.so" {
                        Reply::Trouble(IoKind::NotFound, "gone".to_string())
                    } else {
                        Reply::Done
                    };
                    ip.answer(&mut world, Answer::World(r))
                }
                Want::Call(_, _, args, _) => {
                    let widened = args.iter().filter(|x| matches!(x, CArg::FloatOf(_))).count() as i64;
                    let n = args.len() as i64 + 40 + 100 * widened;
                    ip.answer(&mut world, Answer::World(Reply::Int(n)))
                }
                Want::Header(_) => panic!("no headers here"),
            };
        }
        if let Now::Over(e) = &ip.now {
            let e = e.as_ref().map(|x| ZError::plain(x.code, &x.msg, None));
            for mut m in spawned {
                let mut w2 = World::new(1);
                loop {
                    let mut want = run(&mut m, &mut w2, 1000);
                    while let Some(Want::World(q)) = want {
                        let r = reply(q, &mut out, files);
                        want = m.answer(&mut w2, Answer::World(r));
                    }
                    if let Now::Over(_) = &m.now {
                        break;
                    }
                }
            }
            return (out, e, children + pauses);
        }
    }
}

fn prints(src: &str, want: &[&str]) {
    let (out, e, _) = go(src, false);
    assert!(e.is_none(), "{}", e.unwrap().render());
    assert_eq!(out, want);
}

fn fails(src: &str, code: &str, msg: &str) {
    let (_, e, _) = go(src, false);
    let e = e.expect("an error");
    assert_eq!(e.code, code);
    assert_eq!(e.msg, msg);
}

#[test]
fn hello_and_arithmetic() {
    prints("print(\"Hello Hone!\");", &["Hello Hone!"]);
    prints("x = 10; y : int = 20; z = x + y; print(z);", &["30"]);
    prints("print(7 / 2); print(-7 / 2); print(-7 % 3); print(2 + 3 * 4);", &["3", "-3", "-1", "14"]);
}

#[test]
fn floats_are_asked_for() {
    prints("f = 3.14; print(to_str(f)); print(1.5 + 2.25); print(-f);", &["3.14", "3.75", "-3.14"]);
    prints("print(max(3.14, 2.71)); print(to_int(3.99)); print(to_float(\"2.718\"));", &["3.14", "3", "2.718"]);
    prints("print(1.0 < 2.0); print(1.5 == 1.5); print(.5 + .5);", &["true", "true", "1"]);
}

#[test]
fn fib_of_ten_is_55() {
    prints("fn fib(n) { if (n <= 1) { return n; } return fib(n - 1) + fib(n - 2); } print(fib(10));", &["55"]);
}

#[test]
fn loops_and_blocks() {
    prints("i = 0; s = 0; while (i < 5) { i = i + 1; s = s + i; } print(s);", &["15"]);
    prints("for x in [1, 2, 3] { print(x); }", &["1", "2", "3"]);
    prints("for k, v in {\"a\": 1, \"b\": 2} { print(k + \"=\" + to_str(v)); }", &["a=1", "b=2"]);
    prints("fn f() { for x in [1, 2, 3] { if (x == 2) { return x; } } return 0; } print(f());", &["2"]);
}

#[test]
fn collections_are_values() {
    prints(
        "nums = [1, 2, 3]; more = append(nums, 4); print(nums); print(more); print(len(more));",
        &["[1, 2, 3]", "[1, 2, 3, 4]", "4"],
    );
    prints("user = {\"name\": \"hone\", \"ver\": 1}; print(to_str(user));", &["{name: hone, ver: 1}"]);
    prints("print(contains([1, 2], 2)); print(index_of([5, 6], 7)); print(keys({\"a\": 1}));", &["true", "-1", "[a]"]);
}

#[test]
fn texts_with_expressions() {
    prints("name = \"hone\"; print(f\"hi {name}! 1+1={1 + 1} {{x}}\");", &["hi hone! 1+1=2 {x}"]);
    prints("print(f\"{1.5} and {[2.5, true]}\");", &["1.5 and [2.5, true]"]);
}

#[test]
fn match_takes_the_first_arm_that_fits() {
    prints("s = match 2 { 1 => \"one\", 2 => \"two\", _ => \"other\" }; print(s);", &["two"]);
    prints("s = match 9 { 1 => \"one\", _ => \"other\" }; print(s);", &["other"]);
    fails("s = match 3 { 1 => \"one\" };", "H005", "no match arm matched the value");
}

#[test]
fn pipes_put_the_first_argument() {
    prints("print(\"hello world\" |> len);", &["11"]);
    prints("print([1, 2, 3] |> len |> to_str);", &["3"]);
    prints("print(3 |> max(7) |> to_str);", &["7"]);
}

#[test]
fn a_pipe_is_the_call_that_it_stands_for() {
    let defs = "fn f(a, b, c) -> int { return a * 100 + b * 10 + c; } fn g(a) -> int { return 2 * a; } ";
    for (piped, called, result) in [
        ("r = 1 + 2 |> g;", "r = g(1 + 2);", "6"),
        ("r = 1 |> f(2, 3);", "r = f(1, 2, 3);", "123"),
        ("r = 1 |> g();", "r = g(1,);", "2"),
        ("r = 1 |> f(g(1), 3 |> g) |> g;", "r = g(f(1, g(1), g(3)));", "252"),
    ] {
        prints(&format!("{}{} print(r);", defs, piped), &[result]);
        prints(&format!("{}{} print(r);", defs, called), &[result]);
    }
}

#[test]
fn structs_are_dictionaries() {
    prints("struct Point { x: int, y: float }; p = Point(3, 2.5); print(p.x); print(p.y); print(keys(p));", &[
        "3", "2.5", "[x, y]",
    ]);
    fails("d = {\"a\": 1}; print(d.b);", "H002", "unknown field `b` (dict/struct has a)");
}

#[test]
fn errors_are_caught_by_the_innermost_handler() {
    prints(
        "fn risky(a, b) -> int { return a / b; } try { risky(10, 0); } catch e { print(e.code + \": \" + e.message); }",
        &["H009: division by zero"],
    );
    prints(
        "fn deep(n) -> int { if (n == 0) { throw \"down\"; } return deep(n - 1); }\n\
         try { while (true) { for x in [1] { print(deep(3)); } } } catch e { print(e.message); } print(\"on\");",
        &["down", "on"],
    );
}

#[test]
fn a_rethrown_error_is_the_same() {
    prints(
        "try { try { throw \"inner error\"; } catch e { throw e; } } catch e { print(\"outer caught \" + e.code); print(e.message); print(e.line); }",
        &["outer caught H600", "inner error", "1"],
    );
    fails("throw \"custom failure\";", "H600", "custom failure");
}

#[test]
fn errors_while_running() {
    fails("x = 9223372036854775807; y = x + 1;", "H010", "integer overflow");
    fails("x = 1 / 0;", "H009", "division by zero");
    fails("fn f(n) -> int { return f(n + 1); } print(f(0));", "H012", "recursion depth exceeded (limit 5000)");
    fails("print(to_int(\"abc\"));", "H006", "cannot convert `abc` to `int`: not a pure digit string");
    fails("print(to_float(\"xyz\"));", "H007", "cannot convert `xyz` to `float`: invalid format");
    fails("assert(1 == 2, \"no\");", "H700", "no");
}

#[test]
fn logic_looks_right_only_where_needed() {
    prints(
        "fn boom() -> bool { print(\"boom\"); return true; } print(false && boom()); print(true || boom()); print(true && boom());",
        &["false", "true", "boom", "true"],
    );
}

#[test]
fn debugging_is_silent_without_debug_mode() {
    let src = "x = 10; breakpoint; debug_print(\"x = \" + to_str(x)); print(x);";
    let (out, e, n) = go(src, false);
    assert!(e.is_none());
    assert_eq!(out, ["10"]);
    assert_eq!(n, 0);
    let (out, e, n) = go(src, true);
    assert!(e.is_none());
    assert_eq!(out, [
        "[Hone Debug] 断点触发 -> t.hn:1\n--- 变量快照 ---\nx : int = 10",
        "[debug] x = 10",
        "10",
    ]);
    assert_eq!(n, 1);
}

#[test]
fn go_shares_no_variables() {
    let src = "x = 1; fn task(id) { x = id; print(\"task \" + to_str(x)); } go task(5); print(x);";
    let (out, e, n) = go(src, false);
    assert!(e.is_none());
    assert_eq!(out, ["1", "task 5"]);
    assert_eq!(n, 1);
}

#[test]
fn modules_are_read_from_files() {
    let mut files = vec![("./m.hn".to_string(), "fn m_add(a, b) { return a + b; } print(\"loaded\");".to_string())];
    let (out, e, _) =
        go_with("import \"m\" from \"./m.hn\" as k; print(k_add(20, 22));", false, &mut files);
    assert!(e.is_none());
    assert_eq!(out, ["loaded", "42"]);
    fails(
        "import \"m\" from \"./gone.hn\";",
        "H404",
        "cannot read local module `m` at `./gone.hn`: no such file",
    );
}

#[test]
fn modules_are_fetched_and_kept() {
    let mut files = Vec::new();
    let (out, e, _) =
        go_with("import \"far\" from \"http://example.com/far.hn\"; print(far_add(1, 2));", false, &mut files);
    assert!(e.is_none());
    assert_eq!(out, ["3"]);
    assert_eq!(files[0].0, "far.hn");
    assert_eq!(files[0].1, "fn far_add(a, b) { return a + b; }");
}

#[test]
fn library_functions_are_called() {
    prints("load \"m.so\" as m; print(m.lib_add(1, 2));", &["42"]);
    prints("load lazy \"m.so\" as m; print(m.f());", &["40"]);
    prints("load \"m.so\" as m { fn f(a: int) -> int; } print(m.f(1));", &["41"]);
    fails("load \"missing.so\" as m;", "H301", "cannot load dynamic library `missing.so`: gone");
    fails(
        "alias print as show; lib.f(1);",
        "H404",
        "library `lib` is not loaded",
    );
}

#[test]
fn another_name_calls_the_function() {
    prints("fn greet(n) { print(\"hi \" + n); } alias greet as hi; hi(\"Hone\");", &["hi Hone"]);
}

#[test]
fn files_and_the_store() {
    let mut files = Vec::new();
    let (out, e, _) = go_with(
        "write_file(\"a.txt\", \"text\"); print(read_file(\"a.txt\")); print(file_exists(\"b\")); db.set(\"k\", \"v\"); print(db.get(\"k\")); print(db.get(\"other\"));",
        false,
        &mut files,
    );
    assert!(e.is_none());
    assert_eq!(out, ["text", "false", "v", "null"]);
}

#[test]
fn json_goes_through() {
    prints("print(json_stringify({\"b\": 1, \"a\": [true, 1.5, \"x\"]}));", &["{\"a\":[true,1.5,\"x\"],\"b\":1}"]);
    prints("v = json_parse(\"{\\\"k\\\": [1, 2.5, null]}\"); print(v);", &["{k: [1, 2.5, null]}"]);
}

#[test]
fn time_and_environment() {
    prints("print(time.format(time.now(), \"YYYY-MM-DD HH:mm:SS\"));", &["2023-10-31 15:17:12"]);
    prints("time.sleep(0.5); print(time.parse(\"1970-01-02\"));", &["86400"]);
    prints("print(env.get(\"HOME\")); print(sys.get_env(\"NOPE\"));", &["/home/me", ""]);
}

#[test]
fn types_stay_locked() {
    fails("x = 10; x = \"Hone\";", "H001", "type mismatch: variable `x` is locked to `int`, got `str`");
    fails("x = 1 + 1.5;", "H001", "cannot apply `+` to `int` and `float` (no implicit conversion)");
    fails("if (1) { }", "H008", "condition must be `bool`, got `int`");
    fails("print(y);", "H002", "undefined variable `y`");
    fails("nope(1);", "H002", "undefined function `nope`");
}

#[test]
fn calls_are_not_nested_without_end() {
    fails("fn f(n) -> int { return f(n + 1); } print(f(0));", "H012", "recursion depth exceeded (limit 5000)");
    prints("fn f(n) -> int { if (n == 0) { return 0; } return f(n - 1); } print(f(4999));", &["0"]);
}

fn code_of(src: &str) -> &'static str {
    let (_, e, _) = go(src, false);
    e.expect("an error").code
}

#[test]
fn arguments_are_counted() {
    assert_eq!(code_of("fn f(a) { return a; } alias f as g; print(g(1, 2));"), "H011");
    assert_eq!(code_of("fn f(a) { return a; } alias f as g; print(g());"), "H011");
    assert_eq!(code_of("fn f(a) { return a; } print(f());"), "H011");
    prints("fn f(a) { return a; } alias f as g; print(g(3));", &["3"]);
    let deep = "fn k(a) { return a; } fn f(n) -> int { alias k as h; if (n == N) { h(); } return f(n + 1); } print(f(0));";
    assert_eq!(code_of(&deep.replace("N", "4998")), "H011");
    assert_eq!(code_of(&deep.replace("N", "4999")), "H012");
}

#[test]
fn functions_are_found_at_any_depth() {
    prints("fn f() { fn g() { return 5; } return g(); } print(f());", &["5"]);
    prints("try { fn h() { return 6; } } catch e { } print(h());", &["6"]);
    prints("try { } catch e { fn k() { return 8; } } print(k());", &["8"]);
    prints("for i in [1] { fn m() { return 7; } } print(m());", &["7"]);
}

#[test]
fn orders_need_numbers_on_both_sides() {
    assert_eq!(code_of("print(1 < \"a\");"), "H001");
    assert_eq!(code_of("print(\"a\" < 1);"), "H001");
    assert_eq!(code_of("print(\"a\" >= \"b\");"), "H001");
    prints("print(1 < 2);", &["true"]);
}

#[test]
fn an_integer_goes_for_a_float_parameter() {
    prints("load \"m.so\" as m { fn pow(a: float, b: float) -> int; } print(m.pow(2.0, 10));", &["142"]);
    prints("load \"m.so\" as m { fn pow(a: float, b: float) -> int; } print(m.pow(2.0, 1.5));", &["42"]);
    assert_eq!(code_of("load \"m.so\" as m { fn pow(a: float) -> int; } print(m.pow(\"x\"));"), "H001");
}

#[test]
fn conditions_are_truth_values_when_run() {
    assert_eq!(code_of("x = json_parse(\"1\"); if (x) { print(1); }"), "H008");
}

#[test]
fn values_are_found_by_their_contents() {
    prints("l = [[1, \"a\"], [2, \"b\"]]; print(index_of(l, [2, \"b\"])); print(contains(l, [3]));", &["1", "false"]);
    prints("p = ptr.alloc(0); print(contains([p], p));", &["true"]);
    prints("try { throw \"x\"; } catch e { print(contains([e], e)); }", &["true"]);
}
