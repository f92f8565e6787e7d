//! The built-in functions, called one by one.

use hone::archmod::{safe_entry, tgz_extract, tgz_list, tgz_pack, tgz_read, zip_extract};
use hone::builtins::http::{decode_body, decode_chunked_bytes, http_get_bytes, http_request, net_err, plan};
use hone::builtins::json::json_to_value;
use hone::builtins::rng::Rng;
use hone::builtins::time::{civil_from_days, days_from_civil, format_timestamp, parse_timestamp};
use hone::builtins::world::{Pending, IoKind, NetStep, Out, Place, Reply, Request, Unpack};
use hone::builtins::{call, enable_persist, finish, init_args, load_state, World};
use hone::cli::resume::{read_state, script_hash};
use hone::error::{codes, ZError};
use hone::lexer::Span;
use hone::value::Value;

fn place() -> Place<'static> {
    Place { file: "t.hn", src: "x = 1;", span: Span { line: 1, col: 1, len: 1 }, windows: false }
}

fn windows_place() -> Place<'static> {
    Place { windows: true, ..place() }
}

fn s(t: &str) -> Value {
    Value::Str(t.to_string())
}

fn show(v: &Value) -> String {
    v.display(&vec![])
}

fn value(o: Out) -> Value {
    match o {
        Out::Value(v) => v,
        Out::Error(e) => panic!("{}", e.render()),
        Out::Ask(_, _) => panic!("a request"),
    }
}

fn error(o: Out) -> ZError {
    match o {
        Out::Error(e) => e,
        _ => panic!("no error"),
    }
}

fn given(name: &str, a: Vec<Value>) -> String {
    show(&value(call(&mut World::new(1), &place(), name, &a)))
}

fn refused(name: &str, a: Vec<Value>) -> (&'static str, String) {
    let e = error(call(&mut World::new(1), &place(), name, &a));
    (e.code, e.msg)
}

/// Calls a function that asks once, and hands it the answer.
fn asked(w: &mut World, name: &str, a: Vec<Value>, r: Reply) -> (Request, Out) {
    match call(w, &place(), name, &a) {
        Out::Ask(q, k) => (q, finish(w, &place(), k, r)),
        _ => panic!("no request"),
    }
}

#[test]
fn digests_of_known_texts() {
    assert_eq!(given("crypto.md5", vec![s("hello")]), "5d41402abc4b2a76b9719d911017c592");
    assert_eq!(given("crypto.sha1", vec![s("hello")]), "aaf4c61ddcc5e8a2dabede0f3b482cd9aea9434d");
    assert_eq!(
        given("crypto.sha256", vec![s("hello")]),
        "2cf24dba5fb0a30e26e83b2ac5b9e29e1b161e5c1fa7425e73043362938b9824"
    );
    assert_eq!(
        given("crypto.hmac_sha256", vec![s("key"), s("The quick brown fox jumps over the lazy dog")]),
        "f7bc83f430538424b13298e6aa6fb143ef4d59a14946175997479dbc2d1a3cd8"
    );
}

#[test]
fn base64_there_and_back() {
    assert_eq!(given("crypto.base64_encode", vec![s("hello")]), "aGVsbG8=");
    assert_eq!(given("crypto.base64_decode", vec![s("aGVsbG8=")]), "hello");
    for t in ["", "a", "ab", "abc", "gr\u{fc}n \u{1f600}"] {
        let e = given("crypto.base64_encode", vec![s(t)]);
        assert_eq!(given("crypto.base64_decode", vec![s(&e)]), t);
    }
    assert!(matches!(call(&mut World::new(1), &place(), "crypto.base64_decode", &vec![s("%%%")]), Out::Error(_)));
}

#[test]
fn patterns_match_and_replace() {
    assert_eq!(given("regex.match", vec![s("^[0-9]+$"), s("123")]), "true");
    assert_eq!(given("regex.match", vec![s("^[0-9]+$"), s("12a")]), "false");
    assert_eq!(given("regex.replace", vec![s("[0-9]+"), s("a1b22"), s("#")]), "a#b#");
    assert!(matches!(call(&mut World::new(1), &place(), "regex.match", &vec![s("("), s("x")]), Out::Error(_)));
}

#[test]
fn json_there_and_back() {
    let v = value(call(&mut World::new(1), &place(), "json_parse", &vec![s("{\"b\": [1, true, null], \"a\": \"x\\n\"}")]));
    match &v {
        Value::Dict(es) => {
            assert_eq!(es.len(), 2);
            assert!(es.iter().any(|e| e.0 == "a" && e.1.same(&s("x\n"))));
        }
        _ => panic!("no dictionary"),
    }
    assert_eq!(given("json_stringify", vec![s("a\"b\n")]), "\"a\\\"b\\n\"");
    assert_eq!(given("json_stringify", vec![Value::List(vec![Value::Int(1), Value::Bool(false), Value::Null])]), "[1,false,null]");
    let d = Value::Dict(vec![("k".to_string(), Value::Int(-3))]);
    assert_eq!(given("json_stringify", vec![d]), "{\"k\":-3}");
    let t = given("json_stringify", vec![v.dup()]);
    match json_to_value(&place(), &t, 100) {
        Ok(back) => assert_eq!(given("json_stringify", vec![back]), t),
        Err(e) => panic!("{}", e.render()),
    }
    assert!(matches!(call(&mut World::new(1), &place(), "json_parse", &vec![s("{")]), Out::Error(_)));
}

#[test]
fn lists_dictionaries_and_texts() {
    assert_eq!(given("len", vec![s("h\u{e9}llo")]), "6");
    assert_eq!(given("contains", vec![Value::List(vec![Value::Int(1)]), Value::Int(1)]), "true");
    assert_eq!(given("index_of", vec![Value::List(vec![Value::Int(4), Value::Int(5)]), Value::Int(6)]), "-1");
    let two = Value::List(vec![Value::Int(4), Value::Int(5), Value::Int(5)]);
    assert_eq!(given("index_of", vec![two.dup(), Value::Int(5)]), "1");
    assert_eq!(given("contains", vec![two, Value::Int(6)]), "false");
    assert_eq!(given("append", vec![Value::List(vec![]), Value::Int(2)]), "[2]");
    let d = Value::Dict(vec![("a".to_string(), Value::Int(1)), ("b".to_string(), Value::Int(2))]);
    assert_eq!(given("keys", vec![d.dup()]), "[a, b]");
    assert_eq!(given("values", vec![d.dup()]), "[1, 2]");
    assert_eq!(given("has_key", vec![d, s("c")]), "false");
    assert_eq!(given("str_trim", vec![s("\u{3000} a b \t\n")]), "a b");
    assert_eq!(given("str_replace", vec![s("aXbX"), s("X"), s("--")]), "a--b--");
    assert_eq!(given("str_contains", vec![s("hello"), s("ell")]), "true");
    assert_eq!(given("type_of", vec![Value::Ptr(16)]), "ptr");
    assert_eq!(given("path.join", vec![s("a"), s("b"), s("c.txt")]), "a/b/c.txt");
    assert_eq!(given("path.join", vec![s("a"), s("/b")]), "/b");
    assert_eq!(given("path.dirname", vec![s("a/b/c.txt")]), "a/b");
    assert_eq!(given("path.basename", vec![s("a/b/c.txt")]), "c.txt");
}

#[test]
fn wrong_arguments_are_errors() {
    assert_eq!(refused("len", vec![]).0, codes::ARG_COUNT);
    assert_eq!(refused("len", vec![Value::Int(3)]).0, codes::TYPE_MISMATCH);
    assert_eq!(refused("to_int", vec![s("12a")]).0, codes::STR_TO_INT);
    assert_eq!(refused("abs", vec![Value::Int(i64::MIN)]).0, codes::INTEGER_OVERFLOW);
    assert_eq!(refused("assert", vec![Value::Bool(false)]).0, codes::ASSERT);
    assert_eq!(refused("random.int", vec![Value::Int(5), Value::Int(1)]).0, codes::TYPE_MISMATCH);
}

#[test]
fn the_store_gives_back_what_was_put() {
    let mut w = World::new(1);
    value(call(&mut w, &place(), "db.set", &vec![s("k"), s("v1")]));
    value(call(&mut w, &place(), "db.set", &vec![s("k"), s("v2")]));
    assert_eq!(show(&value(call(&mut w, &place(), "db.get", &vec![s("k")]))), "v2");
    enable_persist(&mut w, "s.json".to_string(), "abc".to_string());
    let (q, o) = asked(&mut w, "db.set", vec![s("l"), s("w")], Reply::Done);
    match q {
        Request::SaveState(path, text) => {
            assert_eq!(path, "s.json");
            assert!(text.contains("\"abc\""));
            assert!(text.contains("\"v2\""));
        }
        _ => panic!("not saved"),
    }
    value(o);
    assert_eq!(show(&value(call(&mut w, &place(), "db.get", &vec![s("l")]))), "w");
    let mut fresh = World::new(1);
    load_state(&mut fresh, &vec![("k".to_string(), "old".to_string())]);
    assert_eq!(show(&value(call(&mut fresh, &place(), "db.get", &vec![s("k")]))), "old");
}

#[test]
fn a_kept_store_is_restored() {
    let mut w = World::new(1);
    let hash = script_hash("print(1);");
    enable_persist(&mut w, "s.json".to_string(), hash.clone());
    for (k, v) in [("z", "1"), ("a", "gr\u{fc}n \"q\""), ("script", "kv"), ("z", "2")] {
        let (q, o) = asked(&mut w, "db.set", vec![s(k), s(v)], Reply::Done);
        value(o);
        let text = match q {
            Request::SaveState(_, t) => t,
            _ => panic!("not saved"),
        };
        let mut fresh = World::new(2);
        load_state(&mut fresh, &read_state(&text, &hash));
        for key in ["z", "a", "script", "none"] {
            let was = value(call(&mut w, &place(), "db.get", &vec![s(key)]));
            assert!(value(call(&mut fresh, &place(), "db.get", &vec![s(key)])).same(&was));
        }
    }
}

#[test]
fn scalars_there_and_back_in_json() {
    for v in [Value::Null, Value::Bool(true), Value::Int(i64::MIN), Value::Int(0), Value::Int(i64::MAX), s("a\u{1}\"\\\u{1f600}")] {
        let t = given("json_stringify", vec![v.dup()]);
        assert!(value(call(&mut World::new(1), &place(), "json_parse", &vec![s(&t)])).same(&v));
    }
}

#[test]
fn long_names_in_zip_files_are_errors() {
    let mut w = World::new(1);
    let d = Value::Dict(vec![("n".repeat(65536), s("x"))]);
    let (_, o) = asked(&mut w, "archive.zip_create", vec![s("out.bin"), d], Reply::Done);
    assert!(error(o).msg.ends_with("`: the name is too long"));
    let d = Value::Dict(vec![("n".repeat(65535), s("x"))]);
    let (_, o) = asked(&mut w, "archive.zip_create", vec![s("out.bin"), d], Reply::Done);
    assert!(matches!(o, Out::Ask(Request::WriteBytes(_, _), _)));
}

#[test]
fn arguments_of_the_command_line() {
    let mut w = World::new(1);
    let a: Vec<String> = ["--name", "Ann", "-n", "4", "rest", "-v"].iter().map(|x| x.to_string()).collect();
    init_args(&mut w, &a);
    assert_eq!(show(&value(call(&mut w, &place(), "args.get", &vec![s("name")]))), "Ann");
    assert!(value(call(&mut w, &place(), "args.get", &vec![s("n"), s("int")])).same(&Value::Int(4)));
    assert!(value(call(&mut w, &place(), "args.get", &vec![s("v"), s("bool")])).same(&Value::Bool(true)));
    assert!(value(call(&mut w, &place(), "args.get", &vec![s("none"), s("int")])).same(&Value::Null));
    assert_eq!(show(&value(call(&mut w, &place(), "args.has", &vec![s("v")]))), "true");
    assert_eq!(show(&value(call(&mut w, &place(), "args.has", &vec![s("rest")]))), "false");
    assert_eq!(error(call(&mut w, &place(), "args.get", &vec![s("name"), s("int")])).code, codes::STR_TO_INT);
    assert_eq!(error(call(&mut w, &place(), "args.get", &vec![s("name"), s("bool")])).code, codes::TYPE_MISMATCH);
}

#[test]
fn memory_is_read_inside_its_blocks() {
    let mut w = World::new(1);
    let (q, o) = asked(&mut w, "ptr.alloc", vec![Value::Int(8)], Reply::Addr(4096));
    assert!(matches!(q, Request::Alloc(8)));
    let p = value(o);
    assert!(p.same(&Value::Ptr(4096)));
    assert_eq!(show(&value(call(&mut w, &place(), "ptr.size", &vec![p.dup()]))), "8");
    let (q, o) = asked(&mut w, "ptr.read_int", vec![p.dup(), Value::Int(0)], Reply::Bits(u64::MAX));
    assert!(matches!(q, Request::Peek(4096, 0, 8)));
    assert!(value(o).same(&Value::Int(-1)));
    let (q, _) = asked(&mut w, "ptr.write_byte", vec![p.dup(), Value::Int(7), Value::Int(200)], Reply::Done);
    assert!(matches!(q, Request::Poke(4096, 7, 1, 200)));
    assert!(matches!(call(&mut w, &place(), "ptr.read_int", &vec![p.dup(), Value::Int(1)]), Out::Error(_)));
    assert!(matches!(call(&mut w, &place(), "ptr.write_byte", &vec![p.dup(), Value::Int(8), Value::Int(1)]), Out::Error(_)));
    let (q, _) = asked(&mut w, "ptr.free", vec![p.dup()], Reply::Done);
    assert!(matches!(q, Request::Free(4096, 8)));
    assert_eq!(show(&value(call(&mut w, &place(), "ptr.is_valid", &vec![p.dup()]))), "false");
    assert!(matches!(call(&mut w, &place(), "ptr.free", &vec![p]), Out::Error(_)));
}

#[test]
fn plugins_are_registered_once_they_load() {
    let mut w = World::new(1);
    let (q, o) = asked(&mut w, "plugin.load", vec![s("./m.so"), s("m")], Reply::Done);
    assert!(matches!(q, Request::LoadLib(p) if p == "./m.so"));
    value(o);
    assert_eq!(show(&value(call(&mut w, &place(), "plugin.has", &vec![s("m")]))), "true");
    let (_, o) = asked(&mut w, "plugin.load", vec![s("./n.so"), s("n")], Reply::Trouble(IoKind::Other, "bad".to_string()));
    assert!(error(o).msg.contains("bad"));
    assert_eq!(show(&value(call(&mut w, &place(), "plugin.has", &vec![s("n")]))), "false");
    assert_eq!(show(&value(call(&mut w, &place(), "plugin.unload", &vec![s("m")]))), "true");
    assert_eq!(show(&value(call(&mut w, &place(), "plugin.unload", &vec![s("m")]))), "false");
}

#[test]
fn the_server_answers_each_request_once() {
    let mut w = World::new(1);
    let (q, o) = asked(&mut w, "server.listen", vec![Value::Int(8080)], Reply::Int(8080));
    assert!(matches!(q, Request::Listen(8080)));
    value(o);
    let id = w.server.arrive("GET".to_string(), "/a\"b".to_string(), "x\ny".to_string());
    w.server.arrive("POST".to_string(), "/2".to_string(), "".to_string());
    let t = show(&value(call(&mut w, &place(), "server.poll", &vec![])));
    assert_eq!(
        t,
        "[{\"id\":1,\"method\":\"GET\",\"path\":\"/a\\\"b\",\"body\":\"x\\ny\"},{\"id\":2,\"method\":\"POST\",\"path\":\"/2\",\"body\":\"\"}]"
    );
    assert_eq!(show(&value(call(&mut w, &place(), "server.poll", &vec![]))), "[]");
    let (q, o) = asked(&mut w, "server.respond", vec![Value::Int(id as i64), s("ok"), Value::Int(404)], Reply::Done);
    assert!(matches!(q, Request::Deliver(1, 404, b) if b == "ok"));
    assert_eq!(show(&value(o)), "true");
    assert_eq!(show(&value(call(&mut w, &place(), "server.respond", &vec![Value::Int(1), s("ok")]))), "false");
    assert_eq!(refused("server.respond", vec![Value::Int(1), s("ok"), Value::Int(99)]).0, codes::TYPE_MISMATCH);
    assert_eq!(refused("server.listen", vec![Value::Int(70000)]).0, codes::SYSCALL);
}

fn packed(kind: &str) -> Vec<u8> {
    let mut w = World::new(1);
    let d = Value::Dict(vec![("a.txt".to_string(), s("hello")), ("dir/b.txt".to_string(), s("gr\u{fc}n"))]);
    let (q, o) = asked(&mut w, kind, vec![s("out.bin"), d], Reply::Done);
    assert!(matches!(q, Request::CreateFile(_)));
    let o = match o {
        Out::Ask(Request::PackTgz(es), k) => finish(&mut w, &place(), k, tgz_pack(&es)),
        o => o,
    };
    match o {
        Out::Ask(Request::WriteBytes(path, b), k) => {
            assert_eq!(path, "out.bin");
            value(finish(&mut w, &place(), k, Reply::Done));
            b
        }
        _ => panic!("nothing to write"),
    }
}

fn unpacked(o: Out) -> Vec<(String, Vec<u8>)> {
    match o {
        Out::Ask(Request::UnpackInto(dir, steps), k) => {
            assert_eq!(dir, "to");
            let n = match finish(&mut World::new(1), &place(), k, Reply::Done) {
                Out::Value(Value::Int(n)) => n as usize,
                _ => panic!("no number"),
            };
            let files: Vec<(String, Vec<u8>)> = steps
                .into_iter()
                .filter_map(|x| match x {
                    Unpack::File(n, d) => Some((n, d)),
                    Unpack::Dir(_) => None,
                })
                .collect();
            assert_eq!(files.len(), n);
            files
        }
        Out::Error(e) => panic!("{}", e.render()),
        _ => panic!("nothing to unpack"),
    }
}

#[test]
fn zip_files_give_back_what_was_packed() {
    let b = packed("archive.zip_create");
    let mut w = World::new(1);
    let (_, o) = asked(&mut w, "archive.zip_list", vec![s("out.bin")], Reply::Bytes(b.clone()));
    assert_eq!(show(&value(o)), "[a.txt, dir/b.txt]");
    let (_, o) = asked(&mut w, "archive.zip_read", vec![s("out.bin"), s("dir/b.txt")], Reply::Bytes(b.clone()));
    assert_eq!(show(&value(o)), "gr\u{fc}n");
    let (_, o) = asked(&mut w, "archive.zip_read", vec![s("out.bin"), s("none")], Reply::Bytes(b.clone()));
    assert!(error(o).msg.starts_with("zip entry `none` not found: "));
    let files = unpacked(zip_extract(&place(), "out.bin", "to", &b));
    assert_eq!(files.len(), 2);
    assert_eq!(files[0].1, b"hello".to_vec());
    let (_, o) = asked(&mut w, "archive.zip_list", vec![s("x")], Reply::Bytes(b"no zip".to_vec()));
    assert!(error(o).msg.starts_with("invalid zip `x`: "));
    let (_, o) = asked(&mut w, "archive.zip_list", vec![s("x")], Reply::Trouble(IoKind::NotFound, "gone".to_string()));
    assert_eq!(error(o).msg, "cannot open `x`: gone");
}

#[test]
fn tgz_files_give_back_what_was_packed() {
    let b = packed("archive.tgz_create");
    let mut w = World::new(1);
    let (_, o) = asked(&mut w, "archive.tgz_list", vec![s("out.bin")], Reply::Bytes(b.clone()));
    assert_eq!(show(&value(o)), "[a.txt, dir/b.txt]");
    let (_, o) = asked(&mut w, "archive.tgz_read", vec![s("out.bin"), s("a.txt")], Reply::Bytes(b.clone()));
    assert_eq!(show(&value(o)), "hello");
    let (_, o) = asked(&mut w, "archive.tgz_read", vec![s("out.bin"), s("none")], Reply::Bytes(b.clone()));
    error(o);
    let files = unpacked(tgz_extract(&place(), "out.bin", "to", &b));
    assert_eq!(files.len(), 2);
    assert_eq!(files[1].1, "gr\u{fc}n".as_bytes().to_vec());
    let (_, o) = asked(&mut w, "archive.tgz_list", vec![s("x")], Reply::Bytes(b"no tar".to_vec()));
    error(o);
}

#[test]
fn unsafe_entries_are_told_apart() {
    assert!(safe_entry(false, "a/b.txt"));
    assert!(safe_entry(false, "a/..b"));
    assert!(!safe_entry(false, "/etc/x"));
    assert!(!safe_entry(false, "../x"));
    assert!(!safe_entry(false, "a/../../x"));
    assert!(safe_entry(false, "..\\x"));
    assert!(safe_entry(true, "a\\b.txt"));
    assert!(!safe_entry(true, "..\\x"));
    assert!(!safe_entry(true, "a\\..\\..\\x"));
    assert!(!safe_entry(true, "C:\\x"));
    assert!(!safe_entry(true, "C:x"));
    assert!(!safe_entry(true, "\\x"));
    assert!(!safe_entry(true, "\\\\server\\share\\x"));
}

#[test]
fn unsafe_entries_are_not_unpacked() {
    let mut w = World::new(1);
    let d = Value::Dict(vec![("../x".to_string(), s("bad"))]);
    let (_, o) = asked(&mut w, "archive.zip_create", vec![s("out.bin"), d], Reply::Done);
    let b = match o {
        Out::Ask(Request::WriteBytes(_, b), _) => b,
        _ => panic!("nothing to write"),
    };
    match zip_extract(&place(), "out.bin", "to", &b) {
        Out::Ask(Request::UnpackInto(_, steps), k) => {
            assert!(steps.iter().all(|x| matches!(x, Unpack::Dir(_))));
            error(finish(&mut w, &place(), k, Reply::Done));
        }
        Out::Error(_) => {}
        _ => panic!("unpacked"),
    }
}

#[test]
fn moments_there_and_back() {
    assert_eq!(days_from_civil(1970, 1, 1), 0);
    assert_eq!(days_from_civil(2000, 3, 1), 11017);
    assert_eq!(civil_from_days(11017), (2000, 3, 1));
    assert_eq!(civil_from_days(-1), (1969, 12, 31));
    assert_eq!(format_timestamp(1698765432, "YYYY-MM-DD HH:mm:SS"), "2023-10-31 15:17:12");
    assert_eq!(parse_timestamp("2023-10-31 15:17:12"), Some(1698765432));
    assert_eq!(parse_timestamp("2023-10-31T15:17:12Z"), Some(1698765432));
    assert_eq!(parse_timestamp("2023-13-01"), None);
    assert_eq!(parse_timestamp("yesterday"), None);
}

#[test]
fn random_numbers_stay_in_their_range() {
    let mut r = Rng::seed(42);
    for _ in 0..200 {
        let n = r.random_int(-3, 3);
        assert!(-3 <= n && n <= 3);
        assert!(r.random_unit() < 9007199254740992);
    }
    assert_eq!(r.random_int(i64::MIN, i64::MIN), i64::MIN);
    let u: Vec<char> = r.uuid().chars().collect();
    assert_eq!(u.len(), 36);
    assert_eq!((u[8], u[13], u[18], u[23], u[14]), ('-', '-', '-', '-', '4'));
    assert!("89ab".contains(u[19]));
    let a = Rng::seed(5).next_u64();
    assert_eq!(a, Rng::seed(5).next_u64());
}

#[test]
fn requests_are_planned() {
    let c = match plan(&place(), "https://example.com/x?y=1", "GET", None) {
        Ok(c) => c,
        Err(e) => panic!("{}", e.render()),
    };
    assert!(c.tls);
    assert_eq!(c.host, "example.com");
    assert_eq!(c.addr, "example.com:443");
    assert!(c.head.starts_with("GET /x?y=1 HTTP/1.1\r\nHost: example.com\r\n"));
    assert!(c.head.ends_with("\r\n\r\n"));
    let c = match plan(&place(), "http://h:81", "POST", Some("abc")) {
        Ok(c) => c,
        Err(e) => panic!("{}", e.render()),
    };
    assert!(!c.tls);
    assert_eq!(c.addr, "h:81");
    assert!(c.head.contains("Content-Length: 3\r\n"));
    assert_eq!(c.body, "abc");
    assert!(plan(&place(), "ftp://x", "GET", None).is_err());
}

#[test]
fn responses_are_read() {
    assert_eq!(http_request(&place(), "http://h", b"HTTP/1.1 200 OK\r\nA: b\r\n\r\nbody").ok(), Some("body".to_string()));
    let chunked = b"HTTP/1.1 200 OK\r\nTRANSFER-Encoding: Chunked\r\n\r\n3\r\nabc\r\n2\r\nde\r\n0\r\n\r\n";
    assert_eq!(http_request(&place(), "http://h", chunked).ok(), Some("abcde".to_string()));
    assert_eq!(http_get_bytes(&place(), "http://h", b"HTTP/1.1 204 X\r\n\r\n\xff").ok(), Some(vec![255]));
    assert!(http_request(&place(), "http://h", b"HTTP/1.1 404 Not Found\r\n\r\n").is_err());
    assert!(http_request(&place(), "http://h", b"nothing").is_err());
    assert_eq!(decode_chunked_bytes(b"1\r\nx\r\n0\r\n\r\n"), b"x".to_vec());
    assert_eq!(decode_body(b"a\xffb", false), "a\u{fffd}b");
}

#[test]
fn network_troubles_have_their_codes() {
    let e = net_err(&place(), "http://h", NetStep::Connect, IoKind::ConnectionRefused, "refused");
    assert_eq!(e.code, codes::NET_CONN_REFUSED);
    let e = net_err(&place(), "http://h", NetStep::Connect, IoKind::TimedOut, "late");
    assert_eq!(e.code, codes::NET_TIMEOUT);
}

#[test]
fn files_have_their_error_codes() {
    let mut w = World::new(1);
    for (k, code) in [(IoKind::NotFound, codes::FILE_NOT_FOUND), (IoKind::PermissionDenied, codes::FILE_PERMISSION)] {
        let (_, o) = asked(&mut w, "read_file", vec![s("f")], Reply::Trouble(k, "t".to_string()));
        assert_eq!(error(o).code, code);
    }
    let (q, o) = asked(&mut w, "write_file", vec![s("f"), s("x")], Reply::Done);
    assert!(matches!(q, Request::WriteFile(a, b) if a == "f" && b == "x"));
    value(o);
    let (_, o) = asked(&mut w, "sys.run", vec![s("ls")], Reply::Output(b"a\n".to_vec(), vec![]));
    assert_eq!(show(&value(o)).trim(), "a");
}

#[test]
fn paths_follow_the_system() {
    let on = |windows: bool, name: &str, a: Vec<Value>| {
        let p = if windows { windows_place() } else { place() };
        show(&value(call(&mut World::new(1), &p, name, &a)))
    };
    assert_eq!(on(false, "path.join", vec![s("a"), s("b")]), "a/b");
    assert_eq!(on(true, "path.join", vec![s("a"), s("b")]), "a\\b");
    assert_eq!(on(true, "path.join", vec![s("a/"), s("b")]), "a/b");
    assert_eq!(on(true, "path.join", vec![s("C:"), s("b")]), "C:b");
    assert_eq!(on(true, "path.join", vec![s("C:\\a"), s("\\b")]), "C:\\b");
    assert_eq!(on(true, "path.join", vec![s("a"), s("D:\\b")]), "D:\\b");
    assert_eq!(on(true, "path.basename", vec![s("C:\\a\\b.txt")]), "b.txt");
    assert_eq!(on(false, "path.basename", vec![s("C:\\a\\b.txt")]), "C:\\a\\b.txt");
    assert_eq!(on(true, "path.dirname", vec![s("C:\\a\\b.txt")]), "C:\\a");
    assert_eq!(on(true, "path.dirname", vec![s("C:\\b.txt")]), "C:\\");
    assert_eq!(on(true, "path.dirname", vec![s("b.txt")]), ".");
    assert_eq!(on(true, "path.dirname", vec![s("\\\\s\\h\\x")]), "\\\\s\\h\\");
    assert_eq!(on(false, "path.dirname", vec![s("a/b/")]), "a");
}

#[test]
fn offsets_before_a_block_are_out_of_bounds() {
    let mut w = World::new(1);
    asked(&mut w, "ptr.alloc", vec![Value::Int(8)], Reply::Addr(4096));
    let at = |off: i64| vec![Value::Ptr(4096), Value::Int(off)];
    assert_eq!(error(call(&mut w, &place(), "ptr.read_int", &at(-1))).code, codes::PTR_OOB);
    assert_eq!(error(call(&mut w, &place(), "ptr.read_int", &at(1))).code, codes::PTR_OOB);
    let other = vec![Value::Ptr(8), Value::Int(-1)];
    assert_eq!(error(call(&mut w, &place(), "ptr.read_int", &other)).code, codes::PTR_INVALID);
}

#[test]
fn bytes_of_a_block_are_read_back() {
    let mut b = [9u8; 12];
    hone::memory::write(&mut b, 2, 8, 0x0102_0304_0506_0708);
    assert_eq!(b, [9, 9, 8, 7, 6, 5, 4, 3, 2, 1, 9, 9]);
    assert_eq!(hone::memory::read(&b, 2, 8), 0x0102_0304_0506_0708);
    hone::memory::write(&mut b, 11, 1, 0x1ff);
    assert_eq!(hone::memory::read(&b, 11, 1), 0xff);
    assert_eq!(b[10], 9);
}

#[test]
fn a_shell_that_cannot_start_is_a_failed_call() {
    let mut w = World::new(1);
    let (q, o) = asked(&mut w, "sys.run", vec![s("x")], Reply::Trouble(IoKind::NotFound, "no shell".to_string()));
    assert!(matches!(q, Request::Run(c) if c == "x"));
    assert_eq!(error(o).code, codes::SYSCALL);
    let (_, o) = asked(&mut w, "sys.run", vec![s("x")], Reply::Output(b"out".to_vec(), b"err".to_vec()));
    assert_eq!(show(&value(o)), "outerr");
}

#[test]
fn equal_errors_and_addresses_are_found() {
    let l = Value::List(vec![Value::Ptr(8), Value::Null]);
    assert_eq!(given("index_of", vec![l.dup(), Value::Null]), "1");
    assert_eq!(given("contains", vec![l.dup(), Value::Ptr(8)]), "true");
    assert_eq!(given("contains", vec![l, Value::Ptr(9)]), "false");
}

#[test]
fn json_errors_come_in_the_order_of_the_items() {
    let mut deep = Value::Int(1);
    for _ in 0..130 {
        deep = Value::List(vec![deep]);
    }
    let l = Value::List(vec![deep, Value::Ptr(8)]);
    let (code, msg) = refused("json_stringify", vec![l]);
    assert_eq!(code, codes::TYPE_MISMATCH);
    assert!(msg.contains("list item"), "{}", msg);
    let (_, msg) = refused("json_stringify", vec![Value::List(vec![Value::Ptr(8), s("x")])]);
    assert!(msg.contains("`ptr`"), "{}", msg);
}

#[test]
fn flat_lists_come_back_from_json() {
    let v = Value::List(vec![s("a\"b"), s("gr\u{fc}n"), s(""), Value::Int(-7), Value::Bool(true), Value::Null]);
    let t = given("json_stringify", vec![v.dup()]);
    assert!(value(call(&mut World::new(1), &place(), "json_parse", &vec![s(&t)])).same(&v));
}

#[test]
fn times_with_zones_are_read() {
    let at = |t: &str| given("time.parse", vec![s(t), s("YYYY-MM-DD HH:mm:SS")]);
    assert_eq!(at("1970-01-02 00:00:00"), "86400");
    assert_eq!(at("1970-01-02T00:00:00Z"), "86400");
    assert_eq!(at("1970-01-02T01:00:00+01:00"), "86400");
    assert_eq!(at("1970-01-01T22:30:00-01:30"), "86400");
}

fn gzip(data: &[u8]) -> Vec<u8> {
    let mut gz = flate2::write::GzEncoder::new(Vec::new(), flate2::Compression::default());
    std::io::Write::write_all(&mut gz, data).unwrap();
    gz.finish().unwrap()
}

fn tar_header(name: &[u8], kind: u8, size: [u8; 12], extended: u8) -> Vec<u8> {
    let mut h = vec![0u8; 512];
    h[..name.len()].copy_from_slice(name);
    h[124..136].copy_from_slice(&size);
    h[156] = kind;
    h[257..265].copy_from_slice(b"ustar  \0");
    h[482] = extended;
    h[148..156].copy_from_slice(b"        ");
    let sum: u32 = h.iter().map(|x| *x as u32).sum();
    h[148..156].copy_from_slice(format!("{:06o}\0 ", sum).as_bytes());
    h
}

#[test]
fn sizes_that_cannot_be_counted_are_refused() {
    let mut size = [0xffu8; 12];
    size[0] = 0x80;
    size[10] = 0xfc;
    size[11] = 0;
    let mut data = tar_header(b"x", b'S', size, 1);
    data.extend_from_slice(&[0u8; 1024]);
    let e = error(tgz_list(&place(), "x", &gzip(&data)));
    assert!(e.msg.contains("cannot be counted"), "{}", e.msg);
    let mut small = *b"00000000000\0";
    small[10] = b'0';
    let mut data = tar_header(b"x", b'0', small, 1);
    data.extend_from_slice(&[0u8; 1024]);
    assert_eq!(show(&value(tgz_list(&place(), "x", &gzip(&data)))), "[x]");
}

#[test]
fn names_that_are_no_text_follow_the_system() {
    let mut data = tar_header(b"\xffa", b'0', *b"00000000002\0", 0);
    data.extend_from_slice(b"hi");
    data.extend_from_slice(&[0u8; 510 + 1024]);
    let b = gzip(&data);
    assert_eq!(show(&value(tgz_list(&place(), "x", &b))), "[\u{fffd}a]");
    assert_eq!(show(&value(tgz_list(&windows_place(), "x", &b))), "[]");
    assert_eq!(show(&value(tgz_read(&place(), "x", "\u{fffd}a", &b))), "hi");
    assert_eq!(error(tgz_read(&windows_place(), "x", "\u{fffd}a", &b)).code, codes::NOT_FOUND);
}

#[test]
fn cut_tar_files_give_what_they_have() {
    let mut data = tar_header(b"a", b'0', *b"00000000002\0", 0);
    data.extend_from_slice(b"hi");
    data.extend_from_slice(&[0u8; 510]);
    data.extend_from_slice(&tar_header(b"b", b'0', *b"00000001000\0", 0));
    let b = gzip(&data);
    assert_eq!(show(&value(tgz_read(&place(), "x", "a", &b))), "hi");
    assert!(error(tgz_list(&place(), "x", &b[..b.len() - 9])).msg.contains("cannot read tar entry"));
    assert!(error(tgz_list(&place(), "x", b"no gzip")).msg.contains("cannot read tar entry"));
}

#[test]
fn names_that_are_no_paths_are_refused() {
    match tgz_pack(&vec![("../x".to_string(), b"x".to_vec())]) {
        Reply::PackTrouble(Some(n), _) => assert_eq!(n, "../x"),
        _ => panic!("packed"),
    }
    let o = finish(
        &mut World::new(1),
        &place(),
        Pending::TgzPacked("o".to_string()),
        Reply::PackTrouble(None, "full".to_string()),
    );
    assert_eq!(error(o).msg, "cannot finalize tar.gz `o`: full");
}

#[test]
fn nested_lists_come_back_from_json() {
    let mut v = Value::List(vec![s("x"), Value::Int(i64::MIN), Value::Null]);
    for i in 0..90 {
        v = Value::List(vec![Value::Int(i), v, Value::List(vec![])]);
    }
    let t = given("json_stringify", vec![v.dup()]);
    assert!(value(call(&mut World::new(1), &place(), "json_parse", &vec![s(&t)])).same(&v));
}

#[test]
fn white_space_of_all_scripts_is_trimmed() {
    assert_eq!(given("str_trim", vec![s("\u{3000}\u{85} x\u{2009}\n")]), "x");
    assert_eq!(given("str_trim", vec![s("\u{200b}x")]), "\u{200b}x");
}

#[test]
fn a_request_is_answered_once() {
    let mut w = World::new(1);
    let id = w.server.arrive("GET".to_string(), "/".to_string(), "".to_string());
    let a = || vec![Value::Int(id as i64), s("ok"), Value::Int(404)];
    value(call(&mut w, &place(), "server.poll", &vec![]));
    match call(&mut w, &place(), "server.respond", &a()) {
        Out::Ask(Request::Deliver(k, 404, b), then) => {
            assert_eq!((k, b.as_str()), (id, "ok"));
            assert_eq!(show(&value(finish(&mut w, &place(), then, Reply::Done))), "true");
        }
        _ => panic!("nothing to deliver"),
    }
    assert_eq!(show(&value(call(&mut w, &place(), "server.respond", &a()))), "false");
}
