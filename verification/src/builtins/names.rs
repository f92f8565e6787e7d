//! The names of the functions that the language has by itself.

use vstd::prelude::*;

use crate::text::eq;

verus! {

/// The names of the built-in functions.
pub open spec fn names() -> Seq<Seq<char>> {
    seq![
        "print"@,
        "len"@,
        "append"@,
        "clone"@,
        "copy"@,
        "contains"@,
        "index_of"@,
        "keys"@,
        "values"@,
        "has_key"@,
        "is_int"@,
        "is_float"@,
        "is_str"@,
        "is_bool"@,
        "is_list"@,
        "is_dict"@,
        "is_null"@,
        "type_of"@,
        "assert"@,
        "to_str"@,
        "to_int"@,
        "to_float"@,
        "read_file"@,
        "write_file"@,
        "file_exists"@,
        "abs"@,
        "max"@,
        "min"@,
        "str_contains"@,
        "str_replace"@,
        "str_trim"@,
        "time.now"@,
        "time.sleep"@,
        "time.format"@,
        "time.parse"@,
        "random.int"@,
        "random.float"@,
        "http_get"@,
        "http_post"@,
        "json_parse"@,
        "json_stringify"@,
        "sys.run"@,
        "sys.get_env"@,
        "sys.msgbox"@,
        "sys.beep"@,
        "sys.clipboard_set"@,
        "sys.get_screen_size"@,
        "sys.reg_read"@,
        "sys.reg_write"@,
        "server.listen"@,
        "server.poll"@,
        "server.respond"@,
        "ptr.alloc"@,
        "ptr.free"@,
        "ptr.is_null"@,
        "ptr.is_valid"@,
        "ptr.size"@,
        "ptr.read_int"@,
        "ptr.read_float"@,
        "ptr.read_byte"@,
        "ptr.write_int"@,
        "ptr.write_float"@,
        "ptr.write_byte"@,
        "log.info"@,
        "log.warn"@,
        "log.error"@,
        "log.debug"@,
        "path.join"@,
        "path.dirname"@,
        "path.basename"@,
        "args.get"@,
        "args.has"@,
        "env.get"@,
        "env.set"@,
        "db.set"@,
        "db.get"@,
        "regex.match"@,
        "regex.replace"@,
        "crypto.md5"@,
        "crypto.sha1"@,
        "crypto.sha256"@,
        "crypto.hmac_sha256"@,
        "crypto.base64_encode"@,
        "crypto.base64_decode"@,
        "archive.zip_list"@,
        "archive.zip_read"@,
        "archive.zip_extract"@,
        "archive.zip_create"@,
        "archive.tgz_list"@,
        "archive.tgz_read"@,
        "archive.tgz_extract"@,
        "archive.tgz_create"@,
        "plugin.load"@,
        "plugin.has"@,
        "plugin.list"@,
        "plugin.unload"@,
        "uuid.new"@,
    ]
}

/// The texts of a row of text slices.
pub open spec fn slices(v: Seq<&'static str>) -> Seq<Seq<char>> {
    v.map_values(|s: &'static str| s@)
}

/// The names of the built-in functions.
pub fn builtin_names() -> (r: Vec<&'static str>)
    ensures
        slices(r@) == names(),
{
    let r: Vec<&'static str> = vec![
        "print",
        "len",
        "append",
        "clone",
        "copy",
        "contains",
        "index_of",
        "keys",
        "values",
        "has_key",
        "is_int",
        "is_float",
        "is_str",
        "is_bool",
        "is_list",
        "is_dict",
        "is_null",
        "type_of",
        "assert",
        "to_str",
        "to_int",
        "to_float",
        "read_file",
        "write_file",
        "file_exists",
        "abs",
        "max",
        "min",
        "str_contains",
        "str_replace",
        "str_trim",
        "time.now",
        "time.sleep",
        "time.format",
        "time.parse",
        "random.int",
        "random.float",
        "http_get",
        "http_post",
        "json_parse",
        "json_stringify",
        "sys.run",
        "sys.get_env",
        "sys.msgbox",
        "sys.beep",
        "sys.clipboard_set",
        "sys.get_screen_size",
        "sys.reg_read",
        "sys.reg_write",
        "server.listen",
        "server.poll",
        "server.respond",
        "ptr.alloc",
        "ptr.free",
        "ptr.is_null",
        "ptr.is_valid",
        "ptr.size",
        "ptr.read_int",
        "ptr.read_float",
        "ptr.read_byte",
        "ptr.write_int",
        "ptr.write_float",
        "ptr.write_byte",
        "log.info",
        "log.warn",
        "log.error",
        "log.debug",
        "path.join",
        "path.dirname",
        "path.basename",
        "args.get",
        "args.has",
        "env.get",
        "env.set",
        "db.set",
        "db.get",
        "regex.match",
        "regex.replace",
        "crypto.md5",
        "crypto.sha1",
        "crypto.sha256",
        "crypto.hmac_sha256",
        "crypto.base64_encode",
        "crypto.base64_decode",
        "archive.zip_list",
        "archive.zip_read",
        "archive.zip_extract",
        "archive.zip_create",
        "archive.tgz_list",
        "archive.tgz_read",
        "archive.tgz_extract",
        "archive.tgz_create",
        "plugin.load",
        "plugin.has",
        "plugin.list",
        "plugin.unload",
        "uuid.new",
    ];
    assert(slices(r@) =~= names());
    r
}

/// Whether a name is that of a built-in function.
pub fn is_builtin(name: &str) -> (r: bool)
    ensures
        r == names().contains(name@),
{
    let all = builtin_names();
    let mut i: usize = 0;
    while i < all.len()
        invariant
            i <= all.len(),
            slices(all@) == names(),
            forall|j: int| 0 <= j < i ==> names()[j] != name@,
        decreases all.len() - i,
    {
        assert(names()[i as int] == slices(all@)[i as int]);
        if eq(all[i], name) {
            return true;
        }
        i = i + 1;
    }
    assert(slices(all@).len() == all@.len());
    false
}

} // verus!
