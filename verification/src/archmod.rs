//! Archives: listing, reading, unpacking and making zip and tar.gz files.

use vstd::prelude::*;
use vstd::utf8::{decode_utf8, encode_utf8, valid_utf8};

use crate::builtins::path::{find_sep, is_sep, next_sep, prefix, prefix_len, sep};
use crate::builtins::digest::bytes_r;
use crate::builtins::http::utf8_text;
use crate::builtins::world::{
    entries_b, fail, failed, fault, unpacks_v, Out, OutV, Pending, PendingV, Place, PlaceV, Reply, ReplyV, Request,
    RequestV, Unpack, UnpackV,
};
use crate::bytes::{lemma_text, part, read_text, text_of};
use crate::error::{codes, opt_text, ErrV, ZError};
use crate::gunzip::{look_through, tame, unzipped, Seen};
use crate::text::{cat2, cat3, cat4, cat5, chars, dec, dec_usize, eq, slice, strs};
use crate::value::{dict_v, value_v, values_v, Value, ValueV};
use crate::words::pieces_at;

verus! {

/// Why an entry of a zip file cannot be had.
pub enum EntryFail {
    /// The file is no zip file.
    Invalid(String),
    /// There is no such entry.
    Missing(String),
    /// The entry cannot be unpacked.
    Unreadable(String),
}

/// Why an entry cannot be had, mathematically.
pub enum EntryFailV {
    Invalid(Seq<char>),
    Missing(Seq<char>),
    Unreadable(Seq<char>),
}

/// The mathematical form of names or a message.
pub open spec fn names_r(r: Result<Vec<String>, String>) -> Result<Seq<Seq<char>>, Seq<char>> {
    match r {
        Ok(v) => Ok(strs(v@)),
        Err(e) => Err(e@),
    }
}

/// The mathematical form of an entry.
pub open spec fn entry_r(r: Result<Vec<u8>, EntryFail>) -> Result<Seq<u8>, EntryFailV> {
    match r {
        Ok(b) => Ok(b@),
        Err(EntryFail::Invalid(e)) => Err(EntryFailV::Invalid(e@)),
        Err(EntryFail::Missing(e)) => Err(EntryFailV::Missing(e@)),
        Err(EntryFail::Unreadable(e)) => Err(EntryFailV::Unreadable(e@)),
    }
}

/// The names of the entries of a zip file, or why it is none.
pub uninterp spec fn zip_names_of(bytes: Seq<u8>) -> Result<Seq<Seq<char>>, Seq<char>>;

/// The names of the entries of a zip file (`zip::ZipArchive::new` on the bytes and
/// `ZipArchive::file_names`), or the text of the error: they depend on the bytes alone.
#[verifier::external_body]
pub(crate) fn zip_names(bytes: &[u8]) -> (r: Result<Vec<String>, String>)
    ensures
        names_r(r) == zip_names_of(bytes@),
{
    let opened = zip::ZipArchive::new(std::io::Cursor::new(bytes));
    opened.map(|z| z.file_names().map(|n| n.to_string()).collect()).map_err(|e| e.to_string())
}

/// The content of an entry of a zip file, or why it cannot be had.
pub uninterp spec fn zip_entry_of(bytes: Seq<u8>, name: Seq<char>) -> Result<Seq<u8>, EntryFailV>;

/// The content of an entry of a zip file (`zip::ZipArchive::new` on the bytes,
/// `ZipArchive::by_name` and reading to the end), or which of the three went wrong with the
/// text of the error: it depends on the bytes and the name alone.
#[verifier::external_body]
pub(crate) fn zip_entry(bytes: &[u8], name: &str) -> (r: Result<Vec<u8>, EntryFail>)
    ensures
        entry_r(r) == zip_entry_of(bytes@, name@),
{
    let opened = zip::ZipArchive::new(std::io::Cursor::new(bytes));
    let mut z = opened.map_err(|e| EntryFail::Invalid(e.to_string()))?;
    let mut f = z.by_name(name).map_err(|e| EntryFail::Missing(e.to_string()))?;
    let mut data = Vec::new();
    let read = std::io::Read::read_to_end(&mut f, &mut data);
    read.map(|_| data).map_err(|e| EntryFail::Unreadable(e.to_string()))
}

/// A zip file in the making.
#[verifier::external_body]
pub struct ZipPack {
    w: zip::ZipWriter<std::io::Cursor<Vec<u8>>>,
}

/// The entries that a zip file in the making holds, in order.
pub uninterp spec fn zip_holds(z: ZipPack) -> Seq<(Seq<char>, Seq<u8>)>;

/// No entries.
pub open spec fn no_entries() -> Seq<(Seq<char>, Seq<u8>)> {
    Seq::empty()
}

/// An empty zip file in the making (`zip::ZipWriter::new` on no bytes).
#[verifier::external_body]
pub(crate) fn zip_new() -> (r: ZipPack)
    ensures
        zip_holds(r) == no_entries(),
{
    ZipPack { w: zip::ZipWriter::new(std::io::Cursor::new(Vec::new())) }
}

/// Why an entry cannot be added: at its start or at its content.
pub enum AddFail {
    Start(String),
    Write(String),
}

/// Why an entry cannot be added, mathematically.
pub enum AddFailV {
    Start(Seq<char>),
    Write(Seq<char>),
}

/// The mathematical form of an addition.
pub open spec fn added_r(r: Result<(), AddFail>) -> Option<AddFailV> {
    match r {
        Ok(_) => None,
        Err(AddFail::Start(e)) => Some(AddFailV::Start(e@)),
        Err(AddFail::Write(e)) => Some(AddFailV::Write(e@)),
    }
}

/// Why an entry cannot be added behind entries, if it cannot.
pub uninterp spec fn zip_add_fault(holds: Seq<(Seq<char>, Seq<u8>)>, name: Seq<char>, data: Seq<u8>) -> Option<
    AddFailV,
>;

/// How many bytes the name of an entry of a zip file may have.
pub const NAME_LIMIT: usize = 65535;

/// Whether one of the entries has a name.
pub open spec fn has_entry(holds: Seq<(Seq<char>, Seq<u8>)>, name: Seq<char>) -> bool {
    exists|i: int| 0 <= i < holds.len() && (#[trigger] holds[i]).0 == name
}

/// Adds an entry, compressed by deflate (`ZipWriter::start_file` with the default options and
/// writing the content), or tells which of the two went wrong with the text of the error:
/// that depends on the entries and the new one alone. No two entries have the same name. A
/// name of more than 65535 bytes is left out: `start_file` panics on it.
#[verifier::external_body]
pub(crate) fn zip_add(z: &mut ZipPack, name: &str, data: &Vec<u8>) -> (r: Result<(), AddFail>)
    requires
        encode_utf8(name@).len() <= NAME_LIMIT,
    ensures
        added_r(r) == zip_add_fault(zip_holds(*old(z)), name@, data@),
        r is Ok ==> !has_entry(zip_holds(*old(z)), name@),
        r is Ok ==> zip_holds(*final(z)) == zip_holds(*old(z)).push((name@, data@)),
{
    let method = zip::CompressionMethod::Deflated;
    let opts = zip::write::SimpleFileOptions::default().compression_method(method);
    z.w.start_file(name, opts).map_err(|e| AddFail::Start(e.to_string()))?;
    std::io::Write::write_all(&mut z.w, data).map_err(|e| AddFail::Write(e.to_string()))
}

/// The zip file of entries, or why there is none.
pub uninterp spec fn zip_file(holds: Seq<(Seq<char>, Seq<u8>)>) -> Result<Seq<u8>, Seq<char>>;

/// The names of entries.
pub open spec fn names_of(es: Seq<(Seq<char>, Seq<u8>)>) -> Seq<Seq<char>> {
    es.map_values(|e: (Seq<char>, Seq<u8>)| e.0)
}

/// How many bytes entries have, their names and some room for each counted.
pub open spec fn weight(es: Seq<(Seq<char>, Seq<u8>)>, n: int) -> int
    decreases n,
{
    if n <= 0 || n > es.len() {
        0
    } else {
        weight(es, n - 1) + encode_utf8(es[n - 1].0).len() + es[n - 1].1.len() + 200
    }
}

/// Whether a zip file of entries does without the extension for large files.
pub open spec fn classic(es: Seq<(Seq<char>, Seq<u8>)>) -> bool {
    es.len() < 65535 && weight(es, es.len() as int) < 0x8000_0000
}

/// Whether a zip file gives back entries: their names in order, and the content of each.
pub open spec fn zip_reads_back(es: Seq<(Seq<char>, Seq<u8>)>, bytes: Seq<u8>) -> bool {
    &&& zip_names_of(bytes) == Ok::<Seq<Seq<char>>, Seq<char>>(names_of(es))
    &&& forall|i: int|
        0 <= i < es.len() ==> zip_entry_of(bytes, (#[trigger] es[i]).0) == Ok::<Seq<u8>, EntryFailV>(es[i].1)
}

/// The finished zip file (`ZipWriter::finish`), or the text of the error: it depends on the
/// entries alone. `ZipArchive` reads the entries back from it; of files that need the
/// extension for large files this is not said.
#[verifier::external_body]
pub(crate) fn zip_finish(z: ZipPack) -> (r: Result<Vec<u8>, String>)
    ensures
        bytes_r(r) == zip_file(zip_holds(z)),
        classic(zip_holds(z)) ==> (r matches Ok(b) ==> zip_reads_back(zip_holds(z), b@)),
{
    z.w.finish().map(|c| c.into_inner()).map_err(|e| e.to_string())
}

/// The head of an entry of a tar.gz file: its name as it stands there, whether it is a
/// directory, and the size of its content.
pub struct TarHead {
    pub name: Vec<u8>,
    pub dir: bool,
    pub size: u64,
}

/// The head of an entry of a tar.gz file, mathematically.
pub struct TarHeadV {
    pub name: Seq<u8>,
    pub dir: bool,
    pub size: u64,
}

/// The head of an entry, or why it cannot be had, mathematically.
pub type HeadV = Result<TarHeadV, Seq<char>>;

/// The mathematical form of the head of an entry or a message.
pub open spec fn head_v(r: Result<TarHead, String>) -> HeadV {
    match r {
        Ok(h) => Ok(TarHeadV { name: h.name@, dir: h.dir, size: h.size }),
        Err(e) => Err(e@),
    }
}

/// The mathematical form of the heads of entries.
pub open spec fn heads_v(v: Seq<Result<TarHead, String>>) -> Seq<HeadV> {
    v.map_values(|r: Result<TarHead, String>| head_v(r))
}

/// The mathematical form of the heads of entries or a message.
pub open spec fn heads_r(r: Result<Vec<Result<TarHead, String>>, String>) -> Result<Seq<HeadV>, Seq<char>> {
    match r {
        Ok(v) => Ok(heads_v(v@)),
        Err(e) => Err(e@),
    }
}

/// The heads of the entries of a tar.gz file in order, up to one that cannot be had, or why it
/// is none.
pub uninterp spec fn tgz_heads_of(bytes: Seq<u8>) -> Result<Seq<HeadV>, Seq<char>>;

/// The heads of the entries of a tar.gz file (`Archive::entries` of tar over as much of the
/// `GzDecoder` of flate2 as can be unzipped, and of each entry `path_bytes`, whether it is a
/// directory and its size), or the text of the error: it depends on the bytes alone. A header
/// with a size that cannot be counted is left out.
#[verifier::external_body]
pub(crate) fn tgz_heads(bytes: &[u8], len: u64) -> (r: Result<Vec<Result<TarHead, String>>, String>)
    requires
        len == unzipped(bytes@).0.len(),
        tame(unzipped(bytes@).0),
    ensures
        heads_r(r) == tgz_heads_of(bytes@),
{
    let gz = flate2::read::GzDecoder::new(bytes);
    let mut ar = tar::Archive::new(std::io::Read::take(gz, len));
    let es = ar.entries().map_err(|e| e.to_string())?;
    Ok(es
        .map(|e| match e {
            Ok(e) => Ok(TarHead {
                name: e.path_bytes().into_owned(),
                dir: e.header().entry_type().is_dir(),
                size: e.size(),
            }),
            Err(e) => Err(e.to_string()),
        })
        .collect())
}

/// The content of an entry of a tar.gz file, or why it cannot be had.
pub uninterp spec fn tgz_data_of(bytes: Seq<u8>, i: usize) -> Result<Seq<u8>, Seq<char>>;

/// The content of the entry of a tar.gz file at a place (`Archive::entries` of tar over as much
/// of the `GzDecoder` of flate2 as can be unzipped, and `Read::read_to_end` of the entry), or the
/// text of the error: it depends on the bytes and the place alone. A header with a size that
/// cannot be counted is left out.
#[verifier::external_body]
pub(crate) fn tgz_data(bytes: &[u8], len: u64, i: usize) -> (r: Result<Vec<u8>, String>)
    requires
        len == unzipped(bytes@).0.len(),
        tame(unzipped(bytes@).0),
    ensures
        bytes_r(r) == tgz_data_of(bytes@, i),
{
    let gz = flate2::read::GzDecoder::new(bytes);
    let mut ar = tar::Archive::new(std::io::Read::take(gz, len));
    let mut es = ar.entries().map_err(|e| e.to_string())?;
    let mut e = es.nth(i).ok_or_else(|| "no such entry".to_string())?.map_err(|e| e.to_string())?;
    let mut data = Vec::new();
    std::io::Read::read_to_end(&mut e, &mut data).map_err(|e| e.to_string())?;
    Ok(data)
}

/// A tar.gz file in the making.
#[verifier::external_body]
pub struct TgzPack {
    b: tar::Builder<flate2::write::GzEncoder<Vec<u8>>>,
}

/// The entries that a tar.gz file in the making holds, in order.
pub uninterp spec fn tgz_holds(t: TgzPack) -> Seq<(Seq<char>, Seq<u8>)>;

/// An empty tar.gz file in the making (`tar::Builder::new` over the `GzEncoder` of flate2).
#[verifier::external_body]
pub(crate) fn tgz_new() -> (r: TgzPack)
    ensures
        tgz_holds(r) == no_entries(),
{
    let gz = flate2::write::GzEncoder::new(Vec::new(), flate2::Compression::default());
    TgzPack { b: tar::Builder::new(gz) }
}

/// Why an entry cannot be added behind entries, if it cannot.
pub uninterp spec fn tgz_add_fault(holds: Seq<(Seq<char>, Seq<u8>)>, name: Seq<char>, data: Seq<u8>) -> Option<
    Seq<char>,
>;

/// Adds an entry that all may read and its owner may write (`tar::Builder::append_data` with
/// a GNU header), or gives the text of the error: among plain paths that depends on the entries
/// and the new one alone. Which other names are refused depends on the system, and is not said.
#[verifier::external_body]
pub(crate) fn tgz_add(t: &mut TgzPack, name: &str, data: &Vec<u8>) -> (r: Option<String>)
    ensures
        plain_paths(tgz_holds(*old(t)).push((name@, data@))) ==> opt_text(r) == tgz_add_fault(
            tgz_holds(*old(t)),
            name@,
            data@,
        ),
        r is None ==> tgz_holds(*final(t)) == tgz_holds(*old(t)).push((name@, data@)),
{
    let mut header = tar::Header::new_gnu();
    header.set_size(data.len() as u64);
    header.set_mode(0o644);
    header.set_cksum();
    t.b.append_data(&mut header, name, data.as_slice()).err().map(|e| e.to_string())
}

/// The tar.gz file of entries, or why there is none.
pub uninterp spec fn tgz_file(holds: Seq<(Seq<char>, Seq<u8>)>) -> Result<Seq<u8>, Seq<char>>;

/// Whether a character stands for itself in the path of an entry.
pub open spec fn path_char(c: char) -> bool {
    c != '\0' && c != '\\' && c != ':'
}

/// Whether a part of a path names something.
pub open spec fn path_part(s: Seq<char>) -> bool {
    s.len() > 0 && s != "."@ && s != ".."@
}

/// Whether a name is a path that is written out as it is: parts between slashes, none of
/// which is empty or made of points alone.
pub open spec fn plain_path(name: Seq<char>) -> bool {
    &&& forall|i: int| 0 <= i < name.len() ==> path_char(#[trigger] name[i])
    &&& forall|i: int| 0 <= i < pieces_at(name, '/').len() ==> path_part(#[trigger] pieces_at(name, '/')[i])
}

/// Whether all entries have a plain path.
pub open spec fn plain_paths(es: Seq<(Seq<char>, Seq<u8>)>) -> bool {
    forall|i: int| 0 <= i < es.len() ==> plain_path((#[trigger] es[i]).0)
}

/// The head of an entry as it is read back.
pub open spec fn file_head(e: (Seq<char>, Seq<u8>)) -> HeadV {
    Ok(TarHeadV { name: encode_utf8(e.0), dir: false, size: e.1.len() as u64 })
}

/// The heads of entries as they are read back.
pub open spec fn file_heads(es: Seq<(Seq<char>, Seq<u8>)>) -> Seq<HeadV> {
    es.map_values(|e: (Seq<char>, Seq<u8>)| file_head(e))
}

/// Whether a tar.gz file gives back entries: their heads, and the content of each.
pub open spec fn tgz_reads_back(es: Seq<(Seq<char>, Seq<u8>)>, bytes: Seq<u8>) -> bool {
    &&& unzipped(bytes).1 is None
    &&& tgz_heads_of(bytes) == Ok::<Seq<HeadV>, Seq<char>>(file_heads(es))
    &&& forall|i: int|
        0 <= i < es.len() ==> tgz_data_of(bytes, i as usize) == Ok::<Seq<u8>, Seq<char>>((#[trigger] es[i]).1)
}

/// The finished tar.gz file (`tar::Builder::into_inner`, which ends the archive, and
/// `GzEncoder::finish`), or the text of the error. Of entries with plain paths it depends on
/// the entries alone, and they are read back from it by `Archive::entries` over `GzDecoder`;
/// other paths are written in another form that depends on the system, which is not said.
#[verifier::external_body]
pub(crate) fn tgz_finish(t: TgzPack) -> (r: Result<Vec<u8>, String>)
    ensures
        plain_paths(tgz_holds(t)) ==> bytes_r(r) == tgz_file(tgz_holds(t)),
        plain_paths(tgz_holds(t)) ==> (r matches Ok(b) ==> tgz_reads_back(tgz_holds(t), b@)),
{
    t.b.into_inner().and_then(|gz| gz.finish()).map_err(|e| e.to_string())
}

/// The text at a place of the arguments.
pub open spec fn text_at(p: PlaceV, a: Seq<ValueV>, i: int) -> Result<Seq<char>, OutV> {
    match a[i] {
        ValueV::Str(s) => Ok(s),
        v => Err(
            failed(
                p,
                codes::TYPE_MISMATCH@,
                "`archive.*` expects a string for argument "@ + dec((i + 1) as nat) + ", got `"@ + v.type_text() + "`"@,
                None,
            ),
        ),
    }
}

fn as_str<'a>(p: &Place, a: &'a Vec<Value>, i: usize) -> (r: Result<&'a str, Out>)
    requires
        i < a.len(),
    ensures
        match r {
            Ok(s) => text_at(p@, values_v(a@), i as int) == Ok::<Seq<char>, OutV>(s@),
            Err(o) => text_at(p@, values_v(a@), i as int) == Err::<Seq<char>, OutV>(o@),
        },
{
    assert(values_v(a@)[i as int] == a@[i as int]@);
    match &a[i] {
        Value::Str(s) => Ok(s.as_str()),
        v => {
            let mut msg = cat3(
                "`archive.*` expects a string for argument ",
                dec_usize(i + 1).as_str(),
                ", got `",
            );
            msg.append(v.kind_name());
            msg.append("`");
            Err(fail(p, codes::TYPE_MISMATCH, msg.as_str(), None))
        },
    }
}

/// Whether a part of a path from `i` on leads upwards.
pub open spec fn leads_up(windows: bool, s: Seq<char>, i: int) -> bool
    decreases s.len() - i,
{
    if i < 0 || i > s.len() {
        false
    } else {
        let e = next_sep(windows, s, i);
        s.subrange(i, e) == ".."@ || (i <= e < s.len() && leads_up(windows, s, e + 1))
    }
}

/// Whether an entry stays inside the directory that it is unpacked into: its path is not
/// absolute, names no drive and no share, and no part of it leads upwards.
pub open spec fn is_safe(windows: bool, name: Seq<char>) -> bool {
    prefix(windows, name) == 0 && !(name.len() > 0 && sep(windows, name[0])) && !leads_up(windows, name, 0)
}

/// Whether an entry stays inside the directory that it is unpacked into.
pub fn safe_entry(windows: bool, name: &str) -> (r: bool)
    ensures
        r == is_safe(windows, name@),
{
    let v = chars(name);
    let n: usize = v.len();
    if prefix_len(windows, &v) > 0 {
        return false;
    }
    if n > 0 && is_sep(windows, v[0]) {
        return false;
    }
    let mut i: usize = 0;
    loop
        invariant
            i <= n,
            n == v.len(),
            v@ == name@,
            prefix(windows, name@) == 0,
            !(name@.len() > 0 && sep(windows, name@[0])),
            leads_up(windows, name@, 0) == leads_up(windows, name@, i as int),
        decreases n - i,
    {
        let e = find_sep(windows, &v, i);
        let part_text = slice(&v, i, e);
        if eq(part_text.as_str(), "..") {
            return false;
        }
        if e == n {
            return true;
        }
        i = e + 1;
    }
}

/// The entries that a dictionary gives: each must be a text.
pub open spec fn entries_from(p: PlaceV, es: Seq<(Seq<char>, ValueV)>, i: int, done: Seq<(Seq<char>, Seq<u8>)>) -> Result<
    Seq<(Seq<char>, Seq<u8>)>,
    OutV,
>
    decreases es.len() - i,
{
    if i < 0 || i >= es.len() {
        Ok(done)
    } else {
        match es[i].1 {
            ValueV::Str(t) => entries_from(p, es, i + 1, done.push((es[i].0, encode_utf8(t)))),
            v => Err(
                failed(
                    p,
                    codes::TYPE_MISMATCH@,
                    "archive entry `"@ + es[i].0 + "` must be a string, got `"@ + v.type_text() + "`"@,
                    Some("entries map: {\"file.txt\": \"content\", ...}"@),
                ),
            ),
        }
    }
}

/// The entries that a value gives.
pub open spec fn entries_of(p: PlaceV, v: ValueV) -> Result<Seq<(Seq<char>, Seq<u8>)>, OutV> {
    match v {
        ValueV::Dict(es) => entries_from(p, es, 0, Seq::empty()),
        other => Err(
            failed(
                p,
                codes::TYPE_MISMATCH@,
                "`archive.*_create` expects a dict of entries, got `"@ + other.type_text() + "`"@,
                Some("entries map: {\"file.txt\": \"content\", ...}"@),
            ),
        ),
    }
}

fn entries_from_dict(p: &Place, v: &Value) -> (r: Result<Vec<(String, Vec<u8>)>, Out>)
    ensures
        match r {
            Ok(es) => entries_of(p@, v@) == Ok::<Seq<(Seq<char>, Seq<u8>)>, OutV>(entries_b(es@)),
            Err(o) => entries_of(p@, v@) == Err::<Seq<(Seq<char>, Seq<u8>)>, OutV>(o@),
        },
{
    match v {
        Value::Dict(es) => {
            let mut out: Vec<(String, Vec<u8>)> = Vec::new();
            let mut i: usize = 0;
            assert(entries_b(out@) =~= Seq::empty());
            while i < es.len()
                invariant
                    i <= es.len(),
                    v@ == ValueV::Dict(dict_v(es@)),
                    entries_of(p@, v@) == entries_from(p@, dict_v(es@), i as int, entries_b(out@)),
                decreases es.len() - i,
            {
                assert(dict_v(es@)[i as int] == (es@[i as int].0@, es@[i as int].1@));
                match &es[i].1 {
                    Value::Str(t) => {
                        let b = t.as_str().as_bytes();
                        let n: usize = b.len();
                        let data = part(b, 0, n);
                        assert(data@ =~= encode_utf8(t@));
                        let ghost was = out@;
                        out.push((es[i].0.clone(), data));
                        assert(entries_b(out@) =~= entries_b(was).push((es@[i as int].0@, data@)));
                    },
                    other => {
                        let msg = cat5(
                            "archive entry `",
                            es[i].0.as_str(),
                            "` must be a string, got `",
                            other.kind_name(),
                            "`",
                        );
                        return Err(
                            fail(
                                p,
                                codes::TYPE_MISMATCH,
                                msg.as_str(),
                                Some("entries map: {\"file.txt\": \"content\", ...}"),
                            ),
                        );
                    },
                }
                i = i + 1;
            }
            Ok(out)
        },
        other => {
            let msg = cat3("`archive.*_create` expects a dict of entries, got `", other.kind_name(), "`");
            Err(
                fail(
                    p,
                    codes::TYPE_MISMATCH,
                    msg.as_str(),
                    Some("entries map: {\"file.txt\": \"content\", ...}"),
                ),
            )
        },
    }
}

/// How many arguments a function takes at least.
pub open spec fn arch_least(name: Seq<char>) -> int {
    if name == "archive.zip_list"@ || name == "archive.tgz_list"@ {
        1
    } else {
        2
    }
}

/// The functions of archives: what is asked for.
pub open spec fn arch_fn(p: PlaceV, name: Seq<char>, a: Seq<ValueV>) -> OutV {
    match text_at(p, a, 0) {
        Err(o) => o,
        Ok(path) => if name == "archive.zip_list"@ {
            OutV::Ask(RequestV::OpenArchive(path), PendingV::ZipList(path))
        } else if name == "archive.tgz_list"@ {
            OutV::Ask(RequestV::OpenArchive(path), PendingV::TgzList(path))
        } else if name == "archive.zip_create"@ || name == "archive.tgz_create"@ {
            match entries_of(p, a[1]) {
                Err(o) => o,
                Ok(es) => OutV::Ask(
                    RequestV::CreateFile(path),
                    if name == "archive.zip_create"@ {
                        PendingV::ZipCreate(path, es)
                    } else {
                        PendingV::TgzCreate(path, es)
                    },
                ),
            }
        } else {
            match text_at(p, a, 1) {
                Err(o) => o,
                Ok(t) => if name == "archive.zip_read"@ {
                    OutV::Ask(RequestV::OpenArchive(path), PendingV::ZipRead(path, t))
                } else if name == "archive.zip_extract"@ {
                    OutV::Ask(RequestV::OpenArchive(path), PendingV::ZipExtract(path, t))
                } else if name == "archive.tgz_read"@ {
                    OutV::Ask(RequestV::OpenArchive(path), PendingV::TgzRead(path, t))
                } else if name == "archive.tgz_extract"@ {
                    OutV::Ask(RequestV::OpenArchive(path), PendingV::TgzExtract(path, t))
                } else {
                    failed(p, codes::NOT_IMPLEMENTED@, "unknown archive function `"@ + name + "`"@, None)
                },
            }
        },
    }
}

/// Calls a function of archives.
pub fn call(p: &Place, name: &str, a: &Vec<Value>) -> (r: Out)
    requires
        a.len() >= arch_least(name@),
    ensures
        r@ == arch_fn(p@, name@, values_v(a@)),
{
    let path = match as_str(p, a, 0) {
        Err(o) => return o,
        Ok(s) => s,
    };
    let open = Request::OpenArchive(path.to_owned());
    if eq(name, "archive.zip_list") {
        return Out::Ask(open, Pending::ZipList(path.to_owned()));
    }
    if eq(name, "archive.tgz_list") {
        return Out::Ask(open, Pending::TgzList(path.to_owned()));
    }
    let zip = eq(name, "archive.zip_create");
    if zip || eq(name, "archive.tgz_create") {
        assert(values_v(a@)[1] == a@[1]@);
        return match entries_from_dict(p, &a[1]) {
            Err(o) => o,
            Ok(es) => Out::Ask(
                Request::CreateFile(path.to_owned()),
                if zip {
                    Pending::ZipCreate(path.to_owned(), es)
                } else {
                    Pending::TgzCreate(path.to_owned(), es)
                },
            ),
        };
    }
    let t = match as_str(p, a, 1) {
        Err(o) => return o,
        Ok(s) => s,
    };
    if eq(name, "archive.zip_read") {
        Out::Ask(open, Pending::ZipRead(path.to_owned(), t.to_owned()))
    } else if eq(name, "archive.zip_extract") {
        Out::Ask(open, Pending::ZipExtract(path.to_owned(), t.to_owned()))
    } else if eq(name, "archive.tgz_read") {
        Out::Ask(open, Pending::TgzRead(path.to_owned(), t.to_owned()))
    } else if eq(name, "archive.tgz_extract") {
        Out::Ask(open, Pending::TgzExtract(path.to_owned(), t.to_owned()))
    } else {
        let msg = cat3("unknown archive function `", name, "`");
        fail(p, codes::NOT_IMPLEMENTED, msg.as_str(), None)
    }
}

/// An error of the system behind an archive.
pub open spec fn sys_fault(p: PlaceV, msg: Seq<char>) -> ErrV {
    fault(p, codes::SYSCALL@, msg, None)
}

/// The error of a file that cannot be opened.
pub open spec fn not_opened(p: PlaceV, path: Seq<char>, e: Seq<char>) -> OutV {
    failed(
        p,
        codes::FILE_NOT_FOUND@,
        "cannot open `"@ + path + "`: "@ + e,
        Some("check the path"@),
    )
}

/// The error of a file that cannot be opened.
pub fn open_err(p: &Place, path: &str, e: &str) -> (r: Out)
    ensures
        r@ == not_opened(p@, path@, e@),
{
    let msg = cat4("cannot open `", path, "`: ", e);
    fail(p, codes::FILE_NOT_FOUND, msg.as_str(), Some("check the path"))
}

/// Texts as values.
pub open spec fn as_values(names: Seq<Seq<char>>) -> Seq<ValueV> {
    names.map_values(|n: Seq<char>| ValueV::Str(n))
}

fn to_values(names: &Vec<String>) -> (r: Vec<Value>)
    ensures
        values_v(r@) == as_values(strs(names@)),
{
    let mut out: Vec<Value> = Vec::new();
    let mut i: usize = 0;
    while i < names.len()
        invariant
            i <= names.len(),
            out.len() == i,
            forall|k: int| 0 <= k < i ==> value_v(#[trigger] out@[k]) == ValueV::Str(names@[k]@),
        decreases names.len() - i,
    {
        out.push(Value::Str(names[i].clone()));
        i = i + 1;
    }
    assert(values_v(out@) =~= as_values(strs(names@)));
    out
}

/// The list of a zip file.
pub open spec fn zip_listed(p: PlaceV, path: Seq<char>, r: Result<Seq<Seq<char>>, Seq<char>>) -> OutV {
    match r {
        Ok(names) => OutV::Value(ValueV::List(as_values(names))),
        Err(e) => OutV::Error(sys_fault(p, "invalid zip `"@ + path + "`: "@ + e)),
    }
}

/// The list of a zip file, given what its reader gave.
pub fn zip_list_outcome(p: &Place, path: &str, r: Result<Vec<String>, String>) -> (o: Out)
    ensures
        o@ == zip_listed(p@, path@, names_r(r)),
{
    match r {
        Ok(names) => Out::Value(Value::List(to_values(&names))),
        Err(e) => {
            let msg = cat4("invalid zip `", path, "`: ", e.as_str());
            fail(p, codes::SYSCALL, msg.as_str(), None)
        },
    }
}

/// The list of a zip file.
pub fn zip_list(p: &Place, path: &str, bytes: &[u8]) -> (o: Out)
    ensures
        o@ == zip_listed(p@, path@, zip_names_of(bytes@)),
{
    zip_list_outcome(p, path, zip_names(bytes))
}

/// What a text that is no UTF-8 is told.
pub open spec fn not_text() -> Seq<char> {
    "stream did not contain valid UTF-8"@
}

/// The text of an entry of a zip file.
pub open spec fn zip_text(p: PlaceV, path: Seq<char>, entry: Seq<char>, r: Result<Seq<u8>, EntryFailV>) -> OutV {
    match r {
        Ok(b) => if valid_utf8(b) {
            OutV::Value(ValueV::Str(decode_utf8(b)))
        } else {
            OutV::Error(sys_fault(p, "cannot read zip entry `"@ + entry + "`: "@ + not_text()))
        },
        Err(EntryFailV::Invalid(e)) => OutV::Error(sys_fault(p, "invalid zip `"@ + path + "`: "@ + e)),
        Err(EntryFailV::Missing(e)) => failed(
            p,
            codes::NOT_FOUND@,
            "zip entry `"@ + entry + "` not found: "@ + e,
            Some("list entries with `archive.zip_list(path)`"@),
        ),
        Err(EntryFailV::Unreadable(e)) => OutV::Error(
            sys_fault(p, "cannot read zip entry `"@ + entry + "`: "@ + e),
        ),
    }
}

/// The text of an entry of a zip file, given what its reader gave.
pub fn zip_read_outcome(p: &Place, path: &str, entry: &str, r: Result<Vec<u8>, EntryFail>) -> (o: Out)
    ensures
        o@ == zip_text(p@, path@, entry@, entry_r(r)),
{
    match r {
        Ok(b) => match utf8_text(b) {
            Some(t) => Out::Value(Value::Str(t)),
            None => {
                let msg = cat4("cannot read zip entry `", entry, "`: ", "stream did not contain valid UTF-8");
                fail(p, codes::SYSCALL, msg.as_str(), None)
            },
        },
        Err(EntryFail::Invalid(e)) => {
            let msg = cat4("invalid zip `", path, "`: ", e.as_str());
            fail(p, codes::SYSCALL, msg.as_str(), None)
        },
        Err(EntryFail::Missing(e)) => {
            let msg = cat4("zip entry `", entry, "` not found: ", e.as_str());
            fail(
                p,
                codes::NOT_FOUND,
                msg.as_str(),
                Some("list entries with `archive.zip_list(path)`"),
            )
        },
        Err(EntryFail::Unreadable(e)) => {
            let msg = cat4("cannot read zip entry `", entry, "`: ", e.as_str());
            fail(p, codes::SYSCALL, msg.as_str(), None)
        },
    }
}

/// The text of an entry of a zip file.
pub fn zip_read(p: &Place, path: &str, entry: &str, bytes: &[u8]) -> (o: Out)
    ensures
        o@ == zip_text(p@, path@, entry@, zip_entry_of(bytes@, entry@)),
{
    zip_read_outcome(p, path, entry, zip_entry(bytes, entry))
}

/// The error of an entry that would leave the directory.
pub open spec fn unsafe_fault(p: PlaceV, name: Seq<char>) -> ErrV {
    fault(
        p,
        codes::SYSCALL@,
        "unsafe archive entry `"@ + name + "` (absolute path or `..` traversal rejected)"@,
        Some("the archive contains a suspicious path; it was not extracted"@),
    )
}

fn unsafe_err(p: &Place, name: &str) -> (r: ZError)
    ensures
        r@ == unsafe_fault(p@, name@),
{
    let msg = cat3(
        "unsafe archive entry `",
        name,
        "` (absolute path or `..` traversal rejected)",
    );
    p.fault(
        codes::SYSCALL,
        msg.as_str(),
        Some("the archive contains a suspicious path; it was not extracted"),
    )
}

/// What unpacking comes to: the steps, how many files they make, and the error that ends
/// them, if one does.
pub struct PlanV {
    pub steps: Seq<UnpackV>,
    pub files: nat,
    pub fault: Option<ErrV>,
}

/// The plan with one more entry: a directory where its name ends with a slash.
pub open spec fn planned(p: PlaceV, plan: PlanV, name: Seq<char>, dir: bool, data: Seq<u8>) -> PlanV {
    if !is_safe(p.windows, name) {
        PlanV { steps: plan.steps, files: plan.files, fault: Some(unsafe_fault(p, name)) }
    } else if dir {
        PlanV { steps: plan.steps.push(UnpackV::Dir(name)), files: plan.files, fault: None }
    } else {
        PlanV { steps: plan.steps.push(UnpackV::File(name, data)), files: plan.files + 1, fault: None }
    }
}

/// The plan that an error ends.
pub open spec fn ended(plan: PlanV, e: ErrV) -> PlanV {
    PlanV { steps: plan.steps, files: plan.files, fault: Some(e) }
}

/// The plan for the entries of a zip file from `i` on.
pub open spec fn zip_plan(p: PlaceV, path: Seq<char>, bytes: Seq<u8>, names: Seq<Seq<char>>, i: int, plan: PlanV) -> PlanV
    decreases names.len() - i,
{
    if i < 0 || i >= names.len() {
        plan
    } else {
        let n = names[i];
        match zip_entry_of(bytes, n) {
            Err(EntryFailV::Invalid(e)) => ended(plan, sys_fault(p, "invalid zip `"@ + path + "`: "@ + e)),
            Err(EntryFailV::Missing(e)) => ended(plan, sys_fault(p, "cannot open zip entry `"@ + n + "`: "@ + e)),
            Err(EntryFailV::Unreadable(e)) => ended(
                plan,
                sys_fault(p, "cannot read zip entry `"@ + n + "`: "@ + e),
            ),
            Ok(data) => {
                let next = planned(p, plan, n, n.len() > 0 && n.last() == '/', data);
                if next.fault is Some {
                    next
                } else {
                    zip_plan(p, path, bytes, names, i + 1, next)
                }
            },
        }
    }
}

/// Unpacking by a plan.
pub open spec fn unpacking(dir: Seq<char>, plan: PlanV) -> OutV {
    OutV::Ask(RequestV::UnpackInto(dir, plan.steps), PendingV::Unpacked(plan.files as i64, plan.fault))
}

/// The plan before its first step.
pub open spec fn no_plan() -> PlanV {
    PlanV { steps: Seq::empty(), files: 0, fault: None }
}

/// Unpacking a zip file.
pub open spec fn zip_unpacked(p: PlaceV, path: Seq<char>, dir: Seq<char>, bytes: Seq<u8>) -> OutV {
    match zip_names_of(bytes) {
        Err(e) => OutV::Error(sys_fault(p, "invalid zip `"@ + path + "`: "@ + e)),
        Ok(names) => unpacking(dir, zip_plan(p, path, bytes, names, 0, no_plan())),
    }
}

/// A plan of unpacking.
pub struct Plan {
    pub steps: Vec<Unpack>,
    pub files: usize,
    pub fault: Option<ZError>,
}

impl View for Plan {
    type V = PlanV;

    open spec fn view(&self) -> PlanV {
        PlanV {
            steps: unpacks_v(self.steps@),
            files: self.files as nat,
            fault: crate::builtins::world::opt_err(self.fault),
        }
    }
}

/// Adds an entry to a plan, and says whether the plan goes on.
pub fn write_entry_to(p: &Place, plan: &mut Plan, name: &str, dir: bool, data: Vec<u8>) -> (r: bool)
    requires
        old(plan)@.fault is None,
        old(plan).files < usize::MAX,
    ensures
        final(plan)@ == planned(p@, old(plan)@, name@, dir, data@),
        r == (final(plan)@.fault is None),
        final(plan).files <= old(plan).files + 1,
{
    let ghost before = plan.steps@;
    if !safe_entry(p.windows, name) {
        plan.fault = Some(unsafe_err(p, name));
        false
    } else if dir {
        plan.steps.push(Unpack::Dir(name.to_owned()));
        assert(unpacks_v(plan.steps@) =~= unpacks_v(before).push(UnpackV::Dir(name@)));
        true
    } else {
        plan.steps.push(Unpack::File(name.to_owned(), data));
        plan.files = plan.files + 1;
        assert(unpacks_v(plan.steps@) =~= unpacks_v(before).push(UnpackV::File(name@, data@)));
        true
    }
}

fn unpack_by(dir: &str, plan: Plan) -> (o: Out)
    ensures
        o@ == unpacking(dir@, plan@),
{
    Out::Ask(
        Request::UnpackInto(dir.to_owned(), plan.steps),
        Pending::Unpacked(plan.files as i64, plan.fault),
    )
}

fn new_plan() -> (r: Plan)
    ensures
        r@ == no_plan(),
        r.files == 0,
{
    let r = Plan { steps: Vec::new(), files: 0, fault: None };
    assert(unpacks_v(r.steps@) =~= Seq::empty());
    r
}

/// Unpacking a zip file.
pub fn zip_extract(p: &Place, path: &str, dir: &str, bytes: &[u8]) -> (o: Out)
    ensures
        o@ == zip_unpacked(p@, path@, dir@, bytes@),
{
    let names = match zip_names(bytes) {
        Err(e) => {
            let msg = cat4("invalid zip `", path, "`: ", e.as_str());
            return fail(p, codes::SYSCALL, msg.as_str(), None);
        },
        Ok(v) => v,
    };
    let mut plan = new_plan();
    let ghost all = strs(names@);
    let ghost goal = zip_plan(p@, path@, bytes@, all, 0, no_plan());
    let mut i: usize = 0;
    while i < names.len()
        invariant
            i <= names.len(),
            all == strs(names@),
            zip_names_of(bytes@) == Ok::<Seq<Seq<char>>, Seq<char>>(all),
            goal == zip_plan(p@, path@, bytes@, all, 0, no_plan()),
            plan@.fault is None,
            plan.files <= i,
            zip_plan(p@, path@, bytes@, all, i as int, plan@) == goal,
        decreases names.len() - i,
    {
        assert(all[i as int] == names@[i as int]@);
        let n = names[i].as_str();
        match zip_entry(bytes, n) {
            Err(EntryFail::Invalid(e)) => {
                let msg = cat4("invalid zip `", path, "`: ", e.as_str());
                plan.fault = Some(p.fault(codes::SYSCALL, msg.as_str(), None));
                return unpack_by(dir, plan);
            },
            Err(EntryFail::Missing(e)) => {
                let msg = cat4("cannot open zip entry `", n, "`: ", e.as_str());
                plan.fault = Some(p.fault(codes::SYSCALL, msg.as_str(), None));
                return unpack_by(dir, plan);
            },
            Err(EntryFail::Unreadable(e)) => {
                let msg = cat4("cannot read zip entry `", n, "`: ", e.as_str());
                plan.fault = Some(p.fault(codes::SYSCALL, msg.as_str(), None));
                return unpack_by(dir, plan);
            },
            Ok(data) => {
                let v = chars(n);
                let is_dir = v.len() > 0 && v[v.len() - 1] == '/';
                if !write_entry_to(p, &mut plan, n, is_dir, data) {
                    return unpack_by(dir, plan);
                }
            },
        }
        i = i + 1;
    }
    unpack_by(dir, plan)
}

/// The error of the entry that cannot be added to a zip file.
pub open spec fn add_fault(p: PlaceV, name: Seq<char>, f: AddFailV) -> ErrV {
    match f {
        AddFailV::Start(e) => sys_fault(p, "cannot add zip entry `"@ + name + "`: "@ + e),
        AddFailV::Write(e) => sys_fault(p, "cannot write zip entry `"@ + name + "`: "@ + e),
    }
}

/// Making a zip file of entries from `i` on behind those that it holds.
pub open spec fn zip_from(
    p: PlaceV,
    path: Seq<char>,
    es: Seq<(Seq<char>, Seq<u8>)>,
    i: int,
    holds: Seq<(Seq<char>, Seq<u8>)>,
) -> OutV
    decreases es.len() - i,
{
    if i < 0 || i >= es.len() {
        match zip_file(holds) {
            Ok(b) => OutV::Ask(RequestV::WriteBytes(path, b), PendingV::Packed(path)),
            Err(e) => OutV::Error(sys_fault(p, "cannot finalize zip `"@ + path + "`: "@ + e)),
        }
    } else if encode_utf8(es[i].0).len() > NAME_LIMIT {
        OutV::Error(add_fault(p, es[i].0, AddFailV::Start("the name is too long"@)))
    } else {
        match zip_add_fault(holds, es[i].0, es[i].1) {
            Some(f) => OutV::Error(add_fault(p, es[i].0, f)),
            None => zip_from(p, path, es, i + 1, holds.push(es[i])),
        }
    }
}

/// Making a zip file. What is written gives the entries back.
pub fn zip_create(p: &Place, path: &str, es: &Vec<(String, Vec<u8>)>) -> (o: Out)
    ensures
        o@ == zip_from(p@, path@, entries_b(es@), 0, no_entries()),
        classic(entries_b(es@)) ==> (o@ matches OutV::Ask(RequestV::WriteBytes(_, b), _) ==> zip_reads_back(
            entries_b(es@),
            b,
        )),
{
    let mut z = zip_new();
    let ghost all = entries_b(es@);
    assert(all.take(0) =~= no_entries());
    let ghost goal = zip_from(p@, path@, all, 0, no_entries());
    let mut i: usize = 0;
    while i < es.len()
        invariant
            i <= es.len(),
            all == entries_b(es@),
            goal == zip_from(p@, path@, all, 0, no_entries()),
            zip_from(p@, path@, all, i as int, zip_holds(z)) == goal,
            zip_holds(z) == all.take(i as int),
        decreases es.len() - i,
    {
        assert(all[i as int] == (es@[i as int].0@, es@[i as int].1@));
        assert(all.take(i + 1) =~= all.take(i as int).push(all[i as int]));
        let n = es[i].0.as_str();
        if n.as_bytes().len() > NAME_LIMIT {
            let msg = cat4("cannot add zip entry `", n, "`: ", "the name is too long");
            return fail(p, codes::SYSCALL, msg.as_str(), None);
        }
        match zip_add(&mut z, n, &es[i].1) {
            Err(AddFail::Start(e)) => {
                let msg = cat4("cannot add zip entry `", n, "`: ", e.as_str());
                return fail(p, codes::SYSCALL, msg.as_str(), None);
            },
            Err(AddFail::Write(e)) => {
                let msg = cat4("cannot write zip entry `", n, "`: ", e.as_str());
                return fail(p, codes::SYSCALL, msg.as_str(), None);
            },
            Ok(_) => {},
        }
        i = i + 1;
    }
    assert(all.take(es.len() as int) =~= all);
    match zip_finish(z) {
        Ok(b) => Out::Ask(Request::WriteBytes(path.to_owned(), b), Pending::Packed(path.to_owned())),
        Err(e) => {
            let msg = cat4("cannot finalize zip `", path, "`: ", e.as_str());
            fail(p, codes::SYSCALL, msg.as_str(), None)
        },
    }
}

/// The error of a file that is no tar.gz file.
pub open spec fn bad_tgz(p: PlaceV, path: Seq<char>, e: Seq<char>) -> ErrV {
    sys_fault(p, "invalid tar.gz `"@ + path + "`: "@ + e)
}

fn tgz_err(p: &Place, path: &str, e: &str) -> (r: Out)
    ensures
        r@ == OutV::Error(bad_tgz(p@, path@, e@)),
{
    let msg = cat4("invalid tar.gz `", path, "`: ", e);
    fail(p, codes::SYSCALL, msg.as_str(), None)
}

/// The error of an entry that cannot be had.
pub open spec fn bad_item(p: PlaceV, e: Seq<char>) -> ErrV {
    sys_fault(p, "cannot read tar entry: "@ + e)
}

fn item_err(p: &Place, e: &str) -> (r: ZError)
    ensures
        r@ == bad_item(p@, e@),
{
    let msg = cat2("cannot read tar entry: ", e);
    p.fault(codes::SYSCALL, msg.as_str(), None)
}

/// Whether a message says that a tar file is cut off.
pub open spec fn cut_off(e: Seq<char>) -> bool {
    e == "unexpected EOF during skip"@ || e == "failed to read entire block"@ || e == "failed to read extension"@ || e
        == "members found describing a future member but no future member found"@
}

/// The heads of entries where the data behind them could not be unzipped: that is why no more
/// of them can be had, unless the tar file has its end before.
pub open spec fn mended(hs: Seq<HeadV>, broken: Option<Seq<char>>, ended: bool) -> Seq<HeadV> {
    match broken {
        None => hs,
        Some(e) => if hs.len() > 0 && hs.last() is Err {
            if cut_off(hs.last()->Err_0) {
                hs.drop_last().push(Err(e))
            } else {
                hs
            }
        } else if ended {
            hs
        } else {
            hs.push(Err(e))
        },
    }
}

/// The heads of the entries of a tar.gz file, or why it is none.
pub open spec fn tgz_items(bytes: Seq<u8>) -> Result<Seq<HeadV>, Seq<char>> {
    if !tame(unzipped(bytes).0) {
        Err("a header has a size that cannot be counted"@)
    } else {
        match tgz_heads_of(bytes) {
            Err(e) => Err(e),
            Ok(hs) => Ok(mended(hs, unzipped(bytes).1, crate::gunzip::ended(unzipped(bytes).0))),
        }
    }
}

/// A tar.gz file that was looked through.
struct OpenTgz {
    heads: Vec<Result<TarHead, String>>,
    seen: Seen,
}

impl OpenTgz {
    /// Whether this is what is to be known of a tar.gz file.
    spec fn knows(self, bytes: Seq<u8>) -> bool {
        &&& tame(unzipped(bytes).0)
        &&& self.seen.len == unzipped(bytes).0.len()
        &&& opt_text(self.seen.broken) == unzipped(bytes).1
        &&& tgz_items(bytes) == Ok::<Seq<HeadV>, Seq<char>>(heads_v(self.heads@))
    }
}

fn says_cut_off(e: &str) -> (r: bool)
    ensures
        r == cut_off(e@),
{
    eq(e, "unexpected EOF during skip") || eq(e, "failed to read entire block") || eq(e, "failed to read extension")
        || eq(e, "members found describing a future member but no future member found")
}

fn mend(hs: Vec<Result<TarHead, String>>, seen: &Seen) -> (r: Vec<Result<TarHead, String>>)
    ensures
        heads_v(r@) == mended(heads_v(hs@), opt_text(seen.broken), seen.ended),
{
    let mut out = hs;
    let ghost all = heads_v(hs@);
    if let Some(e) = &seen.broken {
        let n: usize = out.len();
        let mut whole = true;
        if n > 0 {
            assert(all.last() == head_v(hs@.last()));
            if let Err(m) = &out[n - 1] {
                if !says_cut_off(m.as_str()) {
                    return out;
                }
                whole = false;
            }
        }
        if !whole {
            out.pop();
            out.push(Err(e.clone()));
            assert(heads_v(out@) =~= all.drop_last().push(Err(e@)));
        } else if !seen.ended {
            out.push(Err(e.clone()));
            assert(heads_v(out@) =~= all.push(Err(e@)));
        }
    }
    out
}

fn open_tgz(bytes: &[u8]) -> (r: Result<OpenTgz, String>)
    ensures
        match r {
            Ok(o) => o.knows(bytes@),
            Err(e) => tgz_items(bytes@) == Err::<Seq<HeadV>, Seq<char>>(e@),
        },
{
    let seen = match look_through(bytes) {
        None => return Err("a header has a size that cannot be counted".to_owned()),
        Some(x) => x,
    };
    match tgz_heads(bytes, seen.len) {
        Err(e) => Err(e),
        Ok(hs) => {
            let heads = mend(hs, &seen);
            Ok(OpenTgz { heads, seen })
        },
    }
}

/// The name of an entry, where it can be had: on Windows it has to be a text, elsewhere what is
/// none in it is replaced.
pub open spec fn entry_name(windows: bool, name: Seq<u8>) -> Option<Seq<char>> {
    if windows && !valid_utf8(name) {
        None
    } else {
        Some(text_of(name))
    }
}

fn text_name(windows: bool, name: &Vec<u8>) -> (r: Option<String>)
    ensures
        opt_text(r) == entry_name(windows, name@),
{
    if windows {
        let n: usize = name.len();
        let b = part(name.as_slice(), 0, n);
        assert(b@ =~= name@);
        utf8_text(b)
    } else {
        Some(read_text(name.as_slice()))
    }
}

/// The names of entries from `i` on, behind those that are there: those that cannot be had are
/// left out.
pub open spec fn tgz_names_from(p: PlaceV, items: Seq<HeadV>, i: int, names: Seq<Seq<char>>) -> OutV
    decreases items.len() - i,
{
    if i < 0 || i >= items.len() {
        OutV::Value(ValueV::List(as_values(names)))
    } else {
        match items[i] {
            Err(e) => OutV::Error(bad_item(p, e)),
            Ok(h) => tgz_names_from(
                p,
                items,
                i + 1,
                match entry_name(p.windows, h.name) {
                    Some(s) => names.push(s),
                    None => names,
                },
            ),
        }
    }
}

/// The list of a tar.gz file.
pub open spec fn tgz_listed(p: PlaceV, path: Seq<char>, bytes: Seq<u8>) -> OutV {
    match tgz_items(bytes) {
        Err(e) => OutV::Error(bad_tgz(p, path, e)),
        Ok(items) => tgz_names_from(p, items, 0, Seq::empty()),
    }
}

/// The list of a tar.gz file.
pub fn tgz_list(p: &Place, path: &str, bytes: &[u8]) -> (o: Out)
    ensures
        o@ == tgz_listed(p@, path@, bytes@),
{
    let ar = match open_tgz(bytes) {
        Err(e) => return tgz_err(p, path, e.as_str()),
        Ok(x) => x,
    };
    let ghost items = heads_v(ar.heads@);
    let mut names: Vec<String> = Vec::new();
    let mut i: usize = 0;
    assert(strs(names@) =~= Seq::empty());
    while i < ar.heads.len()
        invariant
            i <= ar.heads.len(),
            items == heads_v(ar.heads@),
            tgz_listed(p@, path@, bytes@) == tgz_names_from(p@, items, i as int, strs(names@)),
        decreases ar.heads.len() - i,
    {
        assert(items[i as int] == head_v(ar.heads@[i as int]));
        match &ar.heads[i] {
            Err(e) => return Out::Error(item_err(p, e.as_str())),
            Ok(h) => {
                if let Some(s) = text_name(p.windows, &h.name) {
                    let ghost was = names@;
                    names.push(s);
                    assert(strs(names@) =~= strs(was).push(s@));
                }
            },
        }
        i = i + 1;
    }
    Out::Value(Value::List(to_values(&names)))
}

/// The name of an entry; nothing where it cannot be had.
pub open spec fn name_of(p: PlaceV, h: TarHeadV) -> Seq<char> {
    match entry_name(p.windows, h.name) {
        Some(s) => s,
        None => Seq::empty(),
    }
}

fn item_name(p: &Place, h: &TarHead) -> (r: String)
    ensures
        r@ == name_of(p@, TarHeadV { name: h.name@, dir: h.dir, size: h.size }),
{
    match text_name(p.windows, &h.name) {
        Some(s) => s,
        None => {
            let s = String::new();
            assert(s@ =~= Seq::empty());
            s
        },
    }
}

/// The content of an entry of a size: where it is cut off because it could not be unzipped, why.
pub open spec fn content_of(bytes: Seq<u8>, i: int, size: u64) -> Result<Seq<u8>, Seq<char>> {
    match tgz_data_of(bytes, i as usize) {
        Err(e) => Err(e),
        Ok(b) => if unzipped(bytes).1 is Some && b.len() < size {
            Err(unzipped(bytes).1->0)
        } else {
            Ok(b)
        },
    }
}

fn read_content(bytes: &[u8], seen: &Seen, i: usize, size: u64) -> (r: Result<Vec<u8>, String>)
    requires
        tame(unzipped(bytes@).0),
        seen.len == unzipped(bytes@).0.len(),
        opt_text(seen.broken) == unzipped(bytes@).1,
    ensures
        bytes_r(r) == content_of(bytes@, i as int, size),
{
    match tgz_data(bytes, seen.len, i) {
        Err(e) => Err(e),
        Ok(b) => {
            if let Some(e) = &seen.broken {
                if (b.len() as u64) < size {
                    return Err(e.clone());
                }
            }
            Ok(b)
        },
    }
}

/// The text of the first entry of a name from `i` on.
pub open spec fn tgz_text_from(p: PlaceV, bytes: Seq<u8>, items: Seq<HeadV>, entry: Seq<char>, i: int) -> OutV
    decreases items.len() - i,
{
    if i < 0 || i >= items.len() {
        failed(
            p,
            codes::NOT_FOUND@,
            "tar.gz entry `"@ + entry + "` not found"@,
            Some("list entries with `archive.tgz_list(path)`"@),
        )
    } else {
        match items[i] {
            Err(e) => OutV::Error(bad_item(p, e)),
            Ok(h) => if name_of(p, h) == entry {
                match content_of(bytes, i, h.size) {
                    Ok(b) => if valid_utf8(b) {
                        OutV::Value(ValueV::Str(decode_utf8(b)))
                    } else {
                        OutV::Error(sys_fault(p, "cannot read tar entry `"@ + entry + "`: "@ + not_text()))
                    },
                    Err(e) => OutV::Error(sys_fault(p, "cannot read tar entry `"@ + entry + "`: "@ + e)),
                }
            } else {
                tgz_text_from(p, bytes, items, entry, i + 1)
            },
        }
    }
}

/// The text of an entry of a tar.gz file.
pub open spec fn tgz_text(p: PlaceV, path: Seq<char>, entry: Seq<char>, bytes: Seq<u8>) -> OutV {
    match tgz_items(bytes) {
        Err(e) => OutV::Error(bad_tgz(p, path, e)),
        Ok(items) => tgz_text_from(p, bytes, items, entry, 0),
    }
}

fn unreadable(p: &Place, entry: &str, e: &str) -> (r: ZError)
    ensures
        r@ == sys_fault(p@, "cannot read tar entry `"@ + entry@ + "`: "@ + e@),
{
    let msg = cat4("cannot read tar entry `", entry, "`: ", e);
    p.fault(codes::SYSCALL, msg.as_str(), None)
}

/// The text of an entry of a tar.gz file.
pub fn tgz_read(p: &Place, path: &str, entry: &str, bytes: &[u8]) -> (o: Out)
    ensures
        o@ == tgz_text(p@, path@, entry@, bytes@),
{
    let ar = match open_tgz(bytes) {
        Err(e) => return tgz_err(p, path, e.as_str()),
        Ok(x) => x,
    };
    let ghost items = heads_v(ar.heads@);
    let mut i: usize = 0;
    while i < ar.heads.len()
        invariant
            i <= ar.heads.len(),
            items == heads_v(ar.heads@),
            ar.knows(bytes@),
            tgz_text(p@, path@, entry@, bytes@) == tgz_text_from(p@, bytes@, items, entry@, i as int),
        decreases ar.heads.len() - i,
    {
        assert(items[i as int] == head_v(ar.heads@[i as int]));
        match &ar.heads[i] {
            Err(e) => return Out::Error(item_err(p, e.as_str())),
            Ok(h) => {
                let name = item_name(p, h);
                if eq(name.as_str(), entry) {
                    return match read_content(bytes, &ar.seen, i, h.size) {
                        Ok(b) => match utf8_text(b) {
                            Some(s) => Out::Value(Value::Str(s)),
                            None => Out::Error(unreadable(p, entry, "stream did not contain valid UTF-8")),
                        },
                        Err(e) => Out::Error(unreadable(p, entry, e.as_str())),
                    };
                }
            },
        }
        i = i + 1;
    }
    let msg = cat3("tar.gz entry `", entry, "` not found");
    fail(
        p,
        codes::NOT_FOUND,
        msg.as_str(),
        Some("list entries with `archive.tgz_list(path)`"),
    )
}

/// The plan for the entries of a tar.gz file from `i` on.
pub open spec fn tgz_plan(p: PlaceV, bytes: Seq<u8>, items: Seq<HeadV>, i: int, plan: PlanV) -> PlanV
    decreases items.len() - i,
{
    if i < 0 || i >= items.len() {
        plan
    } else {
        match items[i] {
            Err(e) => ended(plan, bad_item(p, e)),
            Ok(h) => {
                let data = if h.dir {
                    Ok(Seq::empty())
                } else {
                    content_of(bytes, i, h.size)
                };
                match data {
                    Err(e) => ended(plan, sys_fault(p, "cannot read tar entry `"@ + name_of(p, h) + "`: "@ + e)),
                    Ok(b) => {
                        let next = planned(p, plan, name_of(p, h), h.dir, b);
                        if next.fault is Some {
                            next
                        } else {
                            tgz_plan(p, bytes, items, i + 1, next)
                        }
                    },
                }
            },
        }
    }
}

/// Unpacking a tar.gz file.
pub open spec fn tgz_unpacked(p: PlaceV, path: Seq<char>, dir: Seq<char>, bytes: Seq<u8>) -> OutV {
    match tgz_items(bytes) {
        Err(e) => OutV::Error(bad_tgz(p, path, e)),
        Ok(items) => unpacking(dir, tgz_plan(p, bytes, items, 0, no_plan())),
    }
}

/// Unpacking a tar.gz file.
pub fn tgz_extract(p: &Place, path: &str, dir: &str, bytes: &[u8]) -> (o: Out)
    ensures
        o@ == tgz_unpacked(p@, path@, dir@, bytes@),
{
    let ar = match open_tgz(bytes) {
        Err(e) => return tgz_err(p, path, e.as_str()),
        Ok(x) => x,
    };
    let ghost items = heads_v(ar.heads@);
    let mut plan = new_plan();
    let ghost goal = tgz_plan(p@, bytes@, items, 0, no_plan());
    let mut i: usize = 0;
    while i < ar.heads.len()
        invariant
            i <= ar.heads.len(),
            items == heads_v(ar.heads@),
            ar.knows(bytes@),
            goal == tgz_plan(p@, bytes@, items, 0, no_plan()),
            plan@.fault is None,
            plan.files <= i,
            tgz_plan(p@, bytes@, items, i as int, plan@) == goal,
        decreases ar.heads.len() - i,
    {
        assert(items[i as int] == head_v(ar.heads@[i as int]));
        match &ar.heads[i] {
            Err(e) => {
                plan.fault = Some(item_err(p, e.as_str()));
                return unpack_by(dir, plan);
            },
            Ok(h) => {
                let name = item_name(p, h);
                let data = if h.dir {
                    let none: Vec<u8> = Vec::new();
                    assert(none@ =~= Seq::empty());
                    none
                } else {
                    match read_content(bytes, &ar.seen, i, h.size) {
                        Ok(b) => b,
                        Err(e) => {
                            plan.fault = Some(unreadable(p, name.as_str(), e.as_str()));
                            return unpack_by(dir, plan);
                        },
                    }
                };
                if !write_entry_to(p, &mut plan, name.as_str(), h.dir, data) {
                    return unpack_by(dir, plan);
                }
            },
        }
        i = i + 1;
    }
    unpack_by(dir, plan)
}

/// What packing entries with plain paths from `i` on behind those that are held comes to.
pub open spec fn packed_from(es: Seq<(Seq<char>, Seq<u8>)>, i: int, holds: Seq<(Seq<char>, Seq<u8>)>) -> ReplyV
    decreases es.len() - i,
{
    if i < 0 || i >= es.len() {
        match tgz_file(holds) {
            Ok(b) => ReplyV::Bytes(b),
            Err(e) => ReplyV::PackTrouble(None, e),
        }
    } else {
        match tgz_add_fault(holds, es[i].0, es[i].1) {
            Some(e) => ReplyV::PackTrouble(Some(es[i].0), e),
            None => packed_from(es, i + 1, holds.push(es[i])),
        }
    }
}

/// Packs entries into a tar.gz file: gives its bytes, or the entry that cannot be added and why,
/// or why the file cannot be finished. For plain paths it is fixed which of these comes back,
/// and the file gives the entries back. How other names are written depends on the system.
pub fn tgz_pack(es: &Vec<(String, Vec<u8>)>) -> (r: Reply)
    ensures
        match r@ {
            ReplyV::Bytes(_) => true,
            ReplyV::PackTrouble(None, _) => true,
            ReplyV::PackTrouble(Some(n), _) => names_of(entries_b(es@)).contains(n),
            _ => false,
        },
        plain_paths(entries_b(es@)) ==> r@ == packed_from(entries_b(es@), 0, no_entries()),
        plain_paths(entries_b(es@)) ==> (r@ matches ReplyV::Bytes(b) ==> tgz_reads_back(entries_b(es@), b)),
{
    let mut t = tgz_new();
    let ghost all = entries_b(es@);
    assert(all.take(0) =~= no_entries());
    let ghost goal = packed_from(all, 0, no_entries());
    let mut i: usize = 0;
    while i < es.len()
        invariant
            i <= es.len(),
            all == entries_b(es@),
            goal == packed_from(all, 0, no_entries()),
            plain_paths(all) ==> packed_from(all, i as int, tgz_holds(t)) == goal,
            tgz_holds(t) == all.take(i as int),
        decreases es.len() - i,
    {
        assert(all[i as int] == (es@[i as int].0@, es@[i as int].1@));
        assert(all.take(i + 1) =~= all.take(i as int).push(all[i as int]));
        assert(plain_paths(all) ==> plain_paths(all.take(i + 1))) by {
            assert forall|j: int| 0 <= j < i + 1 implies all.take(i + 1)[j] == all[j] by {}
        }
        let n = es[i].0.as_str();
        match tgz_add(&mut t, n, &es[i].1) {
            Some(e) => {
                assert(names_of(all)[i as int] == n@);
                return Reply::PackTrouble(Some(n.to_owned()), e);
            },
            None => {},
        }
        i = i + 1;
    }
    assert(all.take(es.len() as int) =~= all);
    match tgz_finish(t) {
        Ok(b) => Reply::Bytes(b),
        Err(e) => Reply::PackTrouble(None, e),
    }
}

/// Going on once entries are packed, or are not.
pub open spec fn after_packing(p: PlaceV, path: Seq<char>, reply: ReplyV) -> OutV {
    match reply {
        ReplyV::Bytes(b) => OutV::Ask(RequestV::WriteBytes(path, b), PendingV::Packed(path)),
        ReplyV::PackTrouble(Some(n), e) => OutV::Error(sys_fault(p, "cannot add tar entry `"@ + n + "`: "@ + e)),
        ReplyV::PackTrouble(None, e) => OutV::Error(sys_fault(p, "cannot finalize tar.gz `"@ + path + "`: "@ + e)),
        _ => OutV::Value(ValueV::Null),
    }
}

/// Goes on once entries are packed, or are not.
pub fn tgz_create(p: &Place, path: &str, reply: Reply) -> (o: Out)
    ensures
        o@ == after_packing(p@, path@, reply@),
{
    match reply {
        Reply::Bytes(b) => Out::Ask(Request::WriteBytes(path.to_owned(), b), Pending::Packed(path.to_owned())),
        Reply::PackTrouble(Some(n), e) => {
            let msg = cat4("cannot add tar entry `", n.as_str(), "`: ", e.as_str());
            fail(p, codes::SYSCALL, msg.as_str(), None)
        },
        Reply::PackTrouble(None, e) => {
            let msg = cat4("cannot finalize tar.gz `", path, "`: ", e.as_str());
            fail(p, codes::SYSCALL, msg.as_str(), None)
        },
        _ => Out::Value(Value::Null),
    }
}

/// A zip file that gives back entries lists their names, and each entry that is a text is
/// read as that text.
pub proof fn law_zip_reads_back(p: PlaceV, path: Seq<char>, es: Seq<(Seq<char>, Seq<u8>)>, bytes: Seq<u8>, i: int)
    requires
        zip_reads_back(es, bytes),
        0 <= i < es.len(),
        valid_utf8(es[i].1),
    ensures
        zip_listed(p, path, zip_names_of(bytes)) == OutV::Value(ValueV::List(as_values(names_of(es)))),
        zip_text(p, path, es[i].0, zip_entry_of(bytes, es[i].0)) == OutV::Value(ValueV::Str(decode_utf8(es[i].1))),
{
}

proof fn lemma_tgz_names(p: PlaceV, es: Seq<(Seq<char>, Seq<u8>)>, i: int)
    requires
        0 <= i <= es.len(),
    ensures
        tgz_names_from(p, file_heads(es), i, names_of(es.take(i))) == OutV::Value(
            ValueV::List(as_values(names_of(es))),
        ),
    decreases es.len() - i,
{
    if i < es.len() {
        lemma_tgz_names(p, es, i + 1);
        assert(names_of(es.take(i + 1)) =~= names_of(es.take(i)).push(es[i].0));
        assert(file_heads(es)[i] == file_head(es[i]));
        lemma_text(es[i].0);
        vstd::utf8::encode_utf8_valid_utf8(es[i].0);
    } else {
        assert(es.take(i) =~= es);
    }
}

proof fn lemma_tgz_text(p: PlaceV, es: Seq<(Seq<char>, Seq<u8>)>, bytes: Seq<u8>, i: int, k: int)
    requires
        tgz_reads_back(es, bytes),
        names_of(es).no_duplicates(),
        0 <= i <= k < es.len(),
        valid_utf8(es[k].1),
    ensures
        tgz_text_from(p, bytes, file_heads(es), es[k].0, i) == OutV::Value(ValueV::Str(decode_utf8(es[k].1))),
    decreases k - i,
{
    assert(file_heads(es)[i] == file_head(es[i]));
    lemma_text(es[i].0);
    vstd::utf8::encode_utf8_valid_utf8(es[i].0);
    if i < k {
        assert(names_of(es)[i] != names_of(es)[k]);
        lemma_tgz_text(p, es, bytes, i + 1, k);
    }
}

/// A tar.gz file that gives back entries lists their names, and each entry that is a text is
/// read as that text, where no two have the same name: on every system, and unless what the
/// entries hold looks like a header with a size that cannot be counted.
pub proof fn law_tgz_reads_back(p: PlaceV, path: Seq<char>, es: Seq<(Seq<char>, Seq<u8>)>, bytes: Seq<u8>, i: int)
    requires
        tgz_reads_back(es, bytes),
        tame(unzipped(bytes).0),
        names_of(es).no_duplicates(),
        0 <= i < es.len(),
        valid_utf8(es[i].1),
    ensures
        tgz_listed(p, path, bytes) == OutV::Value(ValueV::List(as_values(names_of(es)))),
        tgz_text(p, path, es[i].0, bytes) == OutV::Value(ValueV::Str(decode_utf8(es[i].1))),
{
    assert(names_of(es.take(0)) =~= Seq::empty());
    lemma_tgz_names(p, es, 0);
    lemma_tgz_text(p, es, bytes, 0, i);
}

/// Whether all steps of a plan stay inside the directory.
pub open spec fn all_safe(windows: bool, steps: Seq<UnpackV>) -> bool {
    forall|i: int|
        0 <= i < steps.len() ==> is_safe(
            windows,
            match #[trigger] steps[i] {
                UnpackV::Dir(n) => n,
                UnpackV::File(n, _) => n,
            },
        )
}

/// Whatever a zip file holds, unpacking it stays inside the directory.
pub proof fn law_zip_stays_inside(
    p: PlaceV,
    path: Seq<char>,
    bytes: Seq<u8>,
    names: Seq<Seq<char>>,
    i: int,
    plan: PlanV,
)
    requires
        all_safe(p.windows, plan.steps),
    ensures
        all_safe(p.windows, zip_plan(p, path, bytes, names, i, plan).steps),
    decreases names.len() - i,
{
    if 0 <= i < names.len() {
        if let Ok(data) = zip_entry_of(bytes, names[i]) {
            let next = planned(p, plan, names[i], names[i].len() > 0 && names[i].last() == '/', data);
            if next.fault is None {
                law_zip_stays_inside(p, path, bytes, names, i + 1, next);
            }
        }
    }
}

/// Whatever a tar.gz file holds, unpacking it stays inside the directory.
pub proof fn law_tgz_stays_inside(p: PlaceV, bytes: Seq<u8>, items: Seq<HeadV>, i: int, plan: PlanV)
    requires
        all_safe(p.windows, plan.steps),
    ensures
        all_safe(p.windows, tgz_plan(p, bytes, items, i, plan).steps),
    decreases items.len() - i,
{
    if 0 <= i < items.len() {
        if let Ok(h) = items[i] {
            let data = if h.dir {
                Ok(Seq::empty())
            } else {
                content_of(bytes, i, h.size)
            };
            if let Ok(b) = data {
                let next = planned(p, plan, name_of(p, h), h.dir, b);
                if next.fault is None {
                    law_tgz_stays_inside(p, bytes, items, i + 1, next);
                }
            }
        }
    }
}

} // verus!
