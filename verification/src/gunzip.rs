//! Looking through a tar.gz file before its entries are read: whether all sizes in it can be
//! counted, and where its data ends.

use vstd::prelude::*;

use crate::error::opt_text;

verus! {

/// A gzip decoder (`flate2::read::GzDecoder`).
#[verifier::external_type_specification]
#[verifier::external_body]
#[verifier::reject_recursive_types(R)]
pub struct ExGzDecoder<R>(flate2::read::GzDecoder<R>);

/// What a gzip file holds when it is read in pieces: its data, and why there is no more of it,
/// if there should be.
pub uninterp spec fn unzipped(bytes: Seq<u8>) -> (Seq<u8>, Option<Seq<char>>);

/// What a gzip decoder still gives when it is read in pieces.
pub uninterp spec fn gz_left(d: flate2::read::GzDecoder<&[u8]>) -> (Seq<u8>, Option<Seq<char>>);

/// A gzip decoder of bytes (`flate2::read::GzDecoder::new`): what it gives depends on the
/// bytes alone.
#[verifier::external_body]
pub(crate) fn gunzip(bytes: &[u8]) -> (r: flate2::read::GzDecoder<&[u8]>)
    ensures
        gz_left(r) == unzipped(bytes@),
{
    flate2::read::GzDecoder::new(bytes)
}

/// Whether a piece is the start of what was left, and what is left lies behind it: nothing is
/// only given at the end.
pub open spec fn gave(r: Result<Vec<u8>, String>, was: (Seq<u8>, Option<Seq<char>>), left: (Seq<u8>, Option<Seq<char>>)) -> bool {
    match r {
        Ok(b) => {
            &&& b@.len() <= was.0.len()
            &&& b@ == was.0.take(b@.len() as int)
            &&& left == (was.0.skip(b@.len() as int), was.1)
            &&& b@.len() == 0 ==> was.0.len() == 0 && was.1 is None
        },
        Err(e) => was.0.len() == 0 && was.1 == Some(e@),
    }
}

/// The next piece of what a gzip decoder gives (`Read::read` of `flate2::read::GzDecoder`
/// into a buffer of fixed size), or the text of the error: an empty piece is the end.
#[verifier::external_body]
pub(crate) fn gunzip_some(d: &mut flate2::read::GzDecoder<&[u8]>) -> (r: Result<Vec<u8>, String>)
    ensures
        gave(r, gz_left(*old(d)), gz_left(*final(d))),
{
    let mut b = vec![0u8; 4096];
    let n = std::io::Read::read(d, &mut b).map_err(|e| e.to_string())?;
    b.truncate(n);
    Ok(b)
}

/// The size of a block of a tar file.
pub const BLOCK: usize = 512;

/// How many bytes of data can be counted.
pub const MOST: u64 = 0x1000_0000_0000_0000;

/// How far a record ` size=` with a number of at least nineteen digits has been read once a
/// byte is there: twenty-five is the whole of it, and stays.
pub open spec fn stepped(r: int, c: u8) -> int {
    if r >= 25 {
        25
    } else if (r == 0 && c == 0x20) || (r == 1 && c == 0x73) || (r == 2 && c == 0x69) || (r == 3 && c == 0x7a) || (r
        == 4 && c == 0x65) || (r == 5 && c == 0x3d) || (r >= 6 && (c == 0x2b || 0x30 <= c <= 0x39)) {
        r + 1
    } else if c == 0x20 {
        1
    } else {
        0
    }
}

/// How far such a record has been read in the first `n` bytes.
pub open spec fn run(s: Seq<u8>, n: int) -> int
    decreases n,
{
    if n <= 0 || n > s.len() {
        0
    } else {
        stepped(run(s, n - 1), s[n - 1])
    }
}

/// The mark of a GNU header.
pub open spec fn gnu_mark() -> Seq<u8> {
    seq![0x75u8, 0x73, 0x74, 0x61, 0x72, 0x20, 0x20, 0]
}

/// Whether a block is the header of a sparse file that goes on in further blocks, and has a
/// size that cannot be counted: in the header itself, or in a record before it.
pub open spec fn wild(b: Seq<u8>, long: bool) -> bool {
    &&& b[156] == 0x53
    &&& b.subrange(257, 265) == gnu_mark()
    &&& b[482] == 1
    &&& long || (b[124] >= 0x80 && b[128] >= 0x40)
}

/// The `k`-th block of data.
pub open spec fn block(s: Seq<u8>, k: int) -> Seq<u8> {
    s.subrange(k * 512, k * 512 + 512)
}

/// Whether the first `k` blocks of data hold no header with a size that cannot be counted.
pub open spec fn tame_upto(s: Seq<u8>, k: int) -> bool {
    forall|j: int| 0 <= j < k ==> !wild(#[trigger] block(s, j), run(s, j * 512) == 25)
}

/// Whether data holds no header with a size that cannot be counted, and can be counted itself.
pub open spec fn tame(s: Seq<u8>) -> bool {
    s.len() <= MOST && tame_upto(s, s.len() as int / 512)
}

/// Whether one of the first `k` blocks of data is empty: such a block ends a tar file.
pub open spec fn ended_upto(s: Seq<u8>, k: int) -> bool {
    exists|j: int| 0 <= j < k && #[trigger] block(s, j) == zeros()
}

/// An empty block.
pub open spec fn zeros() -> Seq<u8> {
    Seq::new(512, |i: int| 0u8)
}

/// Whether a tar file has its end.
pub open spec fn ended(s: Seq<u8>) -> bool {
    ended_upto(s, s.len() as int / 512)
}

/// What was seen of the data of a tar.gz file: how many bytes there are, why there are no
/// more, if there should be, and whether the end of the tar file is among them.
pub struct Seen {
    pub len: u64,
    pub broken: Option<String>,
    pub ended: bool,
}

fn step(r: u8, c: u8) -> (n: u8)
    requires
        r <= 25,
    ensures
        n == stepped(r as int, c),
        n <= 25,
{
    if r >= 25 {
        25
    } else if (r == 0 && c == 0x20) || (r == 1 && c == 0x73) || (r == 2 && c == 0x69) || (r == 3 && c == 0x7a) || (r
        == 4 && c == 0x65) || (r == 5 && c == 0x3d) || (r >= 6 && (c == 0x2b || (0x30 <= c && c <= 0x39))) {
        r + 1
    } else if c == 0x20 {
        1
    } else {
        0
    }
}

fn is_wild(b: &Vec<u8>, long: bool) -> (r: bool)
    requires
        b.len() == 512,
    ensures
        r == wild(b@, long),
{
    let gnu = b[257] == 0x75 && b[258] == 0x73 && b[259] == 0x74 && b[260] == 0x61 && b[261] == 0x72 && b[262] == 0x20
        && b[263] == 0x20 && b[264] == 0;
    proof {
        let m = b@.subrange(257, 265);
        assert(m.len() == 8);
        if gnu {
            assert(m =~= gnu_mark());
        }
        if m == gnu_mark() {
            assert(m[0] == b@[257] && m[1] == b@[258] && m[2] == b@[259] && m[3] == b@[260] && m[4] == b@[261] && m[5]
                == b@[262] && m[6] == b@[263] && m[7] == b@[264]);
        }
    }
    b[156] == 0x53 && gnu && b[482] == 1 && (long || (b[124] >= 0x80 && b[128] >= 0x40))
}

fn is_empty_block(b: &Vec<u8>) -> (r: bool)
    requires
        b.len() == 512,
    ensures
        r == (b@ == zeros()),
{
    let mut i: usize = 0;
    while i < b.len()
        invariant
            i <= b.len(),
            b.len() == 512,
            forall|j: int| 0 <= j < i ==> b@[j] == 0,
        decreases b.len() - i,
    {
        if b[i] != 0 {
            assert(zeros()[i as int] == 0);
            return false;
        }
        i = i + 1;
    }
    assert(b@ =~= zeros());
    true
}

/// What is known of the data that was looked through.
struct Look {
    len: u64,
    run: u8,
    long: bool,
    part: Vec<u8>,
    ended: bool,
}

impl Look {
    /// Whether this is what is to be known of data in which nothing wild was found.
    spec fn knows(self, s: Seq<u8>) -> bool {
        let k = s.len() as int / 512;
        &&& self.len == s.len()
        &&& self.len <= MOST
        &&& self.run == run(s, s.len() as int)
        &&& self.run <= 25
        &&& self.long == (run(s, k * 512) == 25)
        &&& self.part@ == s.skip(k * 512)
        &&& self.ended == ended_upto(s, k)
        &&& tame_upto(s, k)
    }

    /// Looks at one more byte; says whether the data with it is tame.
    fn byte(&mut self, Ghost(s): Ghost<Seq<u8>>, c: u8) -> (r: bool)
        requires
            old(self).knows(s),
        ensures
            r ==> final(self).knows(s.push(c)),
            !r ==> !tame_upto(s.push(c), s.push(c).len() as int / 512) || s.push(c).len() > MOST,
    {
        let ghost t = s.push(c);
        let ghost k = s.len() as int / 512;
        if self.len >= MOST {
            return false;
        }
        proof {
            assert(t.take(s.len() as int) =~= s);
            lemma_run_prefix(s, t, s.len() as int);
            lemma_run_prefix(s, t, k * 512);
            assert forall|j: int| 0 <= j < k implies block(t, j) == #[trigger] block(s, j) by {
                assert(block(t, j) =~= block(s, j));
                lemma_run_prefix(s, t, j * 512);
            }
            assert forall|j: int| 0 <= j < k implies run(t, j * 512) == run(s, j * 512) && #[trigger] block(t, j)
                == block(s, j) by {
                assert(block(t, j) =~= block(s, j));
                lemma_run_prefix(s, t, j * 512);
            }
        }
        self.len = self.len + 1;
        self.run = step(self.run, c);
        self.part.push(c);
        assert(self.part@ =~= t.skip(k * 512));
        if self.part.len() == 512 {
            assert(t.len() == k * 512 + 512);
            assert(t.len() as int / 512 == k + 1);
            assert(self.part@ =~= block(t, k));
            if is_wild(&self.part, self.long) {
                assert(wild(block(t, k), run(t, k * 512) == 25));
                return false;
            }
            if is_empty_block(&self.part) {
                assert(block(t, k) == zeros());
                self.ended = true;
            }
            proof {
                assert(self.ended == ended_upto(t, k + 1)) by {
                    if ended_upto(s, k) {
                        let j = choose|j: int| 0 <= j < k && #[trigger] block(s, j) == zeros();
                        assert(block(t, j) == zeros());
                    }
                    if ended_upto(t, k + 1) {
                        let j = choose|j: int| 0 <= j < k + 1 && #[trigger] block(t, j) == zeros();
                        if j < k {
                            assert(block(s, j) == zeros());
                        }
                    }
                }
            }
            self.part = Vec::new();
            self.long = self.run == 25;
            assert(t.skip((k + 1) * 512) =~= Seq::empty());
        } else {
            assert(t.len() as int / 512 == k);
            assert(self.ended == ended_upto(t, k)) by {
                if ended_upto(s, k) {
                    let j = choose|j: int| 0 <= j < k && #[trigger] block(s, j) == zeros();
                    assert(block(t, j) == zeros());
                }
                if ended_upto(t, k) {
                    let j = choose|j: int| 0 <= j < k && #[trigger] block(t, j) == zeros();
                    assert(block(s, j) == zeros());
                }
            }
        }
        true
    }
}

proof fn lemma_run_prefix(s: Seq<u8>, t: Seq<u8>, n: int)
    requires
        s.len() <= t.len(),
        t.take(s.len() as int) == s,
        n <= s.len(),
    ensures
        run(t, n) == run(s, n),
    decreases n,
{
    if n > 0 {
        lemma_run_prefix(s, t, n - 1);
        assert(t.take(s.len() as int)[n - 1] == s[n - 1]);
    }
}

/// What starts data that is tame is tame.
proof fn lemma_tame_prefix(s: Seq<u8>, t: Seq<u8>)
    requires
        s.len() <= t.len(),
        t.take(s.len() as int) == s,
        tame(t),
    ensures
        tame(s),
{
    assert forall|j: int| 0 <= j < s.len() as int / 512 implies !wild(#[trigger] block(s, j), run(s, j * 512) == 25) by {
        lemma_run_prefix(s, t, j * 512);
        assert forall|i: int| 0 <= i < 512 implies block(s, j)[i] == block(t, j)[i] by {
            assert(t.take(s.len() as int)[j * 512 + i] == s[j * 512 + i]);
        }
        assert(block(s, j) =~= block(t, j));
        assert(!wild(block(t, j), run(t, j * 512) == 25));
    }
}

/// Looks through a tar.gz file: nothing comes back where its data holds a header with a size
/// that cannot be counted.
pub fn look_through(bytes: &[u8]) -> (r: Option<Seen>)
    ensures
        match r {
            Some(x) => {
                let (data, end) = unzipped(bytes@);
                tame(data) && x.len == data.len() && opt_text(x.broken) == end && x.ended == ended(data)
            },
            None => !tame(unzipped(bytes@).0),
        },
{
    let mut d = gunzip(bytes);
    let ghost all = unzipped(bytes@).0;
    let ghost end = unzipped(bytes@).1;
    let mut look = Look { len: 0, run: 0, long: false, part: Vec::new(), ended: false };
    let ghost mut n: int = 0;
    proof {
        assert(all.take(0) =~= Seq::empty());
        assert(all.skip(0) =~= all);
        assert(all.take(0).skip(0) =~= look.part@);
    }
    loop
        invariant
            0 <= n <= all.len(),
            all == unzipped(bytes@).0,
            end == unzipped(bytes@).1,
            gz_left(d) == (all.skip(n), end),
            look.knows(all.take(n)),
        decreases all.len() - n,
    {
        match gunzip_some(&mut d) {
            Err(e) => {
                assert(all.skip(n).len() == 0);
                assert(all.take(n) =~= all);
                return Some(Seen { len: look.len, broken: Some(e), ended: look.ended });
            },
            Ok(b) => {
                if b.len() == 0 {
                    assert(all.skip(n).len() == 0);
                    assert(all.take(n) =~= all);
                    return Some(Seen { len: look.len, broken: None, ended: look.ended });
                }
                let mut i: usize = 0;
                assert(all.take(n + 0) =~= all.take(n));
                while i < b.len()
                    invariant
                        i <= b.len(),
                        0 <= n,
                        n + b.len() <= all.len(),
                        all == unzipped(bytes@).0,
                        b@ == all.skip(n).take(b.len() as int),
                        look.knows(all.take(n + i)),
                    decreases b.len() - i,
                {
                    let ghost s = all.take(n + i);
                    assert(b@[i as int] == all[n + i]);
                    assert(s.push(b@[i as int]) =~= all.take(n + i + 1));
                    if !look.byte(Ghost(s), b[i]) {
                        proof {
                            let t = all.take(n + i + 1);
                            if tame(all) {
                                lemma_tame_prefix(t, all);
                            }
                        }
                        return None;
                    }
                    i = i + 1;
                }
                proof {
                    assert(all.skip(n).skip(b.len() as int) =~= all.skip(n + b.len()));
                    n = n + b.len();
                }
            },
        }
    }
}

} // verus!
