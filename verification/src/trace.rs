//! The Ancestor Trace Scanner: a matched job's log is streamed in chunks and
//! scanned for the embedded ancestor marker, under a hard cap on accumulated
//! bytes, without ever holding the whole log. Fetching the stream is I/O and
//! stays outside the library; every decision about a chunk is made here.

use crate::text;
use vstd::prelude::*;
use vstd::string::StringExecFns;

verus! {

/// The hard cap on accumulated log bytes: past this point the scan gives up.
pub const MAX_TRACE_SIZE: usize = 100000;

/// The bytes of the ancestor marker, the ASCII text
/// `[skip-ci-oldest-ancestor]`.
pub open spec fn ancestor_marker() -> Seq<u8> {
    seq![
        91u8,
        115u8,
        107u8,
        105u8,
        112u8,
        45u8,
        99u8,
        105u8,
        45u8,
        111u8,
        108u8,
        100u8,
        101u8,
        115u8,
        116u8,
        45u8,
        97u8,
        110u8,
        99u8,
        101u8,
        115u8,
        116u8,
        111u8,
        114u8,
        93u8,
    ]
}

/// The bytes of the end-of-decision marker, the ASCII text `[skip-ci-done]`.
pub open spec fn done_marker() -> Seq<u8> {
    seq![91u8, 115u8, 107u8, 105u8, 112u8, 45u8, 99u8, 105u8, 45u8, 100u8, 111u8, 110u8, 101u8, 93u8]
}

/// The line-end byte, the ASCII line feed.
pub open spec fn line_end() -> Seq<u8> {
    seq![10u8]
}

/// The ancestor marker as bytes.
pub fn ancestor_marker_bytes() -> (r: Vec<u8>)
    ensures
        r@ == ancestor_marker(),
{
    let r: Vec<u8> = vec![
        91u8,
        115u8,
        107u8,
        105u8,
        112u8,
        45u8,
        99u8,
        105u8,
        45u8,
        111u8,
        108u8,
        100u8,
        101u8,
        115u8,
        116u8,
        45u8,
        97u8,
        110u8,
        99u8,
        101u8,
        115u8,
        116u8,
        111u8,
        114u8,
        93u8,
    ];
    proof {
        assert(r@ =~= ancestor_marker());
    }
    r
}

/// The end-of-decision marker as bytes.
pub fn done_marker_bytes() -> (r: Vec<u8>)
    ensures
        r@ == done_marker(),
{
    let r: Vec<u8> = vec![
        91u8,
        115u8,
        107u8,
        105u8,
        112u8,
        45u8,
        99u8,
        105u8,
        45u8,
        100u8,
        111u8,
        110u8,
        101u8,
        93u8,
    ];
    proof {
        assert(r@ =~= done_marker());
    }
    r
}

/// `key` occurs in `hay` at position `i`.
pub open spec fn match_at(hay: Seq<u8>, key: Seq<u8>, i: int) -> bool {
    0 <= i && i + key.len() <= hay.len() && hay.subrange(i, i + key.len()) == key
}

/// The position of the first occurrence of `key` in `hay`.
pub open spec fn first_index_of(hay: Seq<u8>, key: Seq<u8>) -> Option<int>
    decreases hay.len(),
{
    if key.len() == 0 {
        Some(0)
    } else if hay.len() < key.len() {
        None
    } else if hay.subrange(0, key.len() as int) == key {
        Some(0)
    } else {
        match first_index_of(hay.skip(1), key) {
            Some(i) => Some(i + 1),
            None => None,
        }
    }
}

/// A match one step into `hay` is a match at the head of `hay` without its
/// first byte.
proof fn lemma_match_shift(hay: Seq<u8>, key: Seq<u8>, j: int)
    requires
        hay.len() >= 1,
        0 <= j,
    ensures
        match_at(hay, key, j + 1) == match_at(hay.skip(1), key, j),
{
    let k = key.len() as int;
    if j + 1 + k <= hay.len() {
        assert(hay.subrange(j + 1, j + 1 + k) =~= hay.skip(1).subrange(j, j + k));
    }
}

/// `first_index_of` finds exactly the first occurrence: the position it gives
/// is a match with no match before it, and it gives none only when no
/// position matches.
pub proof fn lemma_first_index_of(hay: Seq<u8>, key: Seq<u8>)
    ensures
        match first_index_of(hay, key) {
            Some(i) => match_at(hay, key, i) && forall|j: int|
                0 <= j < i ==> !match_at(hay, key, j),
            None => forall|j: int| !match_at(hay, key, j),
        },
    decreases hay.len(),
{
    if key.len() == 0 {
        assert(hay.subrange(0, 0) =~= key);
    } else if hay.len() < key.len() {
        assert(forall|j: int| !match_at(hay, key, j));
    } else if hay.subrange(0, key.len() as int) == key {
    } else {
        let tail = hay.skip(1);
        lemma_first_index_of(tail, key);
        assert(!match_at(hay, key, 0));
        match first_index_of(tail, key) {
            Some(ti) => {
                lemma_match_shift(hay, key, ti);
                assert forall|j: int| 0 <= j < ti + 1 implies !match_at(hay, key, j) by {
                    if j > 0 {
                        lemma_match_shift(hay, key, j - 1);
                        assert(!match_at(tail, key, j - 1));
                    }
                }
            },
            None => {
                assert forall|j: int| !match_at(hay, key, j) by {
                    if j > 0 {
                        lemma_match_shift(hay, key, j - 1);
                        assert(!match_at(tail, key, j - 1));
                    }
                }
            },
        }
    }
}

fn match_here(hay: &Vec<u8>, key: &Vec<u8>, i: usize) -> (r: bool)
    requires
        i + key@.len() <= hay@.len(),
    ensures
        r == match_at(hay@, key@, i as int),
{
    let k = key.len();
    let n = hay.len();
    let mut m: usize = 0;
    while m < k
        invariant
            m <= k,
            k == key@.len(),
            n == hay@.len(),
            i + k <= n,
            forall|t: int| 0 <= t < m ==> hay@[i + t] == key@[t],
        decreases k - m,
    {
        if hay[i + m] != key[m] {
            proof {
                assert(hay@.subrange(i as int, i + k)[m as int] == hay@[i + m]);
            }
            return false;
        }
        m += 1;
    }
    proof {
        assert(hay@.subrange(i as int, i + k) =~= key@);
    }
    true
}

/// The position of the first occurrence of `key` in `hay` at or after `from`,
/// given relative to `from`.
pub fn find_from(hay: &Vec<u8>, key: &Vec<u8>, from: usize) -> (r: Option<usize>)
    requires
        key@.len() >= 1,
        from <= hay@.len(),
    ensures
        match r {
            Some(i) => first_index_of(hay@.skip(from as int), key@) == Some(i as int),
            None => first_index_of(hay@.skip(from as int), key@) is None,
        },
{
    let ghost sub = hay@.skip(from as int);
    let n = hay.len();
    let k = key.len();
    if n - from < k {
        proof {
            lemma_first_index_of(sub, key@);
            assert(sub.len() < key@.len());
        }
        return None;
    }
    let mut i: usize = 0;
    while i <= n - from - k
        invariant
            sub == hay@.skip(from as int),
            k == key@.len(),
            n == hay@.len(),
            1 <= k,
            from + k <= n,
            i <= n - from - k + 1,
            forall|j: int| 0 <= j < i ==> !match_at(sub, key@, j),
        decreases n + 1 - from - k - i,
    {
        let here = match_here(hay, key, from + i);
        proof {
            assert(hay@.subrange(from + i, from + i + k) =~= sub.subrange(i as int, i + k));
            assert(match_at(hay@, key@, (from + i) as int) == match_at(sub, key@, i as int));
        }
        if here {
            proof {
                lemma_first_index_of(sub, key@);
            }
            return Some(i);
        }
        i += 1;
    }
    proof {
        lemma_first_index_of(sub, key@);
        assert(forall|j: int| j > sub.len() - k ==> !match_at(sub, key@, j));
    }
    None
}

/// The position of the first occurrence of `key` in `hay`.
pub fn find_first(hay: &Vec<u8>, key: &Vec<u8>) -> (r: Option<usize>)
    requires
        key@.len() >= 1,
    ensures
        match r {
            Some(i) => first_index_of(hay@, key@) == Some(i as int),
            None => first_index_of(hay@, key@) is None,
        },
{
    proof {
        assert(hay@.skip(0) =~= hay@);
    }
    find_from(hay, key, 0)
}

/// What one chunk of the log decides.
pub enum ChunkStep {
    /// The ancestor marker and its line end both lie in this chunk: the bytes
    /// between the marker's trailing delimiter and the line end.
    Found(Vec<u8>),
    /// Scanning is over with no ancestor found: the end-of-decision marker was
    /// seen, or the byte cap is exceeded.
    Stop,
    /// Nothing decisive in this chunk: scanning continues with this many bytes
    /// accumulated.
    More(usize),
}

/// The ghost counterpart of [`ChunkStep`].
pub enum ChunkStepSpec {
    Found(Seq<u8>),
    Stop,
    More(int),
}

impl View for ChunkStep {
    type V = ChunkStepSpec;

    open spec fn view(&self) -> ChunkStepSpec {
        match self {
            ChunkStep::Found(v) => ChunkStepSpec::Found(v@),
            ChunkStep::Stop => ChunkStepSpec::Stop,
            ChunkStep::More(n) => ChunkStepSpec::More(*n as int),
        }
    }
}

/// The value extracted once the marker stands at the head of `rest` and the
/// first line end of `rest` is at `e`: the bytes after the marker's one-byte
/// delimiter, up to the line end; empty when the line ends before a value
/// could start.
pub open spec fn extracted_value(rest: Seq<u8>, e: int) -> Seq<u8> {
    let start = ancestor_marker().len() + 1;
    if e >= start {
        rest.subrange(start as int, e)
    } else {
        Seq::<u8>::empty()
    }
}

/// The bookkeeping step when a chunk decides nothing: the chunk's bytes are
/// added to the total, and crossing the cap stops the scan.
pub open spec fn accumulate_spec(chunk: Seq<u8>, total: int) -> ChunkStepSpec {
    if total + chunk.len() > MAX_TRACE_SIZE as int {
        ChunkStepSpec::Stop
    } else {
        ChunkStepSpec::More(total + chunk.len())
    }
}

/// What scanning one chunk decides, with `total` bytes already accumulated:
/// the ancestor marker with a line end after it in the same chunk yields the
/// value between them; the end-of-decision marker (in a chunk without the
/// ancestor marker) stops the scan; anything else only accumulates bytes
/// against the cap. A marker whose line end falls outside the chunk is
/// missed: that is the deliberate price of bounded memory.
pub open spec fn scan_chunk_spec(chunk: Seq<u8>, total: int) -> ChunkStepSpec {
    match first_index_of(chunk, ancestor_marker()) {
        Some(i) => {
            let rest = chunk.skip(i);
            match first_index_of(rest, line_end()) {
                Some(e) => ChunkStepSpec::Found(extracted_value(rest, e)),
                None => accumulate_spec(chunk, total),
            }
        },
        None => {
            if first_index_of(chunk, done_marker()) is Some {
                ChunkStepSpec::Stop
            } else {
                accumulate_spec(chunk, total)
            }
        },
    }
}

fn accumulate(chunk: &Vec<u8>, total: usize) -> (r: ChunkStep)
    requires
        total <= MAX_TRACE_SIZE,
    ensures
        r@ == accumulate_spec(chunk@, total as int),
{
    let len = chunk.len();
    if len > MAX_TRACE_SIZE {
        ChunkStep::Stop
    } else {
        let next = total + len;
        if next > MAX_TRACE_SIZE {
            ChunkStep::Stop
        } else {
            ChunkStep::More(next)
        }
    }
}

/// Scans one chunk of the log (see [`scan_chunk_spec`]).
pub fn scan_chunk(chunk: &Vec<u8>, total: usize) -> (r: ChunkStep)
    requires
        total <= MAX_TRACE_SIZE,
    ensures
        r@ == scan_chunk_spec(chunk@, total as int),
{
    let anc = ancestor_marker_bytes();
    match find_first(chunk, &anc) {
        Some(i) => {
            proof {
                lemma_first_index_of(chunk@, anc@);
            }
            let nl: Vec<u8> = vec![10u8];
            proof {
                assert(nl@ =~= line_end());
            }
            match find_from(chunk, &nl, i) {
                Some(e) => {
                    let ghost rest = chunk@.skip(i as int);
                    proof {
                        lemma_first_index_of(rest, nl@);
                    }
                    let clen = chunk.len();
                    let start = anc.len() + 1;
                    if e >= start {
                        let mut v: Vec<u8> = Vec::new();
                        let mut p = start;
                        while p < e
                            invariant
                                start <= p <= e,
                                clen == chunk@.len(),
                                i + e < clen,
                                rest == chunk@.skip(i as int),
                                v@ =~= rest.subrange(start as int, p as int),
                            decreases e - p,
                        {
                            proof {
                                assert(rest[p as int] == chunk@[i + p]);
                            }
                            v.push(chunk[i + p]);
                            p += 1;
                        }
                        proof {
                            assert(v@ =~= extracted_value(rest, e as int));
                        }
                        ChunkStep::Found(v)
                    } else {
                        let v: Vec<u8> = Vec::new();
                        proof {
                            assert(v@ =~= extracted_value(rest, e as int));
                        }
                        ChunkStep::Found(v)
                    }
                },
                None => accumulate(chunk, total),
            }
        },
        None => {
            let done = done_marker_bytes();
            match find_first(chunk, &done) {
                Some(_) => ChunkStep::Stop,
                None => accumulate(chunk, total),
            }
        },
    }
}

/// What a whole sequence of chunks yields, scanned in order starting from
/// `total` accumulated bytes: the first chunk that decides, or nothing when
/// the stream ends or a chunk stops the scan.
pub open spec fn scan_trace_spec(chunks: Seq<Seq<u8>>, total: int) -> Option<Seq<u8>>
    decreases chunks.len(),
{
    if chunks.len() == 0 {
        None
    } else {
        match scan_chunk_spec(chunks[0], total) {
            ChunkStepSpec::Found(v) => Some(v),
            ChunkStepSpec::Stop => None,
            ChunkStepSpec::More(next) => scan_trace_spec(chunks.skip(1), next),
        }
    }
}

/// Scans a log given as a sequence of chunks (see [`scan_trace_spec`]). The
/// live stream is driven the same way, one [`scan_chunk`] call per chunk as
/// it arrives.
pub fn scan_chunks(chunks: &Vec<Vec<u8>>) -> (r: Option<Vec<u8>>)
    ensures
        match r {
            Some(v) => scan_trace_spec(chunks.deep_view(), 0) == Some(v@),
            None => scan_trace_spec(chunks.deep_view(), 0) is None,
        },
{
    let ghost all = chunks.deep_view();
    let mut total: usize = 0;
    let mut i: usize = 0;
    proof {
        assert(all.skip(0) =~~= all);
    }
    while i < chunks.len()
        invariant
            i <= chunks@.len(),
            all == chunks.deep_view(),
            total <= MAX_TRACE_SIZE,
            scan_trace_spec(all, 0) == scan_trace_spec(all.skip(i as int), total as int),
        decreases chunks@.len() - i,
    {
        proof {
            assert(all[i as int] == chunks@[i as int]@);
        }
        match scan_chunk(&chunks[i], total) {
            ChunkStep::Found(v) => {
                return Some(v);
            },
            ChunkStep::Stop => {
                return None;
            },
            ChunkStep::More(next) => {
                proof {
                    assert(all.skip(i as int).skip(1) =~~= all.skip(i + 1));
                }
                total = next;
            },
        }
        i += 1;
    }
    proof {
        assert(all.skip(i as int) =~~= Seq::<Seq<u8>>::empty());
    }
    None
}

/// Builds the endpoint for a job's raw log.
pub fn get_trace_url(jobs_api_url: &str, job_id: u32, api_read_token: &str) -> (r: String)
    ensures
        r@ == jobs_api_url@ + "/"@ + text::dec_digits(job_id as int) + "/trace?private_token="@
            + api_read_token@,
{
    let mut r = jobs_api_url.to_owned();
    r.append("/");
    let id = text::u32_string(job_id);
    r.append(id.as_str());
    r.append("/trace?private_token=");
    r.append(api_read_token);
    proof {
        assert(r@ =~= jobs_api_url@ + "/"@ + text::dec_digits(job_id as int)
            + "/trace?private_token="@ + api_read_token@);
    }
    r
}

} // verus!
