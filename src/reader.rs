//! The framed file: length-prefixed headers and payloads, payload
//! extraction, and the buffered entity reader.
use vstd::prelude::*;
use vstd::slice::slice_subrange;
use std::io::Read;
use crate::block::{decode_block, block_spec, views};
use crate::model::{Entity, EntityView, PbfError};
use crate::wire::{
    decode_twos, fields_of, get_bytes, get_varint, last_bytes, last_varint, parse_fields, twos,
};

verus! {

/// What zlib decompression makes of `data`: the inflated bytes, or `None`
/// when `data` is not a valid zlib stream.
pub uninterp spec fn zlib_inflated(data: Seq<u8>) -> Option<Seq<u8>>;

/// Relies on flate2::read::ZlibDecoder: read to the end, it yields the
/// zlib-decompressed bytes of `data`, or an error on a corrupt stream.
/// `capacity` only pre-sizes the output.
#[verifier::external_body]
fn inflate(data: &[u8], capacity: usize) -> (r: Option<Vec<u8>>)
    requires
        capacity <= 0x400_0000,
    ensures
        match zlib_inflated(data@) {
            Some(o) => r matches Some(v) && v@ == o,
            None => r is None,
        },
{
    let mut out = Vec::with_capacity(capacity);
    match flate2::read::ZlibDecoder::new(data).read_to_end(&mut out) {
        Ok(_) => Some(out),
        Err(_) => None,
    }
}

/// The decoded bytes of the `Blob` message `b`: the raw bytes when present,
/// else the inflated compressed bytes; a blob with neither is a format error.
#[verifier::opaque]
pub open spec fn blob_spec(b: Seq<u8>) -> Result<Seq<u8>, PbfError> {
    match fields_of(b) {
        None => Err(PbfError::Decode),
        Some(fs) => match last_bytes(fs, 1) {
            Some((x, y)) => if x <= y <= b.len() {
                Ok(b.subrange(x as int, y as int))
            } else {
                Err(PbfError::Decode)
            },
            None => match last_bytes(fs, 3) {
                Some((x, y)) => if x <= y <= b.len() {
                    match zlib_inflated(b.subrange(x as int, y as int)) {
                        Some(o) => Ok(o),
                        None => Err(PbfError::Decode),
                    }
                } else {
                    Err(PbfError::Decode)
                },
                None => Err(PbfError::Format),
            },
        },
    }
}

fn copy_bytes(s: &[u8]) -> (r: Vec<u8>)
    ensures
        r@ == s@,
{
    let mut out: Vec<u8> = Vec::new();
    let mut i: usize = 0;
    while i < s.len()
        invariant
            i <= s@.len(),
            out@ == s@.take(i as int),
        decreases s@.len() - i,
    {
        out.push(s[i]);
        i = i + 1;
        assert(out@ =~= s@.take(i as int));
    }
    assert(s@.take(i as int) =~= s@);
    out
}

/// The output size a blob declares, as a capacity: at most 64 MiB, and 0
/// when absent or negative.
fn capacity_hint(raw_size: Option<u64>) -> (r: usize)
    ensures
        r <= 0x400_0000,
{
    match raw_size {
        None => 0,
        Some(v) => {
            let n = decode_twos(v);
            if n < 0 {
                0
            } else if n > 0x400_0000 {
                0x400_0000
            } else {
                n as usize
            }
        },
    }
}

/// Extracts the payload bytes of a `Blob` message.
pub fn extract(b: &[u8]) -> (r: Result<Vec<u8>, PbfError>)
    ensures
        match blob_spec(b@) {
            Ok(v) => r matches Ok(x) && x@ == v,
            Err(e) => r == Err::<Vec<u8>, PbfError>(e),
        },
{
    reveal(blob_spec);
    let fs = match parse_fields(b) {
        None => {
            return Err(PbfError::Decode);
        },
        Some(fs) => fs,
    };
    match get_bytes(&fs, 1) {
        Some((x, y)) => {
            if x <= y && y <= b.len() {
                Ok(copy_bytes(slice_subrange(b, x, y)))
            } else {
                Err(PbfError::Decode)
            }
        },
        None => match get_bytes(&fs, 3) {
            Some((x, y)) => {
                if x <= y && y <= b.len() {
                    match inflate(slice_subrange(b, x, y), capacity_hint(get_varint(&fs, 2))) {
                        Some(o) => Ok(o),
                        None => Err(PbfError::Decode),
                    }
                } else {
                    Err(PbfError::Decode)
                }
            },
            None => Err(PbfError::Format),
        },
    }
}

/// The big-endian `u32` at `i`.
pub open spec fn be_u32(s: Seq<u8>, i: int) -> int {
    s[i] * 0x100_0000 + s[i + 1] * 0x1_0000 + s[i + 2] * 0x100 + s[i + 3]
}

/// The kind of header whose payload carries entities.
pub open spec fn data_kind() -> Seq<u8> {
    seq![79u8, 83u8, 77u8, 68u8, 97u8, 116u8, 97u8]
}

/// The frame at `pos`: whether its payload carries entities, and where the
/// payload lies. `None` at a clean end of the stream.
pub open spec fn frame_at(s: Seq<u8>, pos: int) -> Result<Option<(bool, int, int)>, PbfError> {
    if pos == s.len() {
        Ok(None)
    } else if !(0 <= pos && pos + 4 <= s.len()) {
        Err(PbfError::Framing)
    } else {
        let hs = pos + 4;
        let he = hs + be_u32(s, pos);
        if he > s.len() {
            Err(PbfError::Framing)
        } else {
            let h = s.subrange(hs, he);
            match fields_of(h) {
                None => Err(PbfError::Decode),
                Some(fs) => match last_varint(fs, 3) {
                    None => Err(PbfError::Decode),
                    Some(ds) => if twos(ds) < 0 {
                        Err(PbfError::Decode)
                    } else if he + twos(ds) > s.len() {
                        Err(PbfError::Framing)
                    } else {
                        let is_data = match last_bytes(fs, 1) {
                            Some((a, b)) => a <= b <= h.len() && h.subrange(a as int, b as int)
                                == data_kind(),
                            None => false,
                        };
                        Ok(Some((is_data, he, he + twos(ds))))
                    },
                },
            }
        }
    }
}

/// The payload of the first entity-carrying frame from `pos` on; frames of
/// other kinds are passed over.
pub open spec fn next_data_frame(s: Seq<u8>, pos: int) -> Result<Option<(int, int)>, PbfError>
    decreases s.len() - pos,
{
    match frame_at(s, pos) {
        Err(e) => Err(e),
        Ok(None) => Ok(None),
        Ok(Some((d, a, b))) => if d {
            Ok(Some((a, b)))
        } else if pos < b <= s.len() {
            next_data_frame(s, b)
        } else {
            Err(PbfError::Framing)
        },
    }
}

fn is_data_kind(t: &[u8]) -> (r: bool)
    ensures
        r == (t@ == data_kind()),
{
    if t.len() != 7 {
        return false;
    }
    let r = t[0] == 79 && t[1] == 83 && t[2] == 77 && t[3] == 68 && t[4] == 97 && t[5] == 116 && t[6]
        == 97;
    if r {
        assert(t@ =~= data_kind());
    }
    r
}

fn read_frame(s: &[u8], pos: usize) -> (r: Result<Option<(bool, usize, usize)>, PbfError>)
    ensures
        match frame_at(s@, pos as int) {
            Ok(Some((d, a, b))) => r == Ok::<Option<(bool, usize, usize)>, PbfError>(
                Some((d, a as usize, b as usize)),
            ) && pos + 4 <= a <= b <= s@.len(),
            Ok(None) => r == Ok::<Option<(bool, usize, usize)>, PbfError>(None),
            Err(e) => r == Err::<Option<(bool, usize, usize)>, PbfError>(e),
        },
{
    let len = s.len();
    if pos == len {
        return Ok(None);
    }
    if pos > len || len - pos < 4 {
        return Err(PbfError::Framing);
    }
    let hl: u64 = s[pos] as u64 * 0x100_0000 + s[pos + 1] as u64 * 0x1_0000 + s[pos + 2] as u64
        * 0x100 + s[pos + 3] as u64;
    let hs = pos + 4;
    if hl > (len - hs) as u64 {
        return Err(PbfError::Framing);
    }
    let he = hs + hl as usize;
    let h = slice_subrange(s, hs, he);
    let fs = match parse_fields(h) {
        None => {
            return Err(PbfError::Decode);
        },
        Some(fs) => fs,
    };
    let ds = match get_varint(&fs, 3) {
        None => {
            return Err(PbfError::Decode);
        },
        Some(v) => decode_twos(v),
    };
    if ds < 0 {
        return Err(PbfError::Decode);
    }
    if ds as u64 > (len - he) as u64 {
        return Err(PbfError::Framing);
    }
    let is_data = match get_bytes(&fs, 1) {
        Some((a, b)) => a <= b && b <= h.len() && is_data_kind(slice_subrange(h, a, b)),
        None => false,
    };
    Ok(Some((is_data, he, he + ds as usize)))
}

/// Finds the payload of the next entity-carrying frame from `pos` on.
pub fn next_payload(s: &[u8], pos: usize) -> (r: Result<Option<(usize, usize)>, PbfError>)
    ensures
        match next_data_frame(s@, pos as int) {
            Ok(Some((a, b))) => r == Ok::<Option<(usize, usize)>, PbfError>(
                Some((a as usize, b as usize)),
            ) && pos < a <= b <= s@.len(),
            Ok(None) => r == Ok::<Option<(usize, usize)>, PbfError>(None),
            Err(e) => r == Err::<Option<(usize, usize)>, PbfError>(e),
        },
{
    let len = s.len();
    let mut q = pos;
    loop
        invariant
            len == s@.len(),
            pos <= q,
            next_data_frame(s@, pos as int) == next_data_frame(s@, q as int),
        decreases s@.len() - q,
    {
        match read_frame(s, q) {
            Err(e) => {
                return Err(e);
            },
            Ok(None) => {
                return Ok(None);
            },
            Ok(Some((d, a, b))) => {
                if d {
                    return Ok(Some((a, b)));
                }
                assert(next_data_frame(s@, q as int) == next_data_frame(s@, b as int));
                q = b;
            },
        }
    }
}

/// The entities of the next frame from `pos` on whose block yields any, and
/// the position after that frame; `None` at the end of the stream.
pub open spec fn pull(s: Seq<u8>, pos: int) -> Result<Option<(Seq<EntityView>, int)>, PbfError>
    decreases s.len() - pos,
{
    match next_data_frame(s, pos) {
        Err(e) => Err(e),
        Ok(None) => Ok(None),
        Ok(Some((a, b))) => if !(pos < a <= b <= s.len()) {
            Err(PbfError::Framing)
        } else {
            match blob_spec(s.subrange(a, b)) {
                Err(e) => Err(e),
                Ok(payload) => match block_spec(payload) {
                    Err(e) => Err(e),
                    Ok(es) => if es.len() > 0 {
                        Ok(Some((es, b)))
                    } else {
                        pull(s, b)
                    },
                },
            }
        },
    }
}

/// The state of a reader: the bytes, the position of the next frame, the
/// entities decoded but not yet served (in file order), whether the stream
/// is exhausted, and the advisory sorted flag.
pub struct ReaderView {
    pub data: Seq<u8>,
    pub pos: int,
    pub pending: Seq<EntityView>,
    pub done: bool,
    pub sorted_assumption: bool,
}

/// What one call of `next` does: serve the oldest pending entity; else pull
/// the next block. An error or the end of the stream exhausts the reader,
/// and an exhausted reader stays as it is and yields nothing.
pub open spec fn next_spec(s: ReaderView, t: ReaderView, r: Option<Result<EntityView, PbfError>>) -> bool {
    &&& t.data == s.data
    &&& t.sorted_assumption == s.sorted_assumption
    &&& if s.done {
        r is None && t == s
    } else if s.pending.len() > 0 {
        &&& r == Some(Ok::<EntityView, PbfError>(s.pending[0]))
        &&& t.pending == s.pending.drop_first()
        &&& t.pos == s.pos
        &&& !t.done
    } else {
        match pull(s.data, s.pos) {
            Err(e) => r == Some(Err::<EntityView, PbfError>(e)) && t.done,
            Ok(None) => r is None && t.done,
            Ok(Some((es, np))) => {
                &&& r == Some(Ok::<EntityView, PbfError>(es[0]))
                &&& t.pending == es.drop_first()
                &&& t.pos == np
                &&& !t.done
            },
        }
    }
}

pub open spec fn result_view(r: Option<Result<Entity, PbfError>>) -> Option<Result<EntityView, PbfError>> {
    match r {
        None => None,
        Some(Ok(e)) => Some(Ok(e@)),
        Some(Err(e)) => Some(Err(e)),
    }
}

/// Once a call of `next` has returned an error, every later call returns
/// `None` and leaves the reader as it is.
pub proof fn lemma_exhausted_after_error(
    s0: ReaderView,
    s1: ReaderView,
    s2: ReaderView,
    e: PbfError,
    r2: Option<Result<EntityView, PbfError>>,
)
    requires
        next_spec(s0, s1, Some(Err::<EntityView, PbfError>(e))),
        next_spec(s1, s2, r2),
    ensures
        r2 is None,
        s2 == s1,
{
}

/// Reads the entities of a PBF file held in memory, one block at a time,
/// in file order.
pub struct PbfReader {
    data: Vec<u8>,
    pos: usize,
    /// The pending entities, the oldest last.
    buffer: Vec<Entity>,
    done: bool,
    sorted_assumption: bool,
}

impl View for PbfReader {
    type V = ReaderView;

    closed spec fn view(&self) -> ReaderView {
        ReaderView {
            data: self.data@,
            pos: self.pos as int,
            pending: Seq::new(
                self.buffer@.len(),
                |i: int| self.buffer@[self.buffer@.len() - 1 - i]@,
            ),
            done: self.done,
            sorted_assumption: self.sorted_assumption,
        }
    }
}

fn reversed(es: Vec<Entity>) -> (r: Vec<Entity>)
    ensures
        r@.len() == es@.len(),
        forall|i: int| 0 <= i < r@.len() ==> #[trigger] r@[i] == es@[es@.len() - 1 - i],
{
    let ghost orig = es@;
    let mut es = es;
    let mut out: Vec<Entity> = Vec::new();
    while es.len() > 0
        invariant
            out@.len() + es@.len() == orig.len(),
            es@ == orig.take(es@.len() as int),
            forall|k: int| 0 <= k < out@.len() ==> #[trigger] out@[k] == orig[orig.len() - 1 - k],
        decreases es@.len(),
    {
        match es.pop() {
            Some(x) => {
                out.push(x);
            },
            None => {},
        }
        assert(es@ =~= orig.take(es@.len() as int));
    }
    out
}

/// Decodes frames from `pos` on until a block yields entities.
fn pull_block(s: &[u8], pos: usize) -> (r: Result<Option<(Vec<Entity>, usize)>, PbfError>)
    ensures
        match pull(s@, pos as int) {
            Err(e) => r == Err::<Option<(Vec<Entity>, usize)>, PbfError>(e),
            Ok(None) => r matches Ok(None),
            Ok(Some((es, np))) => r matches Ok(Some((v, q))) && views(v@) == es && q == np && es.len()
                > 0,
        },
{
    let len = s.len();
    let mut q = pos;
    loop
        invariant
            len == s@.len(),
            pos <= q,
            pull(s@, pos as int) == pull(s@, q as int),
        decreases s@.len() - q,
    {
        let (a, b) = match next_payload(s, q) {
            Err(e) => {
                return Err(e);
            },
            Ok(None) => {
                return Ok(None);
            },
            Ok(Some(p)) => p,
        };
        let payload = match extract(slice_subrange(s, a, b)) {
            Err(e) => {
                return Err(e);
            },
            Ok(p) => p,
        };
        let es = match decode_block(payload.as_slice()) {
            Err(e) => {
                return Err(e);
            },
            Ok(es) => es,
        };
        if es.len() > 0 {
            return Ok(Some((es, b)));
        }
        assert(pull(s@, q as int) == pull(s@, b as int));
        q = b;
    }
}

impl PbfReader {
    /// A reader over the bytes of a whole file.
    pub fn new(data: Vec<u8>) -> (r: PbfReader)
        ensures
            r@.data == data@,
            r@.pos == 0,
            r@.pending.len() == 0,
            !r@.done,
            !r@.sorted_assumption,
    {
        PbfReader { data, pos: 0, buffer: Vec::new(), done: false, sorted_assumption: false }
    }

    /// Records whether the caller may assume the file is sorted; the decoder
    /// does not use it.
    pub fn set_sorted_assumption(&mut self, sorted_assumption: bool)
        ensures
            final(self)@ == (ReaderView { sorted_assumption, ..old(self)@ }),
    {
        self.sorted_assumption = sorted_assumption;
    }

    pub fn get_sorted_assumption(&self) -> (r: bool)
        ensures
            r == self@.sorted_assumption,
    {
        self.sorted_assumption
    }

    /// The bytes the reader reads.
    pub fn inner(&self) -> (r: &Vec<u8>)
        ensures
            r@ == self@.data,
    {
        &self.data
    }

    /// Gives the bytes back.
    pub fn into_inner(self) -> (r: Vec<u8>)
        ensures
            r@ == self@.data,
    {
        self.data
    }

    /// The next entity in file order, the first error met, or `None` once
    /// the stream is exhausted.
    pub fn next(&mut self) -> (r: Option<Result<Entity, PbfError>>)
        ensures
            next_spec(old(self)@, final(self)@, result_view(r)),
    {
        if self.done {
            return None;
        }
        if self.buffer.len() == 0 {
            match pull_block(self.data.as_slice(), self.pos) {
                Err(e) => {
                    self.done = true;
                    return Some(Err(e));
                },
                Ok(None) => {
                    self.done = true;
                    return None;
                },
                Ok(Some((es, np))) => {
                    let ghost ev = views(es@);
                    self.pos = np;
                    self.buffer = reversed(es);
                    assert(self@.pending =~= ev);
                },
            }
        }
        let ghost before = self@.pending;
        match self.buffer.pop() {
            Some(e) => {
                assert(self@.pending =~= before.drop_first());
                Some(Ok(e))
            },
            None => None,
        }
    }
}

/// The length in a frame's 4-byte prefix, given the bytes that could be read
/// of it: none at a clean end of the stream, a framing error when cut short.
pub open spec fn prefix_spec(b: Seq<u8>) -> Result<Option<int>, PbfError> {
    if b.len() == 0 {
        Ok(None)
    } else if b.len() == 4 {
        Ok(Some(be_u32(b, 0)))
    } else {
        Err(PbfError::Framing)
    }
}

/// Whether a `BlobHeader` announces entity data, and its payload's length.
pub open spec fn header_spec(h: Seq<u8>) -> Result<(bool, int), PbfError> {
    match fields_of(h) {
        None => Err(PbfError::Decode),
        Some(fs) => match last_varint(fs, 3) {
            None => Err(PbfError::Decode),
            Some(ds) => if twos(ds) < 0 {
                Err(PbfError::Decode)
            } else {
                let is_data = match last_bytes(fs, 1) {
                    Some((a, b)) => a <= b <= h.len() && h.subrange(a as int, b as int)
                        == data_kind(),
                    None => false,
                };
                Ok((is_data, twos(ds)))
            },
        },
    }
}

/// Reads the length prefix of a frame from the bytes that could be read of it.
pub fn frame_length(b: &[u8]) -> (r: Result<Option<usize>, PbfError>)
    ensures
        match prefix_spec(b@) {
            Ok(Some(n)) => r == Ok::<Option<usize>, PbfError>(Some(n as usize)) && n <= u32::MAX,
            Ok(None) => r == Ok::<Option<usize>, PbfError>(None),
            Err(e) => r == Err::<Option<usize>, PbfError>(e),
        },
{
    if b.len() == 0 {
        Ok(None)
    } else if b.len() == 4 {
        let n: u64 = b[0] as u64 * 0x100_0000 + b[1] as u64 * 0x1_0000 + b[2] as u64 * 0x100
            + b[3] as u64;
        Ok(Some(n as usize))
    } else {
        Err(PbfError::Framing)
    }
}

/// Reads a `BlobHeader`: whether its payload carries entities, and its length.
pub fn read_header(h: &[u8]) -> (r: Result<(bool, usize), PbfError>)
    ensures
        match header_spec(h@) {
            Ok((d, n)) => r == Ok::<(bool, usize), PbfError>((d, n as usize)) && 0 <= n
                <= i64::MAX,
            Err(e) => r == Err::<(bool, usize), PbfError>(e),
        },
{
    let fs = match parse_fields(h) {
        None => {
            return Err(PbfError::Decode);
        },
        Some(fs) => fs,
    };
    let ds = match get_varint(&fs, 3) {
        None => {
            return Err(PbfError::Decode);
        },
        Some(v) => decode_twos(v),
    };
    if ds < 0 {
        return Err(PbfError::Decode);
    }
    let is_data = match get_bytes(&fs, 1) {
        Some((a, b)) => a <= b && b <= h.len() && is_data_kind(slice_subrange(h, a, b)),
        None => false,
    };
    Ok((is_data, ds as usize))
}

/// Which part of a frame a stream reads next.
#[derive(Debug, Clone, Copy, PartialEq, Eq, Structural)]
pub enum Phase {
    /// The 4-byte length prefix.
    Prefix,
    /// A header of this many bytes.
    Header(usize),
    /// A payload of this many bytes, and whether it carries entities.
    Payload(bool, usize),
}

/// What the caller of a stream does next.
#[derive(Debug)]
pub enum Action {
    /// Read this many bytes (fewer only at the end of the stream) and feed them.
    Read(usize),
    /// The next entity, in file order.
    Yield(Entity),
    /// The first error met; after it the stream is exhausted.
    Fail(PbfError),
    /// The stream is exhausted.
    End,
}

pub enum ActionView {
    Read(int),
    Yield(EntityView),
    Fail(PbfError),
    End,
}

pub open spec fn action_view(a: Action) -> ActionView {
    match a {
        Action::Read(n) => ActionView::Read(n as int),
        Action::Yield(e) => ActionView::Yield(e@),
        Action::Fail(e) => ActionView::Fail(e),
        Action::End => ActionView::End,
    }
}

/// The state of a stream: the phase of the frame being read, the entities
/// decoded but not yet served (in file order), an error not yet reported,
/// and whether the stream is exhausted.
pub struct StreamView {
    pub phase: Phase,
    pub pending: Seq<EntityView>,
    pub error: Option<PbfError>,
    pub done: bool,
    pub sorted_assumption: bool,
}

pub open spec fn phase_need(p: Phase) -> int {
    match p {
        Phase::Prefix => 4,
        Phase::Header(n) => n as int,
        Phase::Payload(_, n) => n as int,
    }
}

/// What one call of `poll` does: nothing once exhausted; else report a
/// pending error and become exhausted; else serve the oldest pending entity;
/// else ask for the bytes of the current phase.
pub open spec fn poll_spec(s: StreamView, t: StreamView, r: ActionView) -> bool {
    if s.done {
        r == ActionView::End && t == s
    } else if s.error is Some {
        r == ActionView::Fail(s.error->0) && t == (StreamView { error: None, done: true, ..s })
    } else if s.pending.len() > 0 {
        r == ActionView::Yield(s.pending[0]) && t == (StreamView {
            pending: s.pending.drop_first(),
            ..s
        })
    } else {
        r == ActionView::Read(phase_need(s.phase)) && t == s
    }
}

/// Once `poll` has reported an error, later polls report the end of the
/// stream, and feeding bytes changes nothing.
pub proof fn lemma_stream_exhausted_after_error(
    s0: StreamView,
    s1: StreamView,
    s2: StreamView,
    e: PbfError,
    r2: ActionView,
    b: Seq<u8>,
)
    requires
        poll_spec(s0, s1, ActionView::Fail(e)),
        poll_spec(s1, s2, r2),
    ensures
        r2 == ActionView::End,
        s2 == s1,
        feed_spec(s1, b) == s1,
{
}

/// What feeding the bytes `b` read for the current phase does. Outside its
/// turn (exhausted, an error or entities pending) it changes nothing.
pub open spec fn feed_spec(s: StreamView, b: Seq<u8>) -> StreamView {
    if s.done || s.error is Some || s.pending.len() > 0 {
        s
    } else {
        match s.phase {
            Phase::Prefix => match prefix_spec(b) {
                Ok(None) => StreamView { done: true, ..s },
                Ok(Some(n)) => StreamView { phase: Phase::Header(n as usize), ..s },
                Err(e) => StreamView { error: Some(e), ..s },
            },
            Phase::Header(n) => if b.len() != n {
                StreamView { error: Some(PbfError::Framing), ..s }
            } else {
                match header_spec(b) {
                    Ok((d, m)) => StreamView { phase: Phase::Payload(d, m as usize), ..s },
                    Err(e) => StreamView { error: Some(e), ..s },
                }
            },
            Phase::Payload(d, n) => if b.len() != n {
                StreamView { error: Some(PbfError::Framing), ..s }
            } else if !d {
                StreamView { phase: Phase::Prefix, ..s }
            } else {
                match blob_spec(b) {
                    Err(e) => StreamView { error: Some(e), ..s },
                    Ok(payload) => match block_spec(payload) {
                        Err(e) => StreamView { error: Some(e), ..s },
                        Ok(es) => StreamView { phase: Phase::Prefix, pending: es, ..s },
                    },
                }
            },
        }
    }
}

/// Decodes a PBF stream one frame at a time: the caller reads the bytes each
/// `Read` asks for and feeds them back.
pub struct PbfStream {
    phase: Phase,
    /// The pending entities, the oldest last.
    buffer: Vec<Entity>,
    error: Option<PbfError>,
    done: bool,
    sorted_assumption: bool,
}

impl View for PbfStream {
    type V = StreamView;

    closed spec fn view(&self) -> StreamView {
        StreamView {
            phase: self.phase,
            pending: Seq::new(
                self.buffer@.len(),
                |i: int| self.buffer@[self.buffer@.len() - 1 - i]@,
            ),
            error: self.error,
            done: self.done,
            sorted_assumption: self.sorted_assumption,
        }
    }
}

impl PbfStream {
    pub fn new() -> (r: PbfStream)
        ensures
            r@.phase == Phase::Prefix,
            r@.pending.len() == 0,
            r@.error is None,
            !r@.done,
            !r@.sorted_assumption,
    {
        PbfStream {
            phase: Phase::Prefix,
            buffer: Vec::new(),
            error: None,
            done: false,
            sorted_assumption: false,
        }
    }

    /// Records whether the caller may assume the file is sorted; the decoder
    /// does not use it.
    pub fn set_sorted_assumption(&mut self, sorted_assumption: bool)
        ensures
            final(self)@ == (StreamView { sorted_assumption, ..old(self)@ }),
    {
        self.sorted_assumption = sorted_assumption;
    }

    pub fn get_sorted_assumption(&self) -> (r: bool)
        ensures
            r == self@.sorted_assumption,
    {
        self.sorted_assumption
    }

    /// What to do next.
    pub fn poll(&mut self) -> (r: Action)
        ensures
            poll_spec(old(self)@, final(self)@, action_view(r)),
    {
        if self.done {
            return Action::End;
        }
        if let Some(e) = self.error {
            self.error = None;
            self.done = true;
            return Action::Fail(e);
        }
        let ghost before = self@.pending;
        match self.buffer.pop() {
            Some(e) => {
                assert(self@.pending =~= before.drop_first());
                Action::Yield(e)
            },
            None => match self.phase {
                Phase::Prefix => Action::Read(4),
                Phase::Header(n) => Action::Read(n),
                Phase::Payload(_, n) => Action::Read(n),
            },
        }
    }

    /// Hands in the bytes read for the last `Read`.
    pub fn feed(&mut self, b: &[u8])
        ensures
            final(self)@ == feed_spec(old(self)@, b@),
    {
        if self.done || self.error.is_some() || self.buffer.len() > 0 {
            return;
        }
        match self.phase {
            Phase::Prefix => match frame_length(b) {
                Ok(None) => {
                    self.done = true;
                },
                Ok(Some(n)) => {
                    self.phase = Phase::Header(n);
                },
                Err(e) => {
                    self.error = Some(e);
                },
            },
            Phase::Header(n) => {
                if b.len() != n {
                    self.error = Some(PbfError::Framing);
                } else {
                    match read_header(b) {
                        Ok((d, m)) => {
                            self.phase = Phase::Payload(d, m);
                        },
                        Err(e) => {
                            self.error = Some(e);
                        },
                    }
                }
            },
            Phase::Payload(d, n) => {
                if b.len() != n {
                    self.error = Some(PbfError::Framing);
                } else if !d {
                    self.phase = Phase::Prefix;
                } else {
                    match extract(b) {
                        Err(e) => {
                            self.error = Some(e);
                        },
                        Ok(payload) => match decode_block(payload.as_slice()) {
                            Err(e) => {
                                self.error = Some(e);
                            },
                            Ok(es) => {
                                let ghost ev = views(es@);
                                self.buffer = reversed(es);
                                self.phase = Phase::Prefix;
                                assert(self@.pending =~= ev);
                            },
                        },
                    }
                }
            },
        }
    }
}

} // verus!
