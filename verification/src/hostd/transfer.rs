//! The transfer of snapshot files between hosts.
//!
//! A file travels as `name length · name · data length · data · checksum`, numbers most
//! significant byte first, and a name length of zero ends the stream. The data moves in chunks, so
//! that a file never has to fit in memory, and the receiver takes a file only once its checksum
//! agrees. [`FileSender`] and [`Receiver`] are the two ends, a chunk at a time; [`send_files`] and
//! [`recv_files`] run them over a stream that is held in memory.

use vstd::prelude::*;
use vstd::utf8;

use crate::bytes;
use crate::bytes::{append_bytes, bytes_of, number_of};
use crate::text;
use crate::text::{contains_char, contains_text};

verus! {

/// The most data that moves at once.
pub const CHUNK: usize = 65536;

/// Why a transfer failed.
#[derive(Debug, PartialEq, Eq)]
pub enum TransferError {
    /// An I/O error of a file or the stream.
    Io(String),
    /// The data that arrived is not what was sent.
    Checksum {
        /// The file.
        file: String,
        /// The checksum that came with the file.
        expected: u32,
        /// The checksum of what arrived.
        got: u32,
    },
    /// The stream does not follow the format.
    Protocol(String),
}

// ---------------------------------------------------------------------------
// Checksums
// ---------------------------------------------------------------------------

/// What `crc32fast::Hasher` finalizes to after starting from the checksum `init` and taking in
/// `data`.
pub uninterp spec fn crc32_from(init: u32, data: Seq<u8>) -> u32;

/// The checksum of `data`.
pub open spec fn crc32(data: Seq<u8>) -> u32 {
    crc32_from(0, data)
}

/// `crc32fast::Hasher`: started with `new_with_initial`, updated with one chunk and finalized. The
/// hasher's whole state is the checksum so far, so going on from the checksum of what came before
/// is the same as having taken in both in one go.
#[verifier::external_body]
fn extend_crc32(init: u32, chunk: &[u8]) -> (crc: u32)
    ensures
        crc == crc32_from(init, chunk@),
        forall|first: u32, before: Seq<u8>|
            init == #[trigger] crc32_from(first, before) ==> crc == crc32_from(
                first,
                before + chunk@,
            ),
{
    let mut hasher = crc32fast::Hasher::new_with_initial(init);
    hasher.update(chunk);
    hasher.finalize()
}

/// The checksum of no data.
fn start_crc32() -> (crc: u32)
    ensures
        crc == crc32(Seq::empty()),
{
    let nothing: Vec<u8> = Vec::new();
    extend_crc32(0, nothing.as_slice())
}

// ---------------------------------------------------------------------------
// The format
// ---------------------------------------------------------------------------

/// A file as it travels: its name and its data.
pub type FileModel = (Seq<char>, Seq<u8>);

/// What comes before a file's data.
pub open spec fn header(name: Seq<char>, len: nat) -> Seq<u8> {
    bytes::to_be(utf8::encode_utf8(name).len(), 2) + utf8::encode_utf8(name) + bytes::to_be(len, 8)
}

/// A whole file.
pub open spec fn frame(file: FileModel) -> Seq<u8> {
    header(file.0, file.1.len()) + file.1 + bytes::to_be(crc32(file.1) as nat, 4)
}

/// Files one after the other.
pub open spec fn frames(files: Seq<FileModel>) -> Seq<u8>
    decreases files.len(),
{
    if files.len() == 0 {
        Seq::empty()
    } else {
        frames(files.drop_last()) + frame(files.last())
    }
}

/// What ends a stream.
pub open spec fn end_marker() -> Seq<u8> {
    bytes::to_be(0, 2)
}

/// A whole stream.
pub open spec fn stream(files: Seq<FileModel>) -> Seq<u8> {
    frames(files) + end_marker()
}

/// Whether a name's length can be written down.
pub open spec fn sendable_name(name: Seq<char>) -> bool {
    utf8::encode_utf8(name).len() <= 0xffff
}

/// Whether a name stays within the directory that files are received into.
pub open spec fn safe_name(name: Seq<char>) -> bool {
    &&& name.len() > 0
    &&& !name.contains('/')
    &&& !name.contains('\\')
    &&& !text::has_part(name, ".."@)
}

/// Why a stream is refused.
pub ghost enum Failure {
    /// It ends too early.
    EarlyEnd,
    /// A name is not UTF-8.
    NotUtf8,
    /// A name does not stay within the directory.
    UnsafeName(Seq<char>),
    /// A file's checksum does not agree with its data.
    BadChecksum(Seq<char>, nat, u32),
}

/// What a stream holds.
pub ghost enum Parsed {
    /// These files.
    Files(Seq<FileModel>),
    /// Something that is refused.
    Refused(Failure),
}

/// What a stream holds, read from its beginning. What follows the end marker is not looked at.
pub open spec fn parse(s: Seq<u8>) -> Parsed
    decreases s.len(),
{
    let n = bytes::be(s.take(2)) as int;
    let name_bytes = s.subrange(2, 2 + n);
    let name = utf8::decode_utf8(name_bytes);
    let len = bytes::be(s.subrange(2 + n, 10 + n)) as int;
    let data = s.subrange(10 + n, 10 + n + len);
    let expected = bytes::be(s.subrange(10 + n + len, 14 + n + len));
    if s.len() < 2 {
        Parsed::Refused(Failure::EarlyEnd)
    } else if n == 0 {
        Parsed::Files(Seq::empty())
    } else if s.len() < 2 + n {
        Parsed::Refused(Failure::EarlyEnd)
    } else if !utf8::valid_utf8(name_bytes) {
        Parsed::Refused(Failure::NotUtf8)
    } else if !safe_name(name) {
        Parsed::Refused(Failure::UnsafeName(name))
    } else if s.len() < 14 + n + len {
        Parsed::Refused(Failure::EarlyEnd)
    } else if expected != crc32(data) {
        Parsed::Refused(Failure::BadChecksum(name, expected, crc32(data)))
    } else {
        match parse(s.skip(14 + n + len)) {
            Parsed::Files(rest) => Parsed::Files(seq![(name, data)] + rest),
            refused => refused,
        }
    }
}

/// What a stream holds whose first files are known.
pub open spec fn after_files(files: Seq<FileModel>, rest: Parsed) -> Parsed {
    match rest {
        Parsed::Files(more) => Parsed::Files(files + more),
        refused => refused,
    }
}

/// Whether a file can be sent and will be taken.
pub open spec fn travels(file: FileModel) -> bool {
    safe_name(file.0) && sendable_name(file.0) && file.1.len() <= u64::MAX
}

/// A name that is not empty has bytes.
proof fn lemma_name_has_bytes(name: Seq<char>)
    requires
        name.len() > 0,
    ensures
        utf8::encode_utf8(name).len() > 0,
{
    utf8::encode_utf8_decode_utf8(name);
}

/// The parts of a frame lie where the reading of it looks for them.
proof fn lemma_frame_parts(file: FileModel, rest: Seq<u8>)
    requires
        sendable_name(file.0),
        file.1.len() <= u64::MAX,
    ensures
        ({
            let nb = utf8::encode_utf8(file.0);
            let n = nb.len() as int;
            let len = file.1.len() as int;
            let s = frame(file) + rest;
            &&& s.len() == 14 + n + len + rest.len()
            &&& bytes::be(s.take(2)) == n
            &&& s.subrange(2, 2 + n) == nb
            &&& bytes::be(s.subrange(2 + n, 10 + n)) == len
            &&& s.subrange(10 + n, 10 + n + len) == file.1
            &&& bytes::be(s.subrange(10 + n + len, 14 + n + len)) == crc32(file.1)
            &&& s.skip(14 + n + len) == rest
        }),
{
    let nb = utf8::encode_utf8(file.0);
    let n = nb.len() as int;
    let len = file.1.len() as int;
    let s = frame(file) + rest;
    bytes::lemma_ranges();
    bytes::lemma_to_be_len(n as nat, 2);
    bytes::lemma_to_be_len(len as nat, 8);
    bytes::lemma_to_be_len(crc32(file.1) as nat, 4);
    bytes::lemma_be_of_to_be(n as nat, 2);
    bytes::lemma_be_of_to_be(len as nat, 8);
    bytes::lemma_be_of_to_be(crc32(file.1) as nat, 4);
    assert(s.take(2) =~= bytes::to_be(n as nat, 2));
    assert(s.subrange(2, 2 + n) =~= nb);
    assert(s.subrange(2 + n, 10 + n) =~= bytes::to_be(len as nat, 8));
    assert(s.subrange(10 + n, 10 + n + len) =~= file.1);
    assert(s.subrange(10 + n + len, 14 + n + len) =~= bytes::to_be(crc32(file.1) as nat, 4));
    assert(s.skip(14 + n + len) =~= rest);
}

/// A file that travels is read back, and the reading goes on behind it.
proof fn lemma_parse_frame(file: FileModel, rest: Seq<u8>)
    requires
        travels(file),
    ensures
        parse(frame(file) + rest) == after_files(seq![file], parse(rest)),
{
    lemma_frame_parts(file, rest);
    lemma_name_has_bytes(file.0);
    utf8::encode_utf8_valid_utf8(file.0);
    utf8::encode_utf8_decode_utf8(file.0);
}

/// Files that travel are read back, and the reading goes on behind them.
proof fn lemma_parse_frames(files: Seq<FileModel>, rest: Seq<u8>)
    requires
        forall|i: int| 0 <= i < files.len() ==> travels(#[trigger] files[i]),
    ensures
        parse(frames(files) + rest) == after_files(files, parse(rest)),
    decreases files.len(),
{
    if files.len() == 0 {
        assert(frames(files) + rest =~= rest);
        if let Parsed::Files(more) = parse(rest) {
            assert(files + more =~= more);
        }
    } else {
        let init = files.drop_last();
        let last = files.last();
        assert(frames(files) + rest =~= frames(init) + (frame(last) + rest));
        assert(travels(files[files.len() - 1]));
        lemma_parse_frame(last, rest);
        assert forall|i: int| 0 <= i < init.len() implies travels(#[trigger] init[i]) by {
            assert(init[i] == files[i]);
        }
        lemma_parse_frames(init, frame(last) + rest);
        if let Parsed::Files(more) = parse(rest) {
            assert(init + (seq![last] + more) =~= files + more);
        }
    }
}

/// What was sent is received: the files of a stream, byte for byte and in order.
pub proof fn law_stream_round_trip(files: Seq<FileModel>)
    requires
        forall|i: int| 0 <= i < files.len() ==> travels(#[trigger] files[i]),
    ensures
        parse(stream(files)) == Parsed::Files(files),
{
    lemma_parse_frames(files, end_marker());
    bytes::lemma_to_be_len(0, 2);
    bytes::lemma_ranges();
    bytes::lemma_be_of_to_be(0, 2);
    assert(end_marker().take(2) =~= end_marker());
    assert(files + Seq::<FileModel>::empty() =~= files);
}

/// Corruption is caught: where data arrives that differs from what was sent and has another
/// checksum, the stream is refused, and the refusal names the file and both checksums.
pub proof fn law_corruption_is_caught(
    before: Seq<FileModel>,
    file: FileModel,
    arrived: Seq<u8>,
    rest: Seq<u8>,
)
    requires
        forall|i: int| 0 <= i < before.len() ==> travels(#[trigger] before[i]),
        travels(file),
        arrived.len() == file.1.len(),
        crc32(arrived) != crc32(file.1),
    ensures
        parse(
            frames(before) + (header(file.0, file.1.len()) + arrived + bytes::to_be(
                crc32(file.1) as nat,
                4,
            ) + rest),
        ) == Parsed::Refused(Failure::BadChecksum(file.0, crc32(file.1) as nat, crc32(arrived))),
{
    let trailer = bytes::to_be(crc32(file.1) as nat, 4);
    let tail = header(file.0, file.1.len()) + arrived + trailer + rest;
    lemma_parse_frames(before, tail);
    let nb = utf8::encode_utf8(file.0);
    let n = nb.len() as int;
    let len = arrived.len() as int;
    bytes::lemma_ranges();
    bytes::lemma_to_be_len(n as nat, 2);
    bytes::lemma_to_be_len(len as nat, 8);
    bytes::lemma_to_be_len(crc32(file.1) as nat, 4);
    bytes::lemma_be_of_to_be(n as nat, 2);
    bytes::lemma_be_of_to_be(len as nat, 8);
    bytes::lemma_be_of_to_be(crc32(file.1) as nat, 4);
    assert(tail.take(2) =~= bytes::to_be(n as nat, 2));
    assert(tail.subrange(2, 2 + n) =~= nb);
    assert(tail.subrange(2 + n, 10 + n) =~= bytes::to_be(len as nat, 8));
    assert(tail.subrange(10 + n, 10 + n + len) =~= arrived);
    assert(tail.subrange(10 + n + len, 14 + n + len) =~= trailer);
    lemma_name_has_bytes(file.0);
    utf8::encode_utf8_valid_utf8(file.0);
    utf8::encode_utf8_decode_utf8(file.0);
}

/// Only safe names are taken, whatever stream arrives.
pub proof fn law_received_names_are_safe(s: Seq<u8>, i: int)
    ensures
        parse(s) matches Parsed::Files(files) ==> 0 <= i < files.len() ==> safe_name(files[i].0),
    decreases s.len(),
{
    if let Parsed::Files(files) = parse(s) {
        let n = bytes::be(s.take(2)) as int;
        let len = bytes::be(s.subrange(2 + n, 10 + n)) as int;
        if n > 0 && i > 0 {
            law_received_names_are_safe(s.skip(14 + n + len), i - 1);
        }
    }
}

// ---------------------------------------------------------------------------
// Sending
// ---------------------------------------------------------------------------

/// `a` followed by `b`.
fn joined(a: &str, b: &str) -> (out: String)
    ensures
        out@ == a@ + b@,
{
    let mut out = a.to_owned();
    out.append(b);
    out
}

/// The sending of one file, chunk by chunk.
pub struct FileSender {
    name: String,
    remaining: u64,
    crc: u32,
    data: Ghost<Seq<u8>>,
}

impl FileSender {
    #[verifier::type_invariant]
    spec fn wf(self) -> bool {
        self.crc == crc32(self.data@)
    }

    /// The file's name.
    pub closed spec fn file(&self) -> Seq<char> {
        self.name@
    }

    /// The data that was sent.
    pub closed spec fn sent(&self) -> Seq<u8> {
        self.data@
    }

    /// How much data is still to be sent.
    pub closed spec fn left(&self) -> nat {
        self.remaining as nat
    }

    /// How much data goes out next, at most.
    pub open spec fn next_chunk(&self) -> nat {
        if self.left() < CHUNK {
            self.left()
        } else {
            CHUNK as nat
        }
    }

    /// Begins a file of `len` bytes: the sender, and the bytes to send first.
    pub fn begin(name: &str, len: u64) -> (r: Result<(FileSender, Vec<u8>), TransferError>)
        ensures
            match r {
                Ok((sender, first)) => {
                    &&& sendable_name(name@)
                    &&& sender.file() == name@
                    &&& sender.sent() == Seq::<u8>::empty()
                    &&& sender.left() == len
                    &&& first@ == header(name@, len as nat)
                },
                Err(e) => !sendable_name(name@) && (e matches TransferError::Protocol(detail)
                    && detail@ == "name too long: "@ + name@),
            },
    {
        let name_bytes = name.as_bytes();
        if name_bytes.len() > 0xffff {
            return Err(TransferError::Protocol(joined("name too long: ", name)));
        }
        let mut first = bytes_of(name_bytes.len() as u64, 2);
        append_bytes(&mut first, name_bytes);
        append_bytes(&mut first, bytes_of(len, 8).as_slice());
        let sender = FileSender {
            name: name.to_owned(),
            remaining: len,
            crc: start_crc32(),
            data: Ghost(Seq::empty()),
        };
        Ok((sender, first))
    }

    /// How much data to read and send next, at most; zero once all was sent.
    pub fn want(&self) -> (n: usize)
        ensures
            n == self.next_chunk(),
    {
        if self.remaining < CHUNK as u64 {
            self.remaining as usize
        } else {
            CHUNK
        }
    }

    /// Takes the next piece of data into account, which is then to be sent as it is. No data where
    /// some was still to come means that the file is shorter than it was said to be.
    pub fn chunk(self, piece: &[u8]) -> (r: Result<FileSender, TransferError>)
        requires
            piece@.len() <= self.next_chunk(),
            self.left() > 0,
        ensures
            match r {
                Ok(next) => {
                    &&& piece@.len() > 0
                    &&& next.file() == self.file()
                    &&& next.sent() == self.sent() + piece@
                    &&& next.left() == self.left() - piece@.len()
                },
                Err(e) => piece@.len() == 0 && (e matches TransferError::Protocol(detail) && detail@
                    == self.file() + " is shorter than its declared length"@),
            },
    {
        proof {
            use_type_invariant(&self);
        }
        if piece.len() == 0 {
            return Err(
                TransferError::Protocol(
                    joined(&self.name, " is shorter than its declared length"),
                ),
            );
        }
        let crc: u32 = extend_crc32(self.crc, piece);
        let remaining: u64 = self.remaining - piece.len() as u64;
        Ok(FileSender { name: self.name, remaining, crc, data: Ghost(self.data@ + piece@) })
    }

    /// The bytes that end the file.
    pub fn trailer(&self) -> (last: Vec<u8>)
        ensures
            last@ == bytes::to_be(crc32(self.sent()) as nat, 4),
    {
        proof {
            use_type_invariant(self);
        }
        bytes_of(self.crc as u64, 4)
    }
}

/// The bytes that end a stream.
pub fn stream_end() -> (last: Vec<u8>)
    ensures
        last@ == end_marker(),
{
    bytes_of(0, 2)
}

/// A file to be sent.
#[derive(Clone, Debug, PartialEq, Eq)]
pub struct OutboundFile {
    /// The name that it has at the target.
    pub name: String,
    /// Where it lies here.
    pub path: String,
}

impl OutboundFile {
    /// The file's name and path.
    pub open spec fn model(&self) -> (Seq<char>, Seq<char>) {
        (self.name@, self.path@)
    }
}

/// The names and paths of files.
pub open spec fn file_models(files: Seq<OutboundFile>) -> Seq<(Seq<char>, Seq<char>)> {
    files.map_values(|f: OutboundFile| f.model())
}

/// A file held in memory: to be sent, or received.
#[derive(Debug, PartialEq, Eq)]
pub struct FileInMemory {
    /// The name the receiver writes it under.
    pub name: String,
    /// Its data.
    pub data: Vec<u8>,
}

/// The files as they travel.
pub open spec fn models(files: Seq<FileInMemory>) -> Seq<FileModel> {
    files.map_values(|f: FileInMemory| (f.name@, f.data@))
}

/// How many of the files come before the first whose name is too long to send.
pub open spec fn sendable(files: Seq<FileModel>) -> nat
    decreases files.len(),
{
    if files.len() == 0 || !sendable_name(files[0].0) {
        0
    } else {
        1 + sendable(files.skip(1))
    }
}

/// Appends one file to a stream.
fn send_file(out: &mut Vec<u8>, file: &FileInMemory) -> (r: Result<(), TransferError>)
    ensures
        match r {
            Ok(_) => sendable_name(file.name@) && final(out)@ == old(out)@ + frame(
                (file.name@, file.data@),
            ),
            Err(e) => {
                &&& !sendable_name(file.name@)
                &&& final(out)@ == old(out)@
                &&& e matches TransferError::Protocol(detail) && detail@ == "name too long: "@
                    + file.name@
            },
        },
{
    let ghost before = out@;
    let len: usize = file.data.len();
    let (mut sender, first) = match FileSender::begin(&file.name, len as u64) {
        Ok(begun) => begun,
        Err(e) => {
            return Err(e);
        },
    };
    append_bytes(out, first.as_slice());
    let mut at: usize = 0;
    proof {
        assert(before + first@ =~= before + first@ + file.data@.take(0));
    }
    while at < len
        invariant
            at <= len == file.data@.len(),
            sender.file() == file.name@,
            sender.left() == len - at,
            sender.sent() == file.data@.take(at as int),
            out@ == before + first@ + file.data@.take(at as int),
        decreases len - at,
    {
        let n: usize = sender.want();
        let data = file.data.as_slice();
        let piece = &data[at..at + n];
        proof {
            assert(file.data@.take(at as int) + piece@ =~= file.data@.take(at + n));
        }
        sender =
        match sender.chunk(piece) {
            Ok(next) => next,
            Err(e) => {
                return Err(e);
            },
        };
        append_bytes(out, piece);
        proof {
            assert(before + first@ + file.data@.take(at as int) + piece@ =~= before + first@
                + file.data@.take(at + n));
        }
        at = at + n;
    }
    proof {
        assert(file.data@.take(at as int) =~= file.data@);
    }
    let last = sender.trailer();
    append_bytes(out, last.as_slice());
    proof {
        assert(out@ =~= before + frame((file.name@, file.data@)));
    }
    Ok(())
}

/// Writes a whole stream to `out`. A name that is too long ends the sending there, with the files
/// before it already written.
pub fn send_files(out: &mut Vec<u8>, files: &Vec<FileInMemory>) -> (r: Result<(), TransferError>)
    ensures
        match r {
            Ok(_) => {
                &&& sendable(models(files@)) == files@.len()
                &&& final(out)@ == old(out)@ + stream(models(files@))
            },
            Err(e) => {
                let n = sendable(models(files@)) as int;
                &&& n < files@.len()
                &&& final(out)@ == old(out)@ + frames(models(files@).take(n))
                &&& e matches TransferError::Protocol(detail) && detail@ == "name too long: "@
                    + files@[n].name@
            },
        },
{
    let ghost before = out@;
    let ghost all = models(files@);
    let mut i: usize = 0;
    proof {
        assert(before + frames(all.take(0)) =~= before);
        assert(all.skip(0) =~= all);
    }
    while i < files.len()
        invariant
            i <= files@.len(),
            all == models(files@),
            before == old(out)@,
            out@ == before + frames(all.take(i as int)),
            sendable(all) == i + sendable(all.skip(i as int)),
        decreases files@.len() - i,
    {
        proof {
            assert(all[i as int] == (files@[i as int].name@, files@[i as int].data@));
            assert(all.skip(i as int)[0] == all[i as int]);
            assert(all.skip(i as int).skip(1) =~= all.skip(i + 1));
            assert(all.take(i + 1).drop_last() =~= all.take(i as int));
        }
        match send_file(out, &files[i]) {
            Ok(()) => {},
            Err(e) => {
                proof {
                    assert(sendable(all.skip(i as int)) == 0);
                }
                return Err(e);
            },
        }
        proof {
            assert(out@ =~= before + frames(all.take(i + 1)));
        }
        i = i + 1;
    }
    append_bytes(out, stream_end().as_slice());
    proof {
        assert(all.take(i as int) =~= all);
        assert(out@ =~= before + stream(all));
    }
    Ok(())
}

// ---------------------------------------------------------------------------
// Receiving
// ---------------------------------------------------------------------------

/// `String::from_utf8` turns bytes into the string that they encode, where they encode one.
#[verifier::external_body]
fn decode_name(name: Vec<u8>) -> (out: Option<String>)
    ensures
        match out {
            Some(s) => utf8::valid_utf8(name@) && utf8::encode_utf8(s@) == name@,
            None => !utf8::valid_utf8(name@),
        },
{
    String::from_utf8(name).ok()
}

/// Whether a name stays within the directory that files are received into.
pub fn is_safe_name(name: &str) -> (safe: bool)
    ensures
        safe == safe_name(name@),
{
    name.unicode_len() > 0 && !contains_char(name, '/') && !contains_char(name, '\\')
        && !contains_text(name, "..")
}

/// Whether an error reports a failure.
pub open spec fn reports(e: TransferError, failure: Failure) -> bool {
    match failure {
        Failure::EarlyEnd => e matches TransferError::Io(detail) && detail@ == "early eof"@,
        Failure::NotUtf8 => e matches TransferError::Protocol(detail) && detail@
            == "non-utf8 file name"@,
        Failure::UnsafeName(name) => e matches TransferError::Protocol(detail) && detail@
            == "unsafe file name: "@ + name,
        Failure::BadChecksum(name, wanted, found) => e matches TransferError::Checksum {
            file,
            expected,
            got,
        } && file@ == name && expected == wanted && got == found,
    }
}

/// How far the receiving of a stream has come within the current file.
pub ghost enum Progress {
    /// At the length of a name.
    NameLength,
    /// At a name of this many bytes.
    Name(nat),
    /// At the length of this file's data.
    DataLength(Seq<char>),
    /// Within this file's data: how much there is in all, and what has arrived.
    Data(Seq<char>, nat, Seq<u8>),
    /// At this file's checksum; this is its data.
    Checksum(Seq<char>, Seq<u8>),
    /// Past the end marker.
    Finished,
}

/// What the next bytes lead to.
pub ghost enum Fate {
    /// On to here.
    Next(Progress),
    /// The file is complete, and the next one begins.
    Accepted(FileModel),
    /// The stream is refused.
    Refused(Failure),
}

/// How many bytes are read next.
pub open spec fn wanted(p: Progress) -> nat {
    match p {
        Progress::NameLength => 2,
        Progress::Name(n) => n,
        Progress::DataLength(_) => 8,
        Progress::Data(_, len, data) => if len - data.len() < CHUNK {
            (len - data.len()) as nat
        } else {
            CHUNK as nat
        },
        Progress::Checksum(..) => 4,
        Progress::Finished => 0,
    }
}

/// What the bytes `s`, read next, lead to.
pub open spec fn fate(p: Progress, s: Seq<u8>) -> Fate {
    match p {
        Progress::NameLength => if bytes::be(s) == 0 {
            Fate::Next(Progress::Finished)
        } else {
            Fate::Next(Progress::Name(bytes::be(s)))
        },
        Progress::Name(_) => if !utf8::valid_utf8(s) {
            Fate::Refused(Failure::NotUtf8)
        } else if !safe_name(utf8::decode_utf8(s)) {
            Fate::Refused(Failure::UnsafeName(utf8::decode_utf8(s)))
        } else {
            Fate::Next(Progress::DataLength(utf8::decode_utf8(s)))
        },
        Progress::DataLength(name) => if bytes::be(s) == 0 {
            Fate::Next(Progress::Checksum(name, Seq::empty()))
        } else {
            Fate::Next(Progress::Data(name, bytes::be(s), Seq::empty()))
        },
        Progress::Data(name, len, data) => if (data + s).len() == len {
            Fate::Next(Progress::Checksum(name, data + s))
        } else {
            Fate::Next(Progress::Data(name, len, data + s))
        },
        Progress::Checksum(name, data) => if bytes::be(s) == crc32(data) {
            Fate::Accepted((name, data))
        } else {
            Fate::Refused(Failure::BadChecksum(name, bytes::be(s), crc32(data)))
        },
        Progress::Finished => Fate::Next(Progress::Finished),
    }
}

/// Whether the receiving can have come to a point.
pub open spec fn possible(p: Progress) -> bool {
    match p {
        Progress::Name(n) => 0 < n <= 0xffff,
        Progress::DataLength(name) => safe_name(name) && sendable_name(name),
        Progress::Data(name, len, data) => safe_name(name) && sendable_name(name) && data.len() < len
            <= u64::MAX,
        Progress::Checksum(name, data) => safe_name(name) && sendable_name(name) && data.len()
            <= u64::MAX,
        _ => true,
    }
}

/// Where the receiver stands within the current file.
enum Stage {
    NameLength,
    Name { len: usize },
    DataLength { name: String },
    Data { name: String, remaining: u64, crc: u32 },
    Checksum { name: String, crc: u32 },
    Finished,
}

/// What the caller does with bytes that the receiver has taken.
#[derive(Debug, PartialEq, Eq)]
pub enum Received {
    /// Nothing.
    Nothing,
    /// Create the file of this name.
    Create(String),
    /// Append them to the current file.
    Append,
    /// Close the current file: it is complete and its checksum agrees.
    Accept(String),
    /// Stop: the stream has ended.
    End,
}

/// Whether `received` is what the caller does where bytes lead from `p` to `f`.
pub open spec fn asks(p: Progress, f: Fate, received: Received) -> bool {
    match p {
        Progress::NameLength => received == (if f == Fate::Next(Progress::Finished) {
            Received::End
        } else {
            Received::Nothing
        }),
        Progress::Name(_) => received == Received::Nothing,
        Progress::DataLength(name) => received matches Received::Create(n) && n@ == name,
        Progress::Data(..) => received == Received::Append,
        Progress::Checksum(name, _) => received matches Received::Accept(n) && n@ == name,
        Progress::Finished => received == Received::End,
    }
}

/// The receiving of a stream, a piece at a time.
pub struct Receiver {
    stage: Stage,
    data: Ghost<Seq<u8>>,
}

impl Receiver {
    /// How far the receiving has come.
    pub closed spec fn progress(&self) -> Progress {
        match self.stage {
            Stage::NameLength => Progress::NameLength,
            Stage::Name { len } => Progress::Name(len as nat),
            Stage::DataLength { name } => Progress::DataLength(name@),
            Stage::Data { name, remaining, .. } => Progress::Data(
                name@,
                self.data@.len() + remaining as nat,
                self.data@,
            ),
            Stage::Checksum { name, .. } => Progress::Checksum(name@, self.data@),
            Stage::Finished => Progress::Finished,
        }
    }

    #[verifier::type_invariant]
    spec fn wf(self) -> bool {
        &&& possible(self.progress())
        &&& match self.stage {
            Stage::Data { remaining, crc, .. } => remaining > 0 && crc == crc32(self.data@),
            Stage::Checksum { crc, .. } => crc == crc32(self.data@),
            _ => true,
        }
    }

    /// A receiver at the beginning of a stream.
    pub fn new() -> (receiver: Receiver)
        ensures
            receiver.progress() == Progress::NameLength,
    {
        Receiver { stage: Stage::NameLength, data: Ghost(Seq::empty()) }
    }

    /// How many bytes to read next; zero once the stream has ended.
    pub fn want(&self) -> (n: usize)
        ensures
            n == wanted(self.progress()),
            possible(self.progress()),
    {
        proof {
            use_type_invariant(self);
        }
        match &self.stage {
            Stage::NameLength => 2,
            Stage::Name { len } => *len,
            Stage::DataLength { .. } => 8,
            Stage::Data { remaining, .. } => if *remaining < CHUNK as u64 {
                *remaining as usize
            } else {
                CHUNK
            },
            Stage::Checksum { .. } => 4,
            Stage::Finished => 0,
        }
    }

    /// Takes the bytes that were asked for and says what to do with them.
    pub fn feed(self, s: &[u8]) -> (r: Result<(Receiver, Received), TransferError>)
        requires
            s@.len() == wanted(self.progress()),
        ensures
            match (fate(self.progress(), s@), r) {
                (Fate::Next(p), Ok((next, received))) => {
                    &&& next.progress() == p
                    &&& possible(p)
                    &&& asks(self.progress(), fate(self.progress(), s@), received)
                },
                (Fate::Accepted(file), Ok((next, received))) => {
                    &&& next.progress() == Progress::NameLength
                    &&& travels(file)
                    &&& asks(self.progress(), fate(self.progress(), s@), received)
                },
                (Fate::Refused(failure), Err(e)) => reports(e, failure),
                _ => false,
            },
    {
        proof {
            use_type_invariant(&self);
            bytes::lemma_to_be_of_be(s@);
            bytes::lemma_ranges();
        }
        let nothing: Ghost<Seq<u8>> = Ghost(Seq::empty());
        match self.stage {
            Stage::NameLength => {
                let n: u64 = number_of(s);
                if n == 0 {
                    Ok((Receiver { stage: Stage::Finished, data: nothing }, Received::End))
                } else {
                    let stage = Stage::Name { len: n as usize };
                    Ok((Receiver { stage, data: nothing }, Received::Nothing))
                }
            },
            Stage::Name { .. } => {
                let mut raw: Vec<u8> = Vec::new();
                append_bytes(&mut raw, s);
                proof {
                    assert(raw@ =~= s@);
                }
                match decode_name(raw) {
                    None => Err(TransferError::Protocol("non-utf8 file name".to_owned())),
                    Some(name) => {
                        proof {
                            utf8::encode_utf8_decode_utf8(name@);
                        }
                        if !is_safe_name(&name) {
                            return Err(TransferError::Protocol(joined("unsafe file name: ", &name)));
                        }
                        let stage = Stage::DataLength { name };
                        Ok((Receiver { stage, data: nothing }, Received::Nothing))
                    },
                }
            },
            Stage::DataLength { name } => {
                let len: u64 = number_of(s);
                let crc: u32 = start_crc32();
                let create = Received::Create(name.clone());
                let stage = if len == 0 {
                    Stage::Checksum { name, crc }
                } else {
                    Stage::Data { name, remaining: len, crc }
                };
                Ok((Receiver { stage, data: nothing }, create))
            },
            Stage::Data { name, remaining, crc } => {
                let crc: u32 = extend_crc32(crc, s);
                let left: u64 = remaining - s.len() as u64;
                let data: Ghost<Seq<u8>> = Ghost(self.data@ + s@);
                let stage = if left == 0 {
                    Stage::Checksum { name, crc }
                } else {
                    Stage::Data { name, remaining: left, crc }
                };
                Ok((Receiver { stage, data }, Received::Append))
            },
            Stage::Checksum { name, crc } => {
                let expected: u32 = number_of(s) as u32;
                if expected != crc {
                    return Err(TransferError::Checksum { file: name, expected, got: crc });
                }
                Ok((Receiver { stage: Stage::NameLength, data: nothing }, Received::Accept(name)))
            },
            Stage::Finished => {
                Ok((Receiver { stage: Stage::Finished, data: nothing }, Received::End))
            },
        }
    }
}

/// The bytes of the current file that were read on the way to a point.
pub open spec fn read_so_far(p: Progress) -> Seq<u8> {
    match p {
        Progress::NameLength => Seq::empty(),
        Progress::Name(n) => bytes::to_be(n, 2),
        Progress::DataLength(name) => bytes::to_be(utf8::encode_utf8(name).len(), 2)
            + utf8::encode_utf8(name),
        Progress::Data(name, len, data) => header(name, len) + data,
        Progress::Checksum(name, data) => header(name, data.len()) + data,
        Progress::Finished => end_marker(),
    }
}

/// Each step adds the bytes that it took to what was read of the current file.
proof fn lemma_step_reads(p: Progress, s: Seq<u8>)
    requires
        possible(p),
        s.len() == wanted(p),
        !(p is Finished),
    ensures
        match fate(p, s) {
            Fate::Next(next) => read_so_far(next) == read_so_far(p) + s,
            Fate::Accepted(file) => frame(file) == read_so_far(p) + s,
            Fate::Refused(_) => true,
        },
{
    bytes::lemma_to_be_of_be(s);
    match p {
        Progress::NameLength => {
            assert(read_so_far(p) + s =~= s);
        },
        Progress::Name(_) => {
            if utf8::valid_utf8(s) {
                utf8::decode_utf8_encode_utf8(s);
            }
        },
        Progress::DataLength(name) => {
            let before = header(name, bytes::be(s));
            assert(before + Seq::<u8>::empty() =~= before);
        },
        Progress::Data(name, len, data) => {
            assert(header(name, len) + (data + s) =~= header(name, len) + data + s);
        },
        Progress::Checksum(name, data) => {},
        Progress::Finished => {},
    }
}

/// Where the parts of a file lie once its name has been read.
proof fn lemma_name_parts(name: Seq<char>, rest: Seq<u8>)
    requires
        safe_name(name),
        sendable_name(name),
    ensures
        ({
            let nb = utf8::encode_utf8(name);
            let n = nb.len() as int;
            let s = read_so_far(Progress::DataLength(name)) + rest;
            &&& n > 0
            &&& s.len() == 2 + n + rest.len()
            &&& bytes::be(s.take(2)) == n
            &&& s.subrange(2, 2 + n) == nb
            &&& utf8::valid_utf8(nb)
            &&& utf8::decode_utf8(nb) == name
        }),
{
    let nb = utf8::encode_utf8(name);
    let n = nb.len() as int;
    let s = read_so_far(Progress::DataLength(name)) + rest;
    bytes::lemma_ranges();
    bytes::lemma_to_be_len(n as nat, 2);
    bytes::lemma_be_of_to_be(n as nat, 2);
    assert(s.take(2) =~= bytes::to_be(n as nat, 2));
    assert(s.subrange(2, 2 + n) =~= nb);
    lemma_name_has_bytes(name);
    utf8::encode_utf8_valid_utf8(name);
    utf8::encode_utf8_decode_utf8(name);
}

/// Where the parts of a file lie once the length of its data has been read.
proof fn lemma_header_parts(name: Seq<char>, len: nat, rest: Seq<u8>)
    requires
        safe_name(name),
        sendable_name(name),
        len <= u64::MAX,
    ensures
        ({
            let nb = utf8::encode_utf8(name);
            let n = nb.len() as int;
            let s = header(name, len) + rest;
            &&& n > 0
            &&& s.len() == 10 + n + rest.len()
            &&& bytes::be(s.take(2)) == n
            &&& s.subrange(2, 2 + n) == nb
            &&& utf8::valid_utf8(nb)
            &&& utf8::decode_utf8(nb) == name
            &&& bytes::be(s.subrange(2 + n, 10 + n)) == len
        }),
{
    let nb = utf8::encode_utf8(name);
    let n = nb.len() as int;
    let s = header(name, len) + rest;
    bytes::lemma_ranges();
    bytes::lemma_to_be_len(len, 8);
    bytes::lemma_be_of_to_be(len, 8);
    lemma_name_parts(name, bytes::to_be(len, 8) + rest);
    assert(s =~= read_so_far(Progress::DataLength(name)) + (bytes::to_be(len, 8) + rest));
    assert(s.subrange(2 + n, 10 + n) =~= bytes::to_be(len, 8));
}

/// A stream that ends where more was to be read is refused for it.
proof fn lemma_early_end(p: Progress, rest: Seq<u8>)
    requires
        possible(p),
        rest.len() < wanted(p),
    ensures
        parse(read_so_far(p) + rest) == Parsed::Refused(Failure::EarlyEnd),
{
    bytes::lemma_ranges();
    let s = read_so_far(p) + rest;
    match p {
        Progress::NameLength => {},
        Progress::Name(n) => {
            bytes::lemma_to_be_len(n, 2);
            bytes::lemma_be_of_to_be(n, 2);
            assert(s.take(2) =~= bytes::to_be(n, 2));
        },
        Progress::DataLength(name) => {
            lemma_name_parts(name, rest);
        },
        Progress::Data(name, len, data) => {
            lemma_header_parts(name, len, data + rest);
            assert(s =~= header(name, len) + (data + rest));
        },
        Progress::Checksum(name, data) => {
            lemma_header_parts(name, data.len(), data + rest);
            assert(s =~= header(name, data.len()) + (data + rest));
        },
        Progress::Finished => {},
    }
}

/// A stream that the receiver refuses is one that is to be refused, for the same reason.
proof fn lemma_refused(p: Progress, taken: Seq<u8>, rest: Seq<u8>)
    requires
        possible(p),
        taken.len() == wanted(p),
        fate(p, taken) is Refused,
    ensures
        parse(read_so_far(p) + (taken + rest)) == Parsed::Refused(fate(p, taken)->Refused_0),
{
    bytes::lemma_ranges();
    let s = read_so_far(p) + (taken + rest);
    match p {
        Progress::Name(n) => {
            bytes::lemma_to_be_len(n, 2);
            bytes::lemma_be_of_to_be(n, 2);
            assert(s.take(2) =~= bytes::to_be(n, 2));
            assert(s.subrange(2, 2 + n as int) =~= taken);
        },
        Progress::Checksum(name, data) => {
            let n = utf8::encode_utf8(name).len() as int;
            let len = data.len() as int;
            lemma_header_parts(name, data.len(), data + (taken + rest));
            assert(s =~= header(name, data.len()) + (data + (taken + rest)));
            assert(s.subrange(10 + n, 10 + n + len) =~= data);
            assert(s.subrange(10 + n + len, 14 + n + len) =~= taken);
        },
        _ => {},
    }
}

/// Whether the first `at` bytes of a stream are the files `done` and what was read of the next one
/// up to `p`.
spec fn read_up_to(s: Seq<u8>, at: int, done: Seq<FileModel>, p: Progress) -> bool {
    &&& 0 <= at <= s.len()
    &&& s.take(at) == frames(done) + read_so_far(p)
    &&& possible(p)
    &&& forall|i: int| 0 <= i < done.len() ==> travels(#[trigger] done[i])
}

/// What a stream holds shows in what follows the files that were read.
proof fn lemma_parse_from(s: Seq<u8>, at: int, done: Seq<FileModel>, p: Progress)
    requires
        read_up_to(s, at, done, p),
    ensures
        parse(s) == after_files(done, parse(read_so_far(p) + s.skip(at))),
{
    let rest = s.skip(at);
    assert(s =~= s.take(at) + rest);
    assert(frames(done) + read_so_far(p) + rest =~= frames(done) + (read_so_far(p) + rest));
    lemma_parse_frames(done, read_so_far(p) + rest);
}

/// A stream that ends too early is refused for it.
proof fn lemma_recv_early(s: Seq<u8>, at: int, done: Seq<FileModel>, p: Progress)
    requires
        read_up_to(s, at, done, p),
        s.len() - at < wanted(p),
    ensures
        parse(s) == Parsed::Refused(Failure::EarlyEnd),
{
    lemma_parse_from(s, at, done, p);
    lemma_early_end(p, s.skip(at));
}

/// A stream that the receiver refuses is to be refused.
proof fn lemma_recv_refused(s: Seq<u8>, at: int, n: int, done: Seq<FileModel>, p: Progress)
    requires
        read_up_to(s, at, done, p),
        n == wanted(p),
        at + n <= s.len(),
        fate(p, s.subrange(at, at + n)) is Refused,
    ensures
        parse(s) == Parsed::Refused(fate(p, s.subrange(at, at + n))->Refused_0),
{
    let piece = s.subrange(at, at + n);
    lemma_parse_from(s, at, done, p);
    lemma_refused(p, piece, s.skip(at + n));
    assert(s.skip(at) =~= piece + s.skip(at + n));
}

/// A stream that has ended holds the files that were read.
proof fn lemma_recv_end(s: Seq<u8>, at: int, done: Seq<FileModel>)
    requires
        read_up_to(s, at, done, Progress::NameLength),
        at + 2 <= s.len(),
        bytes::be(s.subrange(at, at + 2)) == 0,
    ensures
        parse(s) == Parsed::Files(done),
{
    lemma_parse_from(s, at, done, Progress::NameLength);
    let tail = read_so_far(Progress::NameLength) + s.skip(at);
    assert(tail.take(2) =~= s.subrange(at, at + 2));
    assert(done + Seq::<FileModel>::empty() =~= done);
}

/// A step of the receiver takes the bytes that it asked for.
proof fn lemma_recv_step(s: Seq<u8>, at: int, n: int, done: Seq<FileModel>, p: Progress)
    requires
        read_up_to(s, at, done, p),
        n == wanted(p),
        at + n <= s.len(),
        !(p is Finished),
    ensures
        match fate(p, s.subrange(at, at + n)) {
            Fate::Next(next) => s.take(at + n) == frames(done) + read_so_far(next),
            Fate::Accepted(file) => s.take(at + n) == frames(done.push(file)) + read_so_far(
                Progress::NameLength,
            ),
            Fate::Refused(_) => true,
        },
{
    let piece = s.subrange(at, at + n);
    lemma_step_reads(p, piece);
    assert(s.take(at + n) =~= s.take(at) + piece);
    assert(s.take(at + n) =~= frames(done) + (read_so_far(p) + piece));
    if let Fate::Accepted(file) = fate(p, piece) {
        assert(done.push(file).drop_last() =~= done);
        assert(frames(done.push(file)) + Seq::<u8>::empty() =~= frames(done.push(file)));
    }
}

/// Reads a whole stream from memory. What is received is what the stream holds; a stream that is
/// to be refused is refused, and the error says why.
pub fn recv_files(s: &[u8]) -> (r: Result<Vec<FileInMemory>, TransferError>)
    ensures
        match parse(s@) {
            Parsed::Files(files) => r matches Ok(received) && models(received@) == files,
            Parsed::Refused(failure) => r matches Err(e) && reports(e, failure),
        },
{
    let mut receiver = Receiver::new();
    let mut files: Vec<FileInMemory> = Vec::new();
    let mut data: Vec<u8> = Vec::new();
    let mut at: usize = 0;
    proof {
        assert(s@.take(0) =~= frames(models(files@)) + read_so_far(Progress::NameLength));
    }
    loop
        invariant
            read_up_to(s@, at as int, models(files@), receiver.progress()),
            !(receiver.progress() is Finished),
            receiver.progress() matches Progress::Data(_, _, d) ==> data@ == d,
            receiver.progress() matches Progress::Checksum(_, d) ==> data@ == d,
        decreases s@.len() - at,
    {
        let n: usize = receiver.want();
        let ghost done = models(files@);
        let ghost p = receiver.progress();
        if s.len() - at < n {
            proof {
                lemma_recv_early(s@, at as int, done, p);
            }
            return Err(TransferError::Io("early eof".to_owned()));
        }
        let piece = &s[at..at + n];
        proof {
            lemma_recv_step(s@, at as int, n as int, done, p);
        }
        match receiver.feed(piece) {
            Err(e) => {
                proof {
                    lemma_recv_refused(s@, at as int, n as int, done, p);
                }
                return Err(e);
            },
            Ok((next, received)) => {
                receiver = next;
                match received {
                    Received::Nothing => {},
                    Received::Create(_) => {
                        data = Vec::new();
                    },
                    Received::Append => {
                        append_bytes(&mut data, piece);
                    },
                    Received::Accept(name) => {
                        let ghost file = (name@, data@);
                        files.push(FileInMemory { name, data });
                        data = Vec::new();
                        proof {
                            assert(models(files@) =~= done.push(file));
                        }
                    },
                    Received::End => {
                        proof {
                            lemma_recv_end(s@, at as int, done);
                        }
                        return Ok(files);
                    },
                }
            },
        }
        at = at + n;
    }
}

// ---------------------------------------------------------------------------
// What a transfer is for
// ---------------------------------------------------------------------------

/// Every file with a plain name travels, and is received as it was: a name that is not empty, has
/// neither slash nor backslash and no two dots in a row, and takes no more than two bytes to give its
/// length.
pub proof fn law_plain_files_arrive(name: Seq<char>, data: Seq<u8>)
    requires
        name.len() > 0,
        forall|i: int| 0 <= i < name.len() ==> #[trigger] name[i] != '/' && name[i] != '\\',
        forall|i: int| 0 < i < name.len() ==> !(#[trigger] name[i] == '.' && name[i - 1] == '.'),
        utf8::encode_utf8(name).len() < 0x1_0000,
        data.len() <= u64::MAX,
    ensures
        parse(stream(seq![(name, data)])) == Parsed::Files(seq![(name, data)]),
{
    reveal_strlit("..");
    if text::has_part(name, ".."@) {
        let i = choose|i: int| #[trigger] text::part_at(name, ".."@, i);
        let part = name.subrange(i, i + 2);
        assert(part[0] == name[i] && part[1] == name[i + 1]);
    }
    law_stream_round_trip(seq![(name, data)]);
}

/// What is received stays within its directory: no name that is taken is empty, goes up or goes down.
pub proof fn law_received_files_stay_in_their_directory(s: Seq<u8>, i: int)
    ensures
        parse(s) matches Parsed::Files(files) ==> 0 <= i < files.len() ==> {
            let name = files[i].0;
            &&& name.len() > 0
            &&& forall|j: int| 0 <= j < name.len() ==> #[trigger] name[j] != '/' && name[j] != '\\'
            &&& forall|j: int|
                0 < j < name.len() ==> !(#[trigger] name[j] == '.' && name[j - 1] == '.')
        },
{
    law_received_names_are_safe(s, i);
    if let Parsed::Files(files) = parse(s) {
        if 0 <= i < files.len() {
            let name = files[i].0;
            reveal_strlit("..");
            assert forall|j: int| 0 < j < name.len() implies !(#[trigger] name[j] == '.' && name[j
                - 1] == '.') by {
                if name[j] == '.' && name[j - 1] == '.' {
                    assert(name.subrange(j - 1, j + 1) =~= ".."@);
                    assert(text::part_at(name, ".."@, j - 1));
                }
            }
        }
    }
}

/// Files that are sent after others come after them in the stream.
pub proof fn law_frames_concatenate(a: Seq<FileModel>, b: Seq<FileModel>)
    ensures
        frames(a + b) == frames(a) + frames(b),
    decreases b.len(),
{
    if b.len() == 0 {
        assert(a + b =~= a);
        assert(frames(a) + frames(b) =~= frames(a));
    } else {
        law_frames_concatenate(a, b.drop_last());
        assert((a + b).drop_last() =~= a + b.drop_last());
        assert((a + b).last() == b.last());
        assert(frames(a + b) =~= frames(a) + frames(b));
    }
}

/// A checksum that does not agree is reported as such, with the one that came with the file as what
/// was expected and the one of what arrived as what was got.
pub proof fn law_bad_checksum_is_told(
    name: Seq<char>,
    data: Seq<u8>,
    came: Seq<u8>,
    e: TransferError,
)
    requires
        bytes::be(came) != crc32(data),
        fate(Progress::Checksum(name, data), came) matches Fate::Refused(failure) && reports(
            e,
            failure,
        ),
    ensures
        e matches TransferError::Checksum { file, expected, got } && file@ == name && expected
            == bytes::be(came) && got == crc32(data),
{
}

/// A file is created under the name that it came with and accepted under the same one, and only where
/// its checksum agrees; nothing is asked for once the stream has ended.
pub proof fn law_only_whole_files_are_accepted(p: Progress, s: Seq<u8>, received: Received)
    requires
        !(fate(p, s) is Refused),
        asks(p, fate(p, s), received),
    ensures
        received matches Received::Accept(n) ==> {
            &&& p matches Progress::Checksum(name, data)
            &&& n@ == name
            &&& bytes::be(s) == crc32(data)
            &&& fate(p, s) == Fate::Accepted((name, data))
        },
        received matches Received::Create(n) ==> p == Progress::DataLength(n@),
        received is Append ==> p is Data,
        received is End ==> fate(p, s) == Fate::Next(Progress::Finished),
        p is Name ==> received is Nothing,
        p is Data ==> received is Append,
{
}

/// Sending stops at the first name whose length cannot be written down, and before no other.
pub proof fn law_sending_stops_at_the_first_long_name(files: Seq<FileModel>)
    ensures
        sendable(files) <= files.len(),
        forall|i: int|
            0 <= i < sendable(files) ==> utf8::encode_utf8((#[trigger] files[i]).0).len() < 0x1_0000,
        sendable(files) < files.len() ==> utf8::encode_utf8(
            files[sendable(files) as int].0,
        ).len() >= 0x1_0000,
    decreases files.len(),
{
    if files.len() > 0 && sendable_name(files[0].0) {
        let rest = files.skip(1);
        law_sending_stops_at_the_first_long_name(rest);
        assert forall|i: int| 0 <= i < sendable(files) implies utf8::encode_utf8(
            (#[trigger] files[i]).0,
        ).len() < 0x1_0000 by {
            if i > 0 {
                assert(rest[i - 1] == files[i]);
            }
        }
        if sendable(files) < files.len() {
            assert(rest[sendable(rest) as int] == files[sendable(files) as int]);
        }
    }
}

/// Data moves in whole chunks as long as there is that much left, and then in what is left.
pub proof fn law_chunks_are_whole(sender: &FileSender, p: Progress)
    requires
        possible(p),
    ensures
        sender.next_chunk() <= 65536,
        sender.next_chunk() == sender.left() || (sender.next_chunk() == 65536 && sender.left()
            >= 65536),
        p matches Progress::Data(_, len, data) ==> 0 < wanted(p) <= 65536 && (wanted(p) == len
            - data.len() || (wanted(p) == 65536 && len - data.len() >= 65536)),
{
}

/// A stream that is refused is told by what is wrong with it: an early end as one of the stream, a
/// name as one that breaks the format, with the name where it could be read.
pub proof fn law_refusals_say_why(e: TransferError, failure: Failure)
    requires
        reports(e, failure),
    ensures
        failure is EarlyEnd <==> e is Io,
        failure is BadChecksum <==> e is Checksum,
        failure is NotUtf8 || failure is UnsafeName <==> e is Protocol,
        failure matches Failure::UnsafeName(name) ==> (e matches TransferError::Protocol(detail)
            && text::ends_with(detail@, name)),
        failure matches Failure::BadChecksum(name, wanted, found) ==> (
        e matches TransferError::Checksum { file, expected, got } && file@ == name && expected
            == wanted && got == found),
{
    if let Failure::UnsafeName(name) = failure {
        text::law_parts_are_found("unsafe file name: "@, name, Seq::empty());
    }
}

/// A stream is refused where it ends too early, wherever that is: within a name, within the data or
/// before the checksum is whole.
pub proof fn law_cut_streams_are_refused(file: FileModel, n: int)
    requires
        travels(file),
        0 <= n < frame(file).len(),
    ensures
        parse(frame(file).take(n)) == Parsed::Refused(Failure::EarlyEnd),
{
    let whole = frame(file);
    let s = whole.take(n);
    lemma_frame_parts(file, Seq::empty());
    assert(whole + Seq::<u8>::empty() =~= whole);
    lemma_name_has_bytes(file.0);
    utf8::encode_utf8_valid_utf8(file.0);
    utf8::encode_utf8_decode_utf8(file.0);
    let k = utf8::encode_utf8(file.0).len() as int;
    if n >= 2 {
        assert(s.take(2) =~= whole.take(2));
        if n >= 2 + k {
            assert(s.subrange(2, 2 + k) =~= whole.subrange(2, 2 + k));
            if n >= 10 + k {
                assert(s.subrange(2 + k, 10 + k) =~= whole.subrange(2 + k, 10 + k));
            } else {
                bytes::lemma_ranges();
            }
        }
    }
}

} // verus!
