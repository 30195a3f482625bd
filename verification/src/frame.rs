//! Framing: how one message body is found on a stream of bytes, and how one
//! is written.
//!
//! A frame is a header section, a blank line and a body. Each line of the
//! header section ends in a line feed; the blank line is a carriage return
//! and a line feed. A header that announces a content length says how many
//! bytes the body has; where several do, the last one counts, and where none
//! does, the body is empty. A stream may end between two frames; where it
//! ends within one, the frame is refused.

use crate::decimal::{
    decimal_digits, format_u64, is_digit, lemma_decimal_digits, parse_decimal, parse_u64,
};
use vstd::prelude::*;
use vstd::string::{StrSliceExecFns, StringExecFns};
use vstd::utf8::{decode_utf8, encode_utf8, is_ascii_chars_encode_utf8, valid_utf8};

verus! {

/// Why a frame could not be read.
#[derive(Clone, Copy, Debug, PartialEq, Eq)]
pub enum TransportError {
    /// A line of the header section is not valid UTF-8.
    InvalidUtf8,
    /// A header announces a content length that is no number of this machine.
    InvalidContentLength,
    /// The stream ends within a frame: behind a line of its header section,
    /// or before the end of its body.
    UnexpectedEof,
}

impl TransportError {
    /// What went wrong, in words.
    pub fn message(&self) -> (r: &'static str)
        ensures
            r@ == match self {
                TransportError::InvalidUtf8 => "stream did not contain valid UTF-8"@,
                TransportError::InvalidContentLength => "invalid content length"@,
                TransportError::UnexpectedEof => "failed to fill whole buffer"@,
            },
    {
        match self {
            TransportError::InvalidUtf8 => "stream did not contain valid UTF-8",
            TransportError::InvalidContentLength => "invalid content length",
            TransportError::UnexpectedEof => "failed to fill whole buffer",
        }
    }
}

/// Bytes that are read from front to back.
pub struct ByteReader {
    data: Vec<u8>,
    pos: usize,
}

impl View for ByteReader {
    type V = Seq<u8>;

    /// The bytes that are yet to be read.
    closed spec fn view(&self) -> Seq<u8> {
        self.data@.skip(self.pos as int)
    }
}

/// The line feed.
pub open spec fn line_feed() -> u8 {
    10
}

/// The blank line that ends a header section.
pub open spec fn blank_line() -> Seq<u8> {
    seq![13u8, 10u8]
}

/// Where the line that starts at `from` ends: behind the first line feed, or
/// at the end of `s` where there is none.
pub open spec fn line_end(s: Seq<u8>, from: int) -> int
    decreases s.len() - from,
{
    if from >= s.len() {
        s.len() as int
    } else if s[from] == line_feed() {
        from + 1
    } else {
        line_end(s, from + 1)
    }
}

/// The first line of `s`, with its line feed where it has one.
pub open spec fn first_line(s: Seq<u8>) -> Seq<u8> {
    s.take(line_end(s, 0))
}

/// The end of a line lies behind its start and within the bytes.
pub proof fn lemma_line_end_bounds(s: Seq<u8>, from: int)
    requires
        0 <= from <= s.len(),
    ensures
        from <= line_end(s, from) <= s.len(),
        from < s.len() ==> from < line_end(s, from),
    decreases s.len() - from,
{
    if from < s.len() && s[from] != line_feed() {
        lemma_line_end_bounds(s, from + 1);
    }
}

impl ByteReader {
    #[verifier::type_invariant]
    spec fn in_bounds(self) -> bool {
        self.pos <= self.data.len()
    }

    /// A reader of `data`, from its first byte.
    pub fn new(data: Vec<u8>) -> (r: ByteReader)
        ensures
            r@ == data@,
    {
        ByteReader { data, pos: 0 }
    }

    /// How many bytes are yet to be read.
    pub fn remaining(&self) -> (r: usize)
        ensures
            r == self@.len(),
    {
        proof {
            use_type_invariant(self);
        }
        self.data.len() - self.pos
    }

    /// Adds `bytes` behind those that are yet to be read.
    pub fn extend(&mut self, bytes: &[u8])
        ensures
            final(self)@ == old(self)@ + bytes@,
    {
        proof {
            use_type_invariant(&*self);
        }
        let ghost unread = self@;
        let mut data: Vec<u8> = Vec::new();
        let mut k: usize = self.pos;
        while k < self.data.len()
            invariant
                self.pos <= k <= self.data.len(),
                unread == self.data@.skip(self.pos as int),
                data@ == unread.take(k - self.pos),
            decreases self.data.len() - k,
        {
            data.push(self.data[k]);
            k += 1;
            assert(data@ =~= unread.take(k - self.pos));
        }
        assert(data@ =~= unread);
        let mut i: usize = 0;
        while i < bytes.len()
            invariant
                i <= bytes.len(),
                data@ == unread + bytes@.take(i as int),
            decreases bytes.len() - i,
        {
            data.push(bytes[i]);
            i += 1;
            assert(data@ =~= unread + bytes@.take(i as int));
        }
        assert(bytes@.take(i as int) =~= bytes@);
        self.pos = 0;
        self.data = data;
        assert(self.data@.skip(0) =~= self.data@);
    }

    /// The line that starts `offset` bytes behind the next byte: the bytes
    /// up to the first line feed and that line feed, or all the bytes where
    /// there is no line feed. Nothing is read.
    fn line_from(&self, offset: usize) -> (line: Vec<u8>)
        requires
            offset <= self@.len(),
        ensures
            line@ == first_line(self@.skip(offset as int)),
    {
        proof {
            use_type_invariant(self);
        }
        let ghost unread = self@.skip(offset as int);
        let start = self.pos + offset;
        assert(unread =~= self.data@.skip(start as int));
        let mut line: Vec<u8> = Vec::new();
        let mut at = start;
        let mut found = false;
        while !found && at < self.data.len()
            invariant
                start <= at <= self.data.len(),
                unread == self.data@.skip(start as int),
                line@ == unread.take(at - start),
                !found ==> line_end(unread, 0) == line_end(unread, at - start),
                found ==> line_end(unread, 0) == at - start,
            decreases self.data.len() - at + (if found { 0int } else { 1int }),
        {
            let byte = self.data[at];
            assert(byte == unread[at - start]);
            line.push(byte);
            at += 1;
            if byte == 10 {
                found = true;
            }
            assert(line@ =~= unread.take(at - start));
        }
        line
    }

    /// Reads one line: the bytes up to the first line feed and that line
    /// feed, or all the bytes where there is no line feed.
    pub fn read_line(&mut self) -> (line: Vec<u8>)
        ensures
            line@ == first_line(old(self)@),
            final(self)@ == old(self)@.skip(line@.len() as int),
    {
        proof {
            use_type_invariant(&*self);
            assert(self@.skip(0) =~= self@);
            lemma_line_end_bounds(self@, 0);
        }
        let ghost unread = self@;
        let line = self.line_from(0);
        self.pos = self.pos + line.len();
        proof {
            assert(self.data@.skip(self.pos as int) =~= unread.skip(line@.len() as int));
        }
        line
    }

    /// Reads `count` bytes. Where fewer are left, none is returned and the
    /// reader is left at its end.
    pub fn read_exact(&mut self, count: usize) -> (r: Option<Vec<u8>>)
        ensures
            match r {
                Some(bytes) => count <= old(self)@.len() && bytes@ == old(self)@.take(
                    count as int,
                ) && final(self)@ == old(self)@.skip(count as int),
                None => count > old(self)@.len() && final(self)@ == Seq::<u8>::empty(),
            },
    {
        proof {
            use_type_invariant(&*self);
        }
        let ghost unread = self@;
        let start = self.pos;
        if count > self.data.len() - self.pos {
            self.pos = self.data.len();
            assert(self.data@.skip(self.pos as int) =~= Seq::<u8>::empty());
            return None;
        }
        let mut bytes: Vec<u8> = Vec::new();
        let mut taken: usize = 0;
        while taken < count
            invariant
                taken <= count,
                start + count <= self.data.len(),
                self.pos == start,
                unread == self.data@.skip(start as int),
                bytes@ == unread.take(taken as int),
            decreases count - taken,
        {
            bytes.push(self.data[start + taken]);
            taken += 1;
            assert(bytes@ =~= unread.take(taken as int));
        }
        self.pos = start + count;
        proof {
            assert(self.data@.skip(self.pos as int) =~= unread.skip(count as int));
        }
        Some(bytes)
    }
}

/// The pattern of the header that announces a content length.
pub const CONTENT_LENGTH_PATTERN: &'static str = "(?i)^content-length:\\s+(\\d+)";

/// What group `group` of the first match of `pattern` in `haystack` holds, as
/// the `regex` crate finds it; `None` where the pattern does not match, where
/// the group took no part in the match, and where the pattern is refused.
pub uninterp spec fn regex_capture(pattern: Seq<char>, haystack: Seq<char>, group: nat) -> Option<
    Seq<char>,
>;

/// Compiles `pattern` with `regex::Regex::new` and searches `haystack` with
/// `Regex::captures`. The result is the text of group `group` of the
/// leftmost match, and is named by `regex_capture`: it depends on the three
/// arguments alone.
#[verifier::external_body]
fn capture(pattern: &str, haystack: &str, group: usize) -> (r: Option<String>)
    ensures
        match r {
            Some(text) => regex_capture(pattern@, haystack@, group as nat) == Some(text@),
            None => regex_capture(pattern@, haystack@, group as nat) is None,
        },
{
    match regex::Regex::new(pattern) {
        Ok(re) => re.captures(haystack).and_then(|found| found.get(group)).map(
            |text| text.as_str().to_owned(),
        ),
        Err(_) => None,
    }
}

/// Calls `String::from_utf8`: the text that `bytes` encode, or `None` where
/// they are not valid UTF-8.
#[verifier::external_body]
fn utf8_text(bytes: Vec<u8>) -> (r: Option<String>)
    ensures
        match r {
            Some(text) => valid_utf8(bytes@) && text@ == decode_utf8(bytes@),
            None => !valid_utf8(bytes@),
        },
{
    String::from_utf8(bytes).ok()
}

/// What the header section has said once one more line is read.
#[derive(Clone, Copy, Debug, PartialEq, Eq)]
pub enum HeaderStep {
    /// The section goes on; the content length so far.
    More(usize),
    /// The line was the blank line; the content length of the body.
    Done(usize),
}

/// The digits of the content length that a line announces, where it
/// announces one.
pub open spec fn header_capture(line: Seq<char>) -> Option<Seq<char>> {
    regex_capture(CONTENT_LENGTH_PATTERN@, line, 1)
}

/// The content length that `digits` denote: `None` where they are not a
/// decimal numeral, or denote more than the machine can count.
pub open spec fn content_length(digits: Seq<char>) -> Option<usize> {
    match parse_decimal(digits) {
        Some(n) => if n <= usize::MAX {
            Some(n as usize)
        } else {
            None
        },
        None => None,
    }
}

/// What a line says, given the digits that it announces and whether it is
/// the blank line.
pub open spec fn header_step_of(length: usize, digits: Option<Seq<char>>, blank: bool) -> Result<
    HeaderStep,
    TransportError,
> {
    let announced = match digits {
        Some(d) => content_length(d),
        None => Some(length),
    };
    match announced {
        Some(n) => if blank {
            Ok(HeaderStep::Done(n))
        } else {
            Ok(HeaderStep::More(n))
        },
        None => Err(TransportError::InvalidContentLength),
    }
}

/// What the line `line` says after a section that has announced `length`.
pub open spec fn line_step(length: usize, line: Seq<u8>) -> Result<HeaderStep, TransportError> {
    if valid_utf8(line) {
        header_step_of(length, header_capture(decode_utf8(line)), line == blank_line())
    } else {
        Err(TransportError::InvalidUtf8)
    }
}

/// What a frame decoder finds on a stream, and what it leaves unread.
pub ghost struct Decoded {
    /// The body of the next frame; `None` where the stream ends before the
    /// frame begins.
    pub body: Result<Option<Seq<u8>>, TransportError>,
    /// The bytes after what was read.
    pub rest: Seq<u8>,
}

/// What a header section announces, and what it leaves unread: the bytes
/// behind the blank line or behind the line that was refused. `seen` says
/// whether a line of the section was read before `s`. Where the stream ends
/// before the blank line, it is the end of the stream if no line was seen,
/// and a frame cut short if one was.
pub open spec fn decode_headers(s: Seq<u8>, length: usize, seen: bool) -> (
    Result<Option<usize>, TransportError>,
    Seq<u8>,
)
    decreases s.len(),
    via decode_headers_decreases
{
    if s.len() == 0 {
        if seen {
            (Err(TransportError::UnexpectedEof), s)
        } else {
            (Ok(None), s)
        }
    } else {
        let line = first_line(s);
        let rest = s.skip(line.len() as int);
        match line_step(length, line) {
            Err(e) => (Err(e), rest),
            Ok(HeaderStep::Done(n)) => (Ok(Some(n)), rest),
            Ok(HeaderStep::More(n)) => decode_headers(rest, n, true),
        }
    }
}

#[via_fn]
proof fn decode_headers_decreases(s: Seq<u8>, length: usize, seen: bool) {
    if s.len() > 0 {
        lemma_line_end_bounds(s, 0);
    }
}

/// What decoding one frame from `s` gives. A stream that ends before the
/// first line of a frame has no further frame. A stream that ends within a
/// frame, in its header section or in its body, is refused.
pub open spec fn decode(s: Seq<u8>) -> Decoded {
    let (announced, rest) = decode_headers(s, 0, false);
    match announced {
        Err(e) => Decoded { body: Err(e), rest },
        Ok(None) => Decoded { body: Ok(None), rest },
        Ok(Some(n)) => if n <= rest.len() {
            Decoded { body: Ok(Some(rest.take(n as int))), rest: rest.skip(n as int) }
        } else {
            Decoded { body: Err(TransportError::UnexpectedEof), rest: Seq::empty() }
        },
    }
}

/// Says what a header line means, once it is known what content length it
/// announces, if any, and whether it is the blank line.
pub fn header_step(length: usize, digits: Option<String>, blank: bool) -> (r: Result<
    HeaderStep,
    TransportError,
>)
    ensures
        r == header_step_of(
            length,
            match digits {
                Some(d) => Some(d@),
                None => None,
            },
            blank,
        ),
{
    let announced = match digits {
        Some(d) => match parse_u64(d.as_str()) {
            Some(n) => if n <= usize::MAX as u64 {
                Some(n as usize)
            } else {
                None
            },
            None => None,
        },
        None => Some(length),
    };
    match announced {
        Some(n) => if blank {
            Ok(HeaderStep::Done(n))
        } else {
            Ok(HeaderStep::More(n))
        },
        None => Err(TransportError::InvalidContentLength),
    }
}

/// Reads one line of a header section that has announced `length` so far.
pub fn scan_header_line(length: usize, line: Vec<u8>) -> (r: Result<HeaderStep, TransportError>)
    ensures
        r == line_step(length, line@),
{
    let blank = line.len() == 2 && line[0] == 13 && line[1] == 10;
    assert(blank == (line@ =~= blank_line()));
    match utf8_text(line) {
        Some(text) => header_step(length, capture(CONTENT_LENGTH_PATTERN, text.as_str(), 1), blank),
        None => Err(TransportError::InvalidUtf8),
    }
}

/// Reads the body of the next frame from `reader`.
///
/// Returns `Ok(None)` where the stream ends before the first line of a
/// frame, and an error where a header line is refused or the stream ends
/// within the frame, be it in the header section or in the body.
/// A content length that is smaller than the body that was sent is not
/// noticed here: the body is cut off there, and the next frame starts in it.
pub fn read_message(reader: &mut ByteReader) -> (r: Result<Option<Vec<u8>>, TransportError>)
    ensures
        final(reader)@ == decode(old(reader)@).rest,
        match r {
            Ok(Some(body)) => decode(old(reader)@).body == Ok::<Option<Seq<u8>>, TransportError>(
                Some(body@),
            ),
            Ok(None) => decode(old(reader)@).body == Ok::<Option<Seq<u8>>, TransportError>(None),
            Err(e) => decode(old(reader)@).body == Err::<Option<Seq<u8>>, TransportError>(e),
        },
{
    let mut length: usize = 0;
    let mut seen = false;
    loop
        invariant_except_break
            decode_headers(old(reader)@, 0, false) == decode_headers(reader@, length, seen),
        ensures
            decode_headers(old(reader)@, 0, false) == (
                Ok::<Option<usize>, TransportError>(Some(length)),
                reader@,
            ),
        decreases reader@.len(),
    {
        let ghost unread = reader@;
        if reader.remaining() == 0 {
            if seen {
                return Err(TransportError::UnexpectedEof);
            }
            return Ok(None);
        }
        seen = true;
        proof {
            lemma_line_end_bounds(unread, 0);
        }
        let line = reader.read_line();
        match scan_header_line(length, line) {
            Err(e) => {
                return Err(e);
            },
            Ok(HeaderStep::Done(n)) => {
                length = n;
                break ;
            },
            Ok(HeaderStep::More(n)) => {
                length = n;
            },
        }
    }
    match reader.read_exact(length) {
        Some(body) => Ok(Some(body)),
        None => Err(TransportError::UnexpectedEof),
    }
}

/// A header section that is read to its end has taken at least its blank
/// line from the stream.
pub proof fn lemma_headers_consume(s: Seq<u8>, length: usize, seen: bool)
    ensures
        decode_headers(s, length, seen).0 matches Ok(Some(_)) ==> decode_headers(
            s,
            length,
            seen,
        ).1.len() < s.len(),
        decode_headers(s, length, seen).1.len() <= s.len(),
    decreases s.len(),
{
    if s.len() > 0 {
        let line = first_line(s);
        let rest = s.skip(line.len() as int);
        lemma_line_end_bounds(s, 0);
        match line_step(length, line) {
            Ok(HeaderStep::More(n)) => {
                lemma_headers_consume(rest, n, true);
            },
            _ => {},
        }
    }
}

/// Decoding never adds to the stream, and a frame that is decoded has taken
/// bytes from it.
pub proof fn lemma_decode_consumes(s: Seq<u8>)
    ensures
        decode(s).body matches Ok(Some(_)) ==> decode(s).rest.len() < s.len(),
        decode(s).rest.len() <= s.len(),
{
    lemma_headers_consume(s, 0, false);
}

/// Whether more bytes have to arrive before it is known what the next frame
/// on `s` is, given that `s` is the start of a stream that may go on: the
/// last line of the header section so far has no line feed yet, the blank
/// line has not come, or the body is not all there.
pub open spec fn incomplete(s: Seq<u8>, length: usize) -> bool
    decreases s.len(),
    via incomplete_decreases
{
    if s.len() == 0 {
        true
    } else {
        let line = first_line(s);
        if line.last() != line_feed() {
            true
        } else {
            match line_step(length, line) {
                Err(_) => false,
                Ok(HeaderStep::Done(n)) => s.len() - line.len() < n,
                Ok(HeaderStep::More(n)) => incomplete(s.skip(line.len() as int), n),
            }
        }
    }
}

#[via_fn]
proof fn incomplete_decreases(s: Seq<u8>, length: usize) {
    if s.len() > 0 {
        lemma_line_end_bounds(s, 0);
    }
}

/// Where the next frame is known, decoding finds a body or refuses a header
/// line: it does not meet the end of the stream.
pub proof fn lemma_complete(s: Seq<u8>, length: usize, seen: bool)
    requires
        !incomplete(s, length),
    ensures
        decode_headers(s, length, seen).0 != Ok::<Option<usize>, TransportError>(None),
        decode_headers(s, length, seen).0 != Err::<Option<usize>, TransportError>(
            TransportError::UnexpectedEof,
        ),
        decode_headers(s, length, seen).0 matches Ok(Some(n)) ==> n <= decode_headers(
            s,
            length,
            seen,
        ).1.len(),
    decreases s.len(),
{
    let line = first_line(s);
    let rest = s.skip(line.len() as int);
    lemma_line_end_bounds(s, 0);
    match line_step(length, line) {
        Ok(HeaderStep::More(n)) => {
            lemma_complete(rest, n, true);
        },
        _ => {},
    }
}

/// A line ends in a line feed or at the end of the bytes.
proof fn lemma_line_end_last(s: Seq<u8>, from: int)
    requires
        0 <= from < s.len(),
    ensures
        line_end(s, from) == s.len() || s[line_end(s, from) - 1] == line_feed(),
    decreases s.len() - from,
{
    if s[from] != line_feed() {
        if from + 1 < s.len() {
            lemma_line_end_last(s, from + 1);
        } else {
            assert(line_end(s, from + 1) == s.len());
        }
    }
}

/// Where more bytes have to arrive before the next frame is known, the
/// bytes that are there hold no frame.
pub proof fn lemma_incomplete_headers(s: Seq<u8>, length: usize, seen: bool)
    requires
        incomplete(s, length),
    ensures
        !(decode_headers(s, length, seen).0 matches Ok(Some(n)) && n <= decode_headers(
            s,
            length,
            seen,
        ).1.len()),
    decreases s.len(),
{
    if s.len() > 0 {
        let line = first_line(s);
        let rest = s.skip(line.len() as int);
        lemma_line_end_bounds(s, 0);
        lemma_line_end_last(s, 0);
        if line.last() != line_feed() {
            assert(rest.len() == 0);
            assert(blank_line().last() == line_feed());
            assert(line != blank_line());
            assert(decode_headers(rest, length, true).0 is Err);
            match line_step(length, line) {
                Ok(HeaderStep::More(n)) => {
                    assert(decode_headers(rest, n, true).0 is Err);
                },
                _ => {},
            }
        } else {
            match line_step(length, line) {
                Ok(HeaderStep::More(n)) => {
                    lemma_incomplete_headers(rest, n, true);
                },
                _ => {},
            }
        }
    }
}

/// Where more bytes have to arrive before the next frame is known, decoding
/// the bytes that are there gives no body.
pub proof fn lemma_incomplete_decode(s: Seq<u8>)
    requires
        incomplete(s, 0),
    ensures
        !(decode(s).body is Ok && decode(s).body->Ok_0 is Some),
{
    lemma_incomplete_headers(s, 0, false);
}

/// Before the end of a line there is no line feed.
proof fn lemma_line_end_scan(s: Seq<u8>, from: int, i: int)
    requires
        0 <= from <= i < line_end(s, from) - 1,
    ensures
        s[i] != line_feed(),
    decreases s.len() - from,
{
    if from < s.len() && s[from] != line_feed() {
        if i > from {
            lemma_line_end_scan(s, from + 1, i);
        }
    }
}

/// A first line that ends in a line feed is one line.
pub proof fn lemma_first_line_is_line(s: Seq<u8>)
    requires
        s.len() > 0,
        first_line(s).last() == line_feed(),
    ensures
        is_line(first_line(s)),
{
    lemma_line_end_bounds(s, 0);
    let line = first_line(s);
    assert forall|i: int| 0 <= i < line.len() - 1 implies line[i] != line_feed() by {
        lemma_line_end_scan(s, 0, i);
    }
}

/// Where the next frame is known, it is the same frame whatever follows on
/// the stream, and what follows is left unread.
pub proof fn lemma_headers_prefix(s: Seq<u8>, length: usize, seen: bool, tail: Seq<u8>)
    requires
        !incomplete(s, length),
    ensures
        !incomplete(s + tail, length),
        decode_headers(s + tail, length, seen) == (
            decode_headers(s, length, seen).0,
            decode_headers(s, length, seen).1 + tail,
        ),
    decreases s.len(),
{
    let line = first_line(s);
    let rest = s.skip(line.len() as int);
    lemma_line_end_bounds(s, 0);
    lemma_first_line_is_line(s);
    assert(s =~= line + rest);
    assert(s + tail =~= line + (rest + tail));
    lemma_first_line(line, rest + tail);
    assert((s + tail).skip(line.len() as int) =~= rest + tail);
    match line_step(length, line) {
        Ok(HeaderStep::More(n)) => {
            lemma_headers_prefix(rest, n, true, tail);
        },
        _ => {},
    }
}

/// Where the next frame is known, decoding gives the same whatever follows
/// on the stream, and leaves what follows unread.
pub proof fn lemma_decode_prefix(s: Seq<u8>, tail: Seq<u8>)
    requires
        !incomplete(s, 0),
    ensures
        !incomplete(s + tail, 0),
        decode(s + tail) == (Decoded { body: decode(s).body, rest: decode(s).rest + tail }),
{
    lemma_headers_prefix(s, 0, false, tail);
    lemma_complete(s, 0, false);
    let (announced, rest) = decode_headers(s, 0, false);
    match announced {
        Ok(Some(n)) => {
            assert((rest + tail).take(n as int) =~= rest.take(n as int));
            assert((rest + tail).skip(n as int) =~= rest.skip(n as int) + tail);
        },
        _ => {},
    }
}

/// Whether more bytes have to arrive before the next frame on `reader` is
/// known. Nothing is read.
pub fn frame_incomplete(reader: &ByteReader) -> (r: bool)
    ensures
        r == incomplete(reader@, 0),
{
    let total = reader.remaining();
    let mut offset: usize = 0;
    let mut length: usize = 0;
    proof {
        assert(reader@.skip(0) =~= reader@);
    }
    loop
        invariant
            offset <= total,
            total == reader@.len(),
            incomplete(reader@, 0) == incomplete(reader@.skip(offset as int), length),
        decreases total - offset,
    {
        let ghost unread = reader@.skip(offset as int);
        if offset == total {
            return true;
        }
        proof {
            lemma_line_end_bounds(unread, 0);
        }
        let line = reader.line_from(offset);
        let consumed = line.len();
        if line[consumed - 1] != 10 {
            return true;
        }
        match scan_header_line(length, line) {
            Err(_) => {
                return false;
            },
            Ok(HeaderStep::Done(n)) => {
                return total - offset - consumed < n;
            },
            Ok(HeaderStep::More(n)) => {
                length = n;
                offset = offset + consumed;
                proof {
                    assert(reader@.skip(offset as int) =~= unread.skip(consumed as int));
                }
            },
        }
    }
}

/// Reads the body of the next frame from a stream that may go on. Where
/// more bytes have to arrive first, nothing is read and `None` is returned.
pub fn poll_message(reader: &mut ByteReader) -> (r: Option<Result<Vec<u8>, TransportError>>)
    ensures
        incomplete(old(reader)@, 0) ==> r is None && final(reader)@ == old(reader)@,
        !incomplete(old(reader)@, 0) ==> final(reader)@ == decode(old(reader)@).rest && match r {
            Some(Ok(body)) => decode(old(reader)@).body == Ok::<Option<Seq<u8>>, TransportError>(
                Some(body@),
            ),
            Some(Err(e)) => decode(old(reader)@).body == Err::<Option<Seq<u8>>, TransportError>(e),
            None => false,
        },
{
    if frame_incomplete(reader) {
        return None;
    }
    proof {
        lemma_complete(reader@, 0, false);
    }
    match read_message(reader) {
        Ok(Some(body)) => Some(Ok(body)),
        Ok(None) => None,
        Err(e) => Some(Err(e)),
    }
}

/// The frames that follow one another on `s`, as their bodies: what reading
/// frame after frame gives, up to the end of the stream or the first frame
/// that is refused.
pub open spec fn decode_all(s: Seq<u8>) -> Seq<Seq<u8>>
    decreases s.len(),
    via decode_all_decreases
{
    let next = decode(s);
    match next.body {
        Ok(Some(body)) => seq![body] + decode_all(next.rest),
        _ => Seq::empty(),
    }
}

#[via_fn]
proof fn decode_all_decreases(s: Seq<u8>) {
    lemma_decode_consumes(s);
}

/// Whether `line` is one line: it ends in a line feed and holds no other.
pub open spec fn is_line(line: Seq<u8>) -> bool {
    &&& line.len() > 0
    &&& line.last() == line_feed()
    &&& forall|i: int| 0 <= i < line.len() - 1 ==> line[i] != line_feed()
}

/// The lines one after another.
pub open spec fn join(lines: Seq<Seq<u8>>) -> Seq<u8>
    decreases lines.len(),
{
    if lines.len() == 0 {
        Seq::empty()
    } else {
        lines[0] + join(lines.skip(1))
    }
}

/// The content length that a header section of these lines announces, the
/// blank line after them included, once `length` was announced before them.
/// `None` where a line is refused or one of the lines is itself the blank
/// line.
pub open spec fn announced_length(lines: Seq<Seq<u8>>, length: usize) -> Option<usize>
    decreases lines.len(),
{
    if lines.len() == 0 {
        match line_step(length, blank_line()) {
            Ok(HeaderStep::Done(n)) => Some(n),
            _ => None,
        }
    } else {
        match line_step(length, lines[0]) {
            Ok(HeaderStep::More(n)) => announced_length(lines.skip(1), n),
            _ => None,
        }
    }
}

/// A frame as it stands on the stream: header lines, the blank line, the
/// body.
pub open spec fn frame(lines: Seq<Seq<u8>>, body: Seq<u8>) -> Seq<u8> {
    join(lines) + blank_line() + body
}

/// Whether a header section of these lines announces the length of `body`.
pub open spec fn well_framed(lines: Seq<Seq<u8>>, body: Seq<u8>) -> bool {
    &&& forall|i: int| 0 <= i < lines.len() ==> is_line(#[trigger] lines[i])
    &&& announced_length(lines, 0) matches Some(n) && n == body.len()
}

/// Frames one after another, each given by its header lines and its body.
pub open spec fn stream(frames: Seq<(Seq<Seq<u8>>, Seq<u8>)>) -> Seq<u8>
    decreases frames.len(),
{
    if frames.len() == 0 {
        Seq::empty()
    } else {
        frame(frames[0].0, frames[0].1) + stream(frames.skip(1))
    }
}

/// A line that is followed by other bytes is still the first line.
pub proof fn lemma_first_line(line: Seq<u8>, tail: Seq<u8>)
    requires
        is_line(line),
    ensures
        first_line(line + tail) == line,
{
    let s = line + tail;
    assert forall|from: int| 0 <= from < line.len() implies line_end(s, from) == line.len() by {
        lemma_line_end_within(line, tail, from);
    }
    assert(s.take(line.len() as int) =~= line);
}

proof fn lemma_line_end_within(line: Seq<u8>, tail: Seq<u8>, from: int)
    requires
        is_line(line),
        0 <= from < line.len(),
    ensures
        line_end(line + tail, from) == line.len(),
    decreases line.len() - from,
{
    let s = line + tail;
    assert(s[from] == line[from]);
    if from < line.len() - 1 {
        lemma_line_end_within(line, tail, from + 1);
    }
}

/// A header section that announces `n` is read as announcing `n`, and
/// leaves the bytes behind its blank line.
pub proof fn lemma_decode_headers(lines: Seq<Seq<u8>>, length: usize, seen: bool, tail: Seq<u8>)
    requires
        forall|i: int| 0 <= i < lines.len() ==> is_line(#[trigger] lines[i]),
        announced_length(lines, length) is Some,
    ensures
        decode_headers(join(lines) + blank_line() + tail, length, seen) == (
            Ok::<Option<usize>, TransportError>(Some(announced_length(lines, length)->0)),
            tail,
        ),
    decreases lines.len(),
{
    let s = join(lines) + blank_line() + tail;
    if lines.len() == 0 {
        assert(s =~= blank_line() + tail);
        lemma_first_line(blank_line(), tail);
        assert(s.skip(2) =~= tail);
    } else {
        let line = lines[0];
        let rest = lines.skip(1);
        let after = join(rest) + blank_line() + tail;
        assert(is_line(line));
        assert(s =~= line + after);
        lemma_first_line(line, after);
        assert(s.skip(line.len() as int) =~= after);
        assert forall|i: int| 0 <= i < rest.len() implies is_line(#[trigger] rest[i]) by {
            assert(rest[i] == lines[i + 1]);
        }
        let n = line_step(length, line)->Ok_0->More_0;
        lemma_decode_headers(rest, n, true, tail);
    }
}

/// A frame whose header section announces the length of its body is decoded
/// to that body, whatever its header lines are otherwise and whatever
/// follows it on the stream, which is left unread.
pub proof fn lemma_decode_frame(lines: Seq<Seq<u8>>, body: Seq<u8>, tail: Seq<u8>)
    requires
        well_framed(lines, body),
    ensures
        decode(frame(lines, body) + tail) == (Decoded { body: Ok(Some(body)), rest: tail }),
{
    let s = frame(lines, body) + tail;
    assert(s =~= join(lines) + blank_line() + (body + tail));
    lemma_decode_headers(lines, 0, false, body + tail);
    assert((body + tail).take(body.len() as int) =~= body);
    assert((body + tail).skip(body.len() as int) =~= tail);
}

/// Frames that stand back to back on one stream, each with a header section
/// that announces the length of its body, are decoded one after another to
/// exactly their bodies, in their order.
pub proof fn lemma_decode_stream(frames: Seq<(Seq<Seq<u8>>, Seq<u8>)>)
    requires
        forall|i: int| 0 <= i < frames.len() ==> well_framed(#[trigger] frames[i].0, frames[i].1),
    ensures
        decode_all(stream(frames)) == Seq::new(frames.len(), |i: int| frames[i].1),
    decreases frames.len(),
{
    let bodies = Seq::new(frames.len(), |i: int| frames[i].1);
    if frames.len() == 0 {
        assert(decode_all(stream(frames)) =~= bodies);
    } else {
        let (lines, body) = frames[0];
        let later = frames.skip(1);
        let tail = stream(later);
        assert(well_framed(frames[0].0, frames[0].1));
        lemma_decode_frame(lines, body, tail);
        assert(stream(frames).len() > tail.len());
        assert forall|i: int| 0 <= i < later.len() implies well_framed(
            #[trigger] later[i].0,
            later[i].1,
        ) by {
            assert(later[i] == frames[i + 1]);
        }
        lemma_decode_stream(later);
        assert(decode_all(stream(frames)) =~= bodies);
    }
}

/// The header line that announces a content length of `n`.
pub open spec fn announcement(n: nat) -> Seq<char> {
    "Content-Length: "@ + decimal_digits(n) + "\r\n"@
}

/// The frame that carries `body`: the header that announces the number of
/// its bytes, the blank line, and the bytes.
pub open spec fn message_frame(body: Seq<char>) -> Seq<u8> {
    encode_utf8(announcement(encode_utf8(body).len()) + "\r\n"@ + body)
}

/// Frames `body` for the stream.
pub fn frame_message(body: &str) -> (r: Vec<u8>)
    ensures
        r@ == message_frame(body@),
{
    let count = body.as_bytes().len();
    let mut text = "Content-Length: ".to_owned();
    text.append(format_u64(count as u64).as_str());
    text.append("\r\n");
    text.append("\r\n");
    text.append(body);
    assert(text@ =~= announcement(encode_utf8(body@).len()) + "\r\n"@ + body@);
    text.as_str().as_bytes_vec()
}

/// The encoding of two texts one after the other is the encoding of the one
/// followed by the encoding of the other.
pub proof fn lemma_encode_concat(a: Seq<char>, b: Seq<char>)
    ensures
        encode_utf8(a + b) == encode_utf8(a) + encode_utf8(b),
    decreases a.len(),
{
    if a.len() == 0 {
        assert(a + b =~= b);
        assert(encode_utf8(a) + encode_utf8(b) =~= encode_utf8(b));
    } else {
        assert((a + b).drop_first() =~= a.drop_first() + b);
        lemma_encode_concat(a.drop_first(), b);
        assert(encode_utf8(a + b) =~= encode_utf8(a) + encode_utf8(b));
    }
}

/// The header line that this client writes is one line of plain characters.
proof fn lemma_announcement(n: nat)
    ensures
        is_line(encode_utf8(announcement(n))),
        encode_utf8(announcement(n)) != blank_line(),
        encode_utf8("\r\n"@) == blank_line(),
{
    reveal_strlit("Content-Length: ");
    reveal_strlit("\r\n");
    lemma_decimal_digits(n);
    let name = "Content-Length: "@;
    let digits = decimal_digits(n);
    let end = "\r\n"@;
    let text = announcement(n);
    assert(text.len() == 16 + digits.len() + 2);
    assert forall|i: int| 0 <= i < text.len() implies '\0' <= #[trigger] text[i] <= '\u{7f}'
        && (text[i] == '\n' <==> i == text.len() - 1) by {
        if i < 16 {
            assert(text[i] == name[i]);
        } else if i < 16 + digits.len() {
            assert(text[i] == digits[i - 16]);
            assert(is_digit(digits[i - 16]));
        } else {
            assert(text[i] == end[i - 16 - digits.len()]);
        }
    }
    is_ascii_chars_encode_utf8(text);
    is_ascii_chars_encode_utf8(end);
    assert(encode_utf8(end) =~= blank_line());
    let line = encode_utf8(text);
    assert forall|i: int| 0 <= i < line.len() - 1 implies line[i] != line_feed() by {
        assert(line[i] == text[i] as u8);
    }
    assert(line.last() == text[text.len() - 1] as u8);
}

/// Whether the header section that this client writes for a body of `n`
/// bytes is read as announcing `n`: the header line as going on with `n`,
/// the blank line as ending the section with `n`.
pub open spec fn reads_back(n: usize) -> bool {
    &&& line_step(0, encode_utf8(announcement(n as nat))) == Ok::<HeaderStep, TransportError>(
        HeaderStep::More(n),
    )
    &&& line_step(n, blank_line()) == Ok::<HeaderStep, TransportError>(HeaderStep::Done(n))
}

/// What this client writes, it reads back, whatever follows on the stream:
/// provided that the header section that it writes is read as announcing
/// the length that was written.
pub proof fn lemma_frame_read_back(body: Seq<char>, tail: Seq<u8>)
    requires
        encode_utf8(body).len() <= usize::MAX,
        reads_back(encode_utf8(body).len() as usize),
    ensures
        decode(message_frame(body) + tail) == (Decoded {
            body: Ok(Some(encode_utf8(body))),
            rest: tail,
        }),
{
    let n = encode_utf8(body).len();
    let line = encode_utf8(announcement(n));
    let bytes = encode_utf8(body);
    lemma_announcement(n);
    lemma_encode_concat(announcement(n) + "\r\n"@, body);
    lemma_encode_concat(announcement(n), "\r\n"@);
    assert(message_frame(body) == line + blank_line() + bytes);
    let lines = seq![line];
    assert(lines.skip(1) =~= Seq::<Seq<u8>>::empty());
    assert(announced_length(lines.skip(1), n as usize) == Some(n as usize));
    assert(announced_length(lines, 0) == Some(n as usize));
    assert(join(lines.skip(1)) =~= Seq::<u8>::empty());
    assert(join(lines) =~= line);
    lemma_decode_frame(lines, bytes, tail);
}

/// Tests whether the frame that this client writes for `body` is read back:
/// the two lines of its header section are read as they would be on the
/// stream. Where the answer is yes, the frame is decoded to `body` whatever
/// follows it.
pub fn frame_reads_back(body: &str) -> (r: bool)
    ensures
        r == reads_back(encode_utf8(body@).len() as usize),
        r ==> forall|tail: Seq<u8>|
            #[trigger] decode(message_frame(body@) + tail) == (Decoded {
                body: Ok(Some(encode_utf8(body@))),
                rest: tail,
            }),
{
    let count = body.as_bytes().len();
    let mut text = "Content-Length: ".to_owned();
    text.append(format_u64(count as u64).as_str());
    text.append("\r\n");
    assert(text@ =~= announcement(count as nat));
    let line = text.as_str().as_bytes_vec();
    let mut blank: Vec<u8> = Vec::new();
    blank.push(13);
    blank.push(10);
    assert(blank@ =~= blank_line());
    let first = match scan_header_line(0, line) {
        Ok(HeaderStep::More(n)) => n == count,
        _ => false,
    };
    let second = match scan_header_line(count, blank) {
        Ok(HeaderStep::Done(n)) => n == count,
        _ => false,
    };
    let r = first && second;
    proof {
        if r {
            assert forall|tail: Seq<u8>|
                #[trigger] decode(message_frame(body@) + tail) == (Decoded {
                    body: Ok(Some(encode_utf8(body@))),
                    rest: tail,
                }) by {
                lemma_frame_read_back(body@, tail);
            }
        }
    }
    r
}

} // verus!
