//! The queue of the messages that the server has sent and that nobody has
//! taken yet, with the history of those that were taken. The server's
//! output is taken in as it arrives, and a message joins the queue once its
//! frame is whole.

use crate::frame::{
    decode, incomplete, lemma_decode_consumes, lemma_decode_prefix, lemma_incomplete_decode,
    poll_message, ByteReader,
};
use crate::message::{message_of, LspMessage, LspMessageView};
use vstd::prelude::*;

verus! {

/// The values of a list of messages.
pub open spec fn messages_view(messages: Seq<LspMessage>) -> Seq<LspMessageView> {
    Seq::new(messages.len(), |i: int| messages[i]@)
}

/// The messages that a stream holds: frame after frame, up to the end of the
/// stream, the first frame that is refused or the first body that is no
/// message.
pub open spec fn received(s: Seq<u8>) -> Seq<LspMessageView>
    decreases s.len(),
    via received_decreases
{
    let next = decode(s);
    match next.body {
        Ok(Some(body)) => match message_of(body) {
            Ok(message) => seq![message] + received(next.rest),
            Err(_) => Seq::empty(),
        },
        _ => Seq::empty(),
    }
}

#[via_fn]
proof fn received_decreases(s: Seq<u8>) {
    lemma_decode_consumes(s);
}

/// What a stream that may go on has brought so far: the messages of the
/// frames that are all there, the bytes behind them, which wait for more to
/// arrive, and whether the stream is still read. It is read no further once
/// a frame is refused or a body is no message.
pub open spec fn taken(s: Seq<u8>) -> (Seq<LspMessageView>, Seq<u8>, bool)
    decreases s.len(),
    via taken_decreases
{
    if incomplete(s, 0) {
        (Seq::empty(), s, true)
    } else {
        let next = decode(s);
        match next.body {
            Ok(Some(body)) => match message_of(body) {
                Ok(message) => {
                    let later = taken(next.rest);
                    (seq![message] + later.0, later.1, later.2)
                },
                Err(_) => (Seq::empty(), next.rest, false),
            },
            _ => (Seq::empty(), next.rest, false),
        }
    }
}

#[via_fn]
proof fn taken_decreases(s: Seq<u8>) {
    lemma_decode_consumes(s);
}

/// What a stream has brought so far are the messages that it holds: a frame
/// that is not all there brings no message when the stream ends.
pub proof fn lemma_taken_received(s: Seq<u8>)
    ensures
        taken(s).0 == received(s),
    decreases s.len(),
{
    lemma_decode_consumes(s);
    if incomplete(s, 0) {
        lemma_incomplete_decode(s);
    } else {
        let next = decode(s);
        match next.body {
            Ok(Some(body)) => {
                if message_of(body) is Ok {
                    lemma_taken_received(next.rest);
                }
            },
            _ => {},
        }
    }
}

/// It makes no difference in how many pieces a stream arrives: what it has
/// brought after `tail` has arrived is what it had brought before, followed
/// by what the bytes that waited bring together with `tail`.
pub proof fn lemma_taken_append(s: Seq<u8>, tail: Seq<u8>)
    ensures
        ({
            let before = taken(s);
            let after = taken(s + tail);
            if before.2 {
                let more = taken(before.1 + tail);
                after.0 == before.0 + more.0 && after.1 == more.1 && after.2 == more.2
            } else {
                after.0 == before.0 && !after.2
            }
        }),
    decreases s.len(),
{
    lemma_decode_consumes(s);
    if incomplete(s, 0) {
        assert(Seq::<LspMessageView>::empty() + taken(s + tail).0 =~= taken(s + tail).0);
    } else {
        lemma_decode_prefix(s, tail);
        let next = decode(s);
        match next.body {
            Ok(Some(body)) => {
                match message_of(body) {
                    Ok(message) => {
                        lemma_taken_append(next.rest, tail);
                        let before = taken(next.rest);
                        if before.2 {
                            let more = taken(before.1 + tail);
                            assert(seq![message] + (before.0 + more.0) =~= (seq![message]
                                + before.0) + more.0);
                        }
                    },
                    Err(_) => {},
                }
            },
            _ => {},
        }
    }
}

/// Takes the messages of the frames that are all there from `input` and adds
/// them to `messages`. Says whether the stream is still read.
fn drain(input: &mut ByteReader, messages: &mut Vec<LspMessage>) -> (open: bool)
    ensures
        final(messages)@.len() == old(messages)@.len() + taken(old(input)@).0.len(),
        final(messages)@.take(old(messages)@.len() as int) == old(messages)@,
        messages_view(final(messages)@.skip(old(messages)@.len() as int)) == taken(old(input)@).0,
        final(input)@ == taken(old(input)@).1,
        open == taken(old(input)@).2,
{
    let ghost stream = input@;
    let ghost start = messages@;
    let mut open = true;
    let mut going = true;
    proof {
        assert(messages@.skip(start.len() as int) =~= Seq::<LspMessage>::empty());
        assert(messages_view(Seq::<LspMessage>::empty()) =~= Seq::<LspMessageView>::empty());
        assert(Seq::<LspMessageView>::empty() + taken(stream).0 =~= taken(stream).0);
        assert(messages@.take(start.len() as int) =~= start);
    }
    while going
        invariant
            messages@.len() >= start.len(),
            messages@.take(start.len() as int) == start,
            going ==> open && taken(stream) == (
                messages_view(messages@.skip(start.len() as int)) + taken(input@).0,
                taken(input@).1,
                taken(input@).2,
            ),
            !going ==> taken(stream) == (
                messages_view(messages@.skip(start.len() as int)),
                input@,
                open,
            ),
        decreases input@.len() + (if going { 1int } else { 0int }),
    {
        let ghost unread = input@;
        let ghost before = messages_view(messages@.skip(start.len() as int));
        proof {
            lemma_decode_consumes(unread);
        }
        match poll_message(input) {
            None => {
                going = false;
                proof {
                    assert(before + Seq::<LspMessageView>::empty() =~= before);
                }
            },
            Some(Ok(body)) => match LspMessage::from(body.as_slice()) {
                Ok(message) => {
                    messages.push(message);
                    proof {
                        assert(messages@.take(start.len() as int) =~= start);
                        assert(messages_view(messages@.skip(start.len() as int)) =~= before
                            + seq![message@]);
                        assert(before + (seq![message@] + taken(input@).0) =~= (before
                            + seq![message@]) + taken(input@).0);
                    }
                },
                Err(_) => {
                    going = false;
                    open = false;
                    proof {
                        assert(before + Seq::<LspMessageView>::empty() =~= before);
                    }
                },
            },
            Some(Err(_)) => {
                going = false;
                open = false;
                proof {
                    assert(before + Seq::<LspMessageView>::empty() =~= before);
                }
            },
        }
    }
    open
}

/// The place of the first message of `s` that `wanted` accepts, or the length
/// of `s` where it accepts none.
pub open spec fn first_where(s: Seq<LspMessage>, wanted: spec_fn(LspMessage) -> bool) -> int
    decreases s.len(),
{
    if s.len() == 0 {
        0
    } else if wanted(s[0]) {
        0
    } else {
        1 + first_where(s.skip(1), wanted)
    }
}

/// The first accepted message is the one before which none is accepted.
pub proof fn lemma_first_where(s: Seq<LspMessage>, wanted: spec_fn(LspMessage) -> bool, at: int)
    requires
        0 <= at <= s.len(),
        forall|j: int| 0 <= j < at ==> !wanted(#[trigger] s[j]),
        at < s.len() ==> wanted(s[at]),
    ensures
        first_where(s, wanted) == at,
    decreases s.len(),
{
    if s.len() > 0 && at > 0 {
        assert(!wanted(s[0]));
        let rest = s.skip(1);
        assert forall|j: int| 0 <= j < at - 1 implies !wanted(#[trigger] rest[j]) by {
            assert(rest[j] == s[j + 1]);
        }
        lemma_first_where(rest, wanted, at - 1);
    }
}

/// A message that arrives while none that is asked for waits is the one
/// that is taken next, and taking it leaves the queue as it was before the
/// message arrived.
pub proof fn lemma_take_after_push(
    pending: Seq<LspMessage>,
    message: LspMessage,
    wanted: spec_fn(LspMessage) -> bool,
)
    requires
        first_where(pending, wanted) == pending.len(),
        wanted(message),
    ensures
        first_where(pending.push(message), wanted) == pending.len(),
        pending.push(message).remove(pending.len() as int) == pending,
{
    lemma_first_where_none(pending, wanted);
    let grown = pending.push(message);
    assert forall|j: int| 0 <= j < pending.len() implies !wanted(#[trigger] grown[j]) by {
        assert(grown[j] == pending[j]);
    }
    lemma_first_where(grown, wanted, pending.len() as int);
    assert(grown.remove(pending.len() as int) =~= pending);
}

/// A message that waits and is asked for is taken at once: the oldest such
/// message, and no other. The messages before it and behind it stay, in
/// their order.
pub proof fn lemma_take_oldest(pending: Seq<LspMessage>, wanted: spec_fn(LspMessage) -> bool)
    requires
        exists|i: int| 0 <= i < pending.len() && wanted(#[trigger] pending[i]),
    ensures
        0 <= first_where(pending, wanted) < pending.len(),
        wanted(pending[first_where(pending, wanted)]),
        forall|j: int| 0 <= j < first_where(pending, wanted) ==> !wanted(#[trigger] pending[j]),
        pending.remove(first_where(pending, wanted)) == pending.take(first_where(pending, wanted))
            + pending.skip(first_where(pending, wanted) + 1),
{
    lemma_first_where_bounds(pending, wanted);
    let at = first_where(pending, wanted);
    if at == pending.len() {
        lemma_first_where_none(pending, wanted);
    }
    assert(pending.remove(at) =~= pending.take(at) + pending.skip(at + 1));
}

/// Before the first accepted message, no message is accepted.
pub proof fn lemma_first_where_bounds(s: Seq<LspMessage>, wanted: spec_fn(LspMessage) -> bool)
    ensures
        0 <= first_where(s, wanted) <= s.len(),
        first_where(s, wanted) < s.len() ==> wanted(s[first_where(s, wanted)]),
        forall|j: int| 0 <= j < first_where(s, wanted) ==> !wanted(#[trigger] s[j]),
    decreases s.len(),
{
    if s.len() > 0 && !wanted(s[0]) {
        let rest = s.skip(1);
        lemma_first_where_bounds(rest, wanted);
        assert forall|j: int| 0 <= j < first_where(s, wanted) implies !wanted(#[trigger] s[j]) by {
            if j > 0 {
                assert(rest[j - 1] == s[j]);
            }
        }
    }
}

/// Where there is no first accepted message, no message is accepted.
pub proof fn lemma_first_where_none(s: Seq<LspMessage>, wanted: spec_fn(LspMessage) -> bool)
    requires
        first_where(s, wanted) == s.len(),
    ensures
        forall|j: int| 0 <= j < s.len() ==> !wanted(#[trigger] s[j]),
{
    lemma_first_where_bounds(s, wanted);
}

/// Where `get_match` gives a result for exactly the messages that `wanted`
/// accepts, the place at which `read_message` and `find_message` stop is the
/// place of the first message that `wanted` accepts.
pub proof fn lemma_match_is_first<R, F: Fn(&LspMessage) -> Option<R>>(
    pending: Seq<LspMessage>,
    get_match: F,
    wanted: spec_fn(LspMessage) -> bool,
    at: int,
)
    requires
        forall|message: LspMessage, result: Option<R>|
            #[trigger] call_ensures(get_match, (&message,), result) ==> (result is Some
                <==> wanted(message)),
        0 <= at <= pending.len(),
        forall|j: int|
            0 <= j < at ==> call_ensures(get_match, (&#[trigger] pending[j],), None::<R>),
        at < pending.len() ==> exists|result: R|
            call_ensures(get_match, (&pending[at],), Some(result)),
    ensures
        at == first_where(pending, wanted),
{
    assert forall|j: int| 0 <= j < at implies !wanted(#[trigger] pending[j]) by {
        assert(call_ensures(get_match, (&pending[j],), None::<R>));
    }
    if at < pending.len() {
        let result = choose|result: R| call_ensures(get_match, (&pending[at],), Some(result));
        assert(call_ensures(get_match, (&pending[at],), Some(result)));
    }
    lemma_first_where(pending, wanted, at);
}

/// The messages that have arrived: those that wait to be taken, oldest
/// first, and those that were taken, in the order in which they were. With
/// them the bytes of the server's output that do not make a whole frame yet.
pub struct LspStdoutReader {
    pending_messages: Vec<LspMessage>,
    read_messages: Vec<LspMessage>,
    input: ByteReader,
    open: bool,
}

impl LspStdoutReader {
    /// The messages that wait to be taken, oldest first.
    pub closed spec fn pending(&self) -> Seq<LspMessage> {
        self.pending_messages@
    }

    /// The messages that were taken, in the order in which they were.
    pub closed spec fn read(&self) -> Seq<LspMessage> {
        self.read_messages@
    }

    /// The bytes that have arrived and do not make a whole frame yet.
    pub closed spec fn unread(&self) -> Seq<u8> {
        self.input@
    }

    /// Whether the server's output is still read: no frame was refused, and
    /// no body was no message.
    pub closed spec fn open(&self) -> bool {
        self.open
    }

    /// Reads the server's output as far as it has arrived: every message on
    /// `buf_reader`, in the order of the stream, waits to be taken. Reading
    /// stops without a word at a frame that is refused and at a body that is
    /// no message; a frame that is not all there waits for `feed`.
    pub fn new(buf_reader: ByteReader) -> (r: LspStdoutReader)
        ensures
            messages_view(r.pending()) == taken(buf_reader@).0,
            r.unread() == taken(buf_reader@).1,
            r.open() == taken(buf_reader@).2,
            r.read() == Seq::<LspMessage>::empty(),
    {
        let mut input = buf_reader;
        let mut messages: Vec<LspMessage> = Vec::new();
        let open = drain(&mut input, &mut messages);
        proof {
            assert(messages@.skip(0) =~= messages@);
        }
        LspStdoutReader { pending_messages: messages, read_messages: Vec::new(), input, open }
    }

    /// Takes in bytes that have arrived from the server: the messages of the
    /// frames that are now all there are added behind those that wait. Once
    /// the output is read no further, the bytes are dropped.
    pub fn feed(&mut self, bytes: &[u8])
        ensures
            final(self).read() == old(self).read(),
            final(self).pending().len() >= old(self).pending().len(),
            final(self).pending().take(old(self).pending().len() as int) == old(self).pending(),
            old(self).open() ==> messages_view(
                final(self).pending().skip(old(self).pending().len() as int),
            ) == taken(old(self).unread() + bytes@).0 && final(self).unread() == taken(
                old(self).unread() + bytes@,
            ).1 && final(self).open() == taken(old(self).unread() + bytes@).2,
            !old(self).open() ==> final(self).pending() == old(self).pending()
                && final(self).unread() == old(self).unread() && !final(self).open(),
    {
        if self.open {
            self.input.extend(bytes);
            let open = drain(&mut self.input, &mut self.pending_messages);
            self.open = open;
        } else {
            proof {
                assert(self.pending().take(self.pending().len() as int) =~= self.pending());
            }
        }
    }

    /// Whether the server's output is still read.
    pub fn is_open(&self) -> (r: bool)
        ensures
            r == self.open(),
    {
        self.open
    }

    /// Adds a message that has arrived behind those that wait.
    pub fn push(&mut self, message: LspMessage)
        ensures
            final(self).pending() == old(self).pending().push(message),
            final(self).read() == old(self).read(),
            final(self).unread() == old(self).unread(),
            final(self).open() == old(self).open(),
    {
        self.pending_messages.push(message);
    }

    /// How many messages wait to be taken.
    pub fn pending_len(&self) -> (r: usize)
        ensures
            r == self.pending().len(),
    {
        self.pending_messages.len()
    }

    /// Whether a message that `is_match` accepts has arrived, whether it
    /// still waits or was taken.
    pub fn had_message<F: Fn(&LspMessage) -> bool>(&self, is_match: F) -> (r: bool)
        requires
            forall|message: &LspMessage| call_requires(is_match, (message,)),
        ensures
            r ==> exists|i: int|
                0 <= i < (self.read() + self.pending()).len() && call_ensures(
                    is_match,
                    (&#[trigger] (self.read() + self.pending())[i],),
                    true,
                ),
            !r ==> forall|i: int|
                0 <= i < (self.read() + self.pending()).len() ==> call_ensures(
                    is_match,
                    (&#[trigger] (self.read() + self.pending())[i],),
                    false,
                ),
    {
        let ghost all = self.read() + self.pending();
        let mut i: usize = 0;
        while i < self.read_messages.len()
            invariant
                i <= self.read_messages.len(),
                all == self.read() + self.pending(),
                forall|message: &LspMessage| call_requires(is_match, (message,)),
                forall|j: int| 0 <= j < i ==> call_ensures(is_match, (&#[trigger] all[j],), false),
            decreases self.read_messages.len() - i,
        {
            assert(all[i as int] == self.read_messages@[i as int]);
            if is_match(&self.read_messages[i]) {
                return true;
            }
            i += 1;
        }
        let mut k: usize = 0;
        while k < self.pending_messages.len()
            invariant
                k <= self.pending_messages.len(),
                all == self.read() + self.pending(),
                forall|message: &LspMessage| call_requires(is_match, (message,)),
                forall|j: int|
                    0 <= j < self.read_messages.len() + k ==> call_ensures(
                        is_match,
                        (&#[trigger] all[j],),
                        false,
                    ),
            decreases self.pending_messages.len() - k,
        {
            assert(all[self.read_messages.len() + k] == self.pending_messages@[k as int]);
            if is_match(&self.pending_messages[k]) {
                return true;
            }
            k += 1;
        }
        false
    }

    /// The result that `get_match` gives for the oldest waiting message for
    /// which it gives one. Nothing is taken.
    pub fn find_message<R, F: Fn(&LspMessage) -> Option<R>>(&self, get_match: F) -> (r: Option<R>)
        requires
            forall|message: &LspMessage| call_requires(get_match, (message,)),
        ensures
            match r {
                Some(result) => exists|i: int|
                    {
                        &&& 0 <= i < self.pending().len()
                        &&& call_ensures(get_match, (&#[trigger] self.pending()[i],), Some(result))
                        &&& forall|j: int|
                            0 <= j < i ==> call_ensures(
                                get_match,
                                (&#[trigger] self.pending()[j],),
                                None,
                            )
                    },
                None => forall|j: int|
                    0 <= j < self.pending().len() ==> call_ensures(
                        get_match,
                        (&#[trigger] self.pending()[j],),
                        None,
                    ),
            },
    {
        let mut i: usize = 0;
        while i < self.pending_messages.len()
            invariant
                i <= self.pending_messages.len(),
                forall|message: &LspMessage| call_requires(get_match, (message,)),
                forall|j: int|
                    0 <= j < i ==> call_ensures(get_match, (&#[trigger] self.pending()[j],), None),
            decreases self.pending_messages.len() - i,
        {
            match get_match(&self.pending_messages[i]) {
                Some(result) => {
                    proof {
                        let at = i as int;
                        assert(call_ensures(get_match, (&self.pending()[at],), Some(result)));
                    }
                    return Some(result);
                },
                None => {},
            }
            i += 1;
        }
        None
    }

    /// Takes the oldest waiting message for which `get_match` gives a result,
    /// and returns that result; the message moves to those that were taken,
    /// and the others keep their order. Where `get_match` gives no result for
    /// any waiting message, nothing changes and `None` is returned: the
    /// caller has to wait for more to arrive.
    pub fn read_message<R, F: Fn(&LspMessage) -> Option<R>>(&mut self, get_match: F) -> (r: Option<
        R,
    >)
        requires
            forall|message: &LspMessage| call_requires(get_match, (message,)),
        ensures
            match r {
                Some(result) => exists|i: int|
                    {
                        &&& 0 <= i < old(self).pending().len()
                        &&& call_ensures(get_match, (&#[trigger] old(self).pending()[i],), Some(result))
                        &&& forall|j: int|
                            0 <= j < i ==> call_ensures(
                                get_match,
                                (&#[trigger] old(self).pending()[j],),
                                None,
                            )
                        &&& final(self).pending() == old(self).pending().remove(i)
                        &&& final(self).read() == old(self).read().push(old(self).pending()[i])
                        &&& final(self).unread() == old(self).unread()
                        &&& final(self).open() == old(self).open()
                    },
                None => {
                    &&& *final(self) == *old(self)
                    &&& forall|j: int|
                        0 <= j < old(self).pending().len() ==> call_ensures(
                            get_match,
                            (&#[trigger] old(self).pending()[j],),
                            None,
                        )
                },
            },
    {
        let mut i: usize = 0;
        while i < self.pending_messages.len()
            invariant
                i <= self.pending_messages.len(),
                *self == *old(self),
                forall|message: &LspMessage| call_requires(get_match, (message,)),
                forall|j: int|
                    0 <= j < i ==> call_ensures(
                        get_match,
                        (&#[trigger] old(self).pending()[j],),
                        None,
                    ),
            decreases self.pending_messages.len() - i,
        {
            match get_match(&self.pending_messages[i]) {
                Some(result) => {
                    let message = self.pending_messages.remove(i);
                    self.read_messages.push(message);
                    proof {
                        let at = i as int;
                        assert(call_ensures(get_match, (&old(self).pending()[at],), Some(result)));
                        assert(self.pending() == old(self).pending().remove(at));
                        assert(self.read() == old(self).read().push(old(self).pending()[at]));
                    }
                    return Some(result);
                },
                None => {},
            }
            i += 1;
        }
        None
    }
}

} // verus!
