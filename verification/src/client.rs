//! The session with the server: what is written to it, which request waits
//! for its response, and what is done with the server when the session ends.
//!
//! The client never blocks. What it writes is kept until the transport takes
//! it, and where a message that it is asked for has not arrived, it says so.

use crate::builder::{LspClientBuilder, TestContext};
use crate::frame::{frame_message, message_frame, ByteReader};
use crate::json::{clone_option, json_text, option_view, Json, JsonView};
use crate::message::{
    clone_error, error_view, notification, notification_envelope, request, request_envelope,
    response, response_envelope, LspMessage, LspResponseError,
};
use crate::params::{default_params, InitializeParamsBuilder, InitializeParamsView};
use crate::reader::{
    first_where, lemma_first_where, lemma_first_where_bounds, messages_view, taken,
    LspStdoutReader,
};
use vstd::prelude::*;
use vstd::string::StringExecFns;

verus! {

/// Whether a message is a response.
pub open spec fn is_response() -> spec_fn(LspMessage) -> bool {
    |message: LspMessage| message is Response
}

/// Whether a message is a notification.
pub open spec fn is_notification() -> spec_fn(LspMessage) -> bool {
    |message: LspMessage| message is Notification
}

/// Whether a message is a request.
pub open spec fn is_request() -> spec_fn(LspMessage) -> bool {
    |message: LspMessage| message is Request
}

/// Whether a message is a notification of the method `method`.
pub open spec fn is_notification_of(message: LspMessage, method: Seq<char>) -> bool {
    message matches LspMessage::Notification(name, _) && name@ == method
}

/// Whether a message is a notification of the method `method`.
fn is_notification_for(message: &LspMessage, method: &String) -> (r: bool)
    ensures
        r == is_notification_of(*message, method@),
{
    match message {
        LspMessage::Notification(name, _) => *name == *method,
        _ => false,
    }
}

/// The id of a response; nothing for another message.
fn response_id(message: &LspMessage) -> (r: Option<u64>)
    ensures
        match message {
            LspMessage::Response(id, _, _) => r == Some(*id),
            _ => r is None,
        },
{
    match message {
        LspMessage::Response(id, _, _) => Some(*id),
        _ => None,
    }
}

/// The id, result and error of a response; nothing for another message.
fn response_parts(message: &LspMessage) -> (r: Option<
    (u64, Option<Json>, Option<LspResponseError>),
>)
    ensures
        match message {
            LspMessage::Response(id, result, error) => r matches Some(found) && found.0 == *id
                && option_view(found.1) == option_view(*result) && error_view(found.2)
                == error_view(*error),
            _ => r is None,
        },
{
    match message {
        LspMessage::Response(id, result, error) => Some(
            (*id, clone_option(result), clone_error(error)),
        ),
        _ => None,
    }
}

/// The method and parameters of a notification; nothing for another message.
fn notification_parts(message: &LspMessage) -> (r: Option<(String, Option<Json>)>)
    ensures
        match message {
            LspMessage::Notification(method, params) => r matches Some(found) && found.0@
                == method@ && option_view(found.1) == option_view(*params),
            _ => r is None,
        },
{
    match message {
        LspMessage::Notification(method, params) => Some((method.clone(), clone_option(params))),
        _ => None,
    }
}

/// The id, method and parameters of a request; nothing for another message.
fn request_parts(message: &LspMessage) -> (r: Option<(u64, String, Option<Json>)>)
    ensures
        match message {
            LspMessage::Request(id, method, params) => r matches Some(found) && found.0 == *id
                && found.1@ == method@ && option_view(found.2) == option_view(*params),
            _ => r is None,
        },
{
    match message {
        LspMessage::Request(id, method, params) => Some(
            (*id, method.clone(), clone_option(params)),
        ),
        _ => None,
    }
}

/// What is known of the server's process when the session ends.
#[derive(Debug, PartialEq, Eq)]
pub enum ChildStatus {
    /// The process still runs.
    Running,
    /// The process has exited, with this status.
    Exited(String),
    /// The state of the process could not be found out; the reason.
    Unknown(String),
}

/// What is done with the server's process when the session ends.
#[derive(Clone, Copy, Debug, PartialEq, Eq)]
pub enum Teardown {
    /// The process still runs: it is killed and waited for.
    Kill,
    /// The process has gone after it was told to exit: nothing is left to do.
    Nothing,
}

/// Why the end of the session is a failure, if it is one: the process has
/// exited before it was told to, or its state could not be found out.
pub open spec fn teardown_failure_of(exit_written: bool, status: ChildStatus) -> Option<Seq<char>> {
    match status {
        ChildStatus::Running => None,
        ChildStatus::Exited(code) => if exit_written {
            None
        } else {
            Some("deno lsp exited unexpectedly "@ + code@)
        },
        ChildStatus::Unknown(error) => Some("pebble error: "@ + error@),
    }
}

/// The session with a server.
pub struct LspClient {
    reader: LspStdoutReader,
    request_id: u64,
    writer: Vec<u8>,
    exit_written: bool,
    context: TestContext,
}

/// The state of a session.
pub ghost struct LspClientView {
    /// The messages that wait to be taken, oldest first.
    pub pending: Seq<LspMessage>,
    /// The messages that were taken.
    pub read: Seq<LspMessage>,
    /// The bytes of the server's output that do not make a whole frame yet.
    pub unread: Seq<u8>,
    /// Whether the server's output is still read.
    pub open: bool,
    /// The id of the request in flight, or of the next one.
    pub request_id: u64,
    /// The bytes that were written and not yet taken by the transport.
    pub written: Seq<u8>,
    /// Whether the `exit` notification was written.
    pub exit_written: bool,
    /// The URI of the directory of the context.
    pub root_uri: Seq<char>,
}

impl View for LspClient {
    type V = LspClientView;

    closed spec fn view(&self) -> LspClientView {
        LspClientView {
            pending: self.reader.pending(),
            read: self.reader.read(),
            unread: self.reader.unread(),
            open: self.reader.open(),
            request_id: self.request_id,
            written: self.writer@,
            exit_written: self.exit_written,
            root_uri: self.context.deno_dir_uri(),
        }
    }
}

impl LspClientView {
    /// The state once the waiting message at `at` was taken.
    pub open spec fn take(self, at: int) -> LspClientView {
        LspClientView {
            pending: self.pending.remove(at),
            read: self.read.push(self.pending[at]),
            ..self
        }
    }

    /// The place of the oldest response that waits, or the number of waiting
    /// messages where none does.
    pub open spec fn response_at(self) -> int {
        first_where(self.pending, is_response())
    }

    /// Whether the oldest response that waits answers the request in flight.
    pub open spec fn answered(self) -> bool {
        self.response_at() < self.pending.len() && self.pending[self.response_at()]->Response_0
            == self.request_id
    }

    /// Whether the session is in step with the server: no response waits, or
    /// the oldest one answers the request in flight.
    pub open spec fn in_step(self) -> bool {
        self.response_at() == self.pending.len() || self.answered()
    }

    /// The state once the response to the request in flight was asked for:
    /// where it waits, it is taken and the id of the session goes up by one;
    /// else nothing changes.
    pub open spec fn after_response(self) -> LspClientView {
        if self.answered() {
            LspClientView {
                request_id: (self.request_id + 1) as u64,
                ..self.take(self.response_at())
            }
        } else {
            self
        }
    }

    /// Whether a notification of the method `method` has arrived, whether it
    /// still waits or was taken.
    pub open spec fn had_notification(self, method: Seq<char>) -> bool {
        exists|i: int|
            0 <= i < (self.read + self.pending).len() && is_notification_of(
                #[trigger] (self.read + self.pending)[i],
                method,
            )
    }

    /// The state once bytes of the server's output were taken in.
    pub open spec fn fed(self, bytes: Seq<u8>, new: Seq<LspMessage>) -> LspClientView {
        if self.open {
            LspClientView {
                pending: self.pending + new,
                unread: taken(self.unread + bytes).1,
                open: taken(self.unread + bytes).2,
                ..self
            }
        } else {
            self
        }
    }

    /// The state once the notification `method` was written: the `exit`
    /// notification is remembered.
    pub open spec fn wrote_notification(self, method: Seq<char>, params: JsonView) -> LspClientView {
        let after = self.wrote(notification_envelope(method, params));
        LspClientView { exit_written: self.exit_written || method == "exit"@, ..after }
    }

    /// The state once the document `doc` was written.
    pub open spec fn wrote(self, doc: JsonView) -> LspClientView {
        LspClientView { written: self.written + message_frame(json_text(doc)), ..self }
    }
}

/// The parameters that a client sends unless it is told otherwise: the
/// default ones, with the directory of its context as the root.
pub open spec fn start_params(root_uri: Seq<char>) -> InitializeParamsView {
    InitializeParamsView { root_uri: Some(root_uri), ..default_params() }
}

/// The document of the `initialize` request with the id `id`.
pub open spec fn initialize_request(id: u64, params: InitializeParamsView) -> JsonView {
    request_envelope(id, "initialize"@, params.to_json())
}

/// The id of the session only goes up, and by one exactly when the response
/// with that id was read; a write leaves it as it is. So the request that is
/// written after a response was read carries the next id, and a response
/// with another id than that of the request in flight is never handed out.
pub proof fn lemma_correlation(state: LspClientView, doc: JsonView)
    requires
        state.request_id < u64::MAX,
        state.in_step(),
    ensures
        state.wrote(doc).request_id == state.request_id,
        state.after_response().request_id == if state.answered() {
            state.request_id + 1
        } else {
            state.request_id as int
        },
        state.answered() ==> state.request_id < state.after_response().request_id,
        state.answered() ==> state.pending[state.response_at()] is Response
            && state.pending[state.response_at()]->Response_0 == state.request_id,
        !state.answered() ==> forall|i: int|
            0 <= i < state.pending.len() ==> !(#[trigger] state.pending[i] is Response),
{
    lemma_first_where_bounds(state.pending, is_response());
}

impl LspClientBuilder {
    /// The client for a server whose output is `stdout`: the first request
    /// will have the id 1, nothing is written yet, and the messages on
    /// `stdout` wait to be taken. The context is the chosen one, or `fallback`
    /// where none was chosen.
    pub fn build(&self, stdout: ByteReader, fallback: TestContext) -> (r: LspClient)
        ensures
            messages_view(r@.pending) == taken(stdout@).0,
            r@.unread == taken(stdout@).1,
            r@.open == taken(stdout@).2,
            r@.read == Seq::<LspMessage>::empty(),
            r@.request_id == 1,
            r@.written == Seq::<u8>::empty(),
            !r@.exit_written,
            r@.root_uri == match self@.context {
                Some(uri) => uri,
                None => fallback.deno_dir_uri(),
            },
    {
        LspClient {
            reader: LspStdoutReader::new(stdout),
            request_id: 1,
            writer: Vec::new(),
            exit_written: false,
            context: self.context_or(fallback),
        }
    }

    /// The client for a server that was started, or the reason why it could
    /// not be started.
    pub fn build_result(&self, spawned: Result<ByteReader, String>, fallback: TestContext) -> (r:
        Result<LspClient, String>)
        ensures
            match spawned {
                Ok(stdout) => r matches Ok(client) && messages_view(client@.pending) == taken(
                    stdout@,
                ).0 && client@.unread == taken(stdout@).1 && client@.open == taken(stdout@).2
                    && client@.read == Seq::<LspMessage>::empty() && client@.request_id == 1
                    && client@.written == Seq::<u8>::empty() && !client@.exit_written
                    && client@.root_uri == match self@.context {
                    Some(uri) => uri,
                    None => fallback.deno_dir_uri(),
                },
                Err(reason) => r matches Err(text) && text == reason,
            },
    {
        match spawned {
            Ok(stdout) => Ok(self.build(stdout, fallback)),
            Err(reason) => Err(reason),
        }
    }
}

impl LspClient {
    /// Whether no message waits to be taken.
    pub fn queue_is_empty(&self) -> (r: bool)
        ensures
            r == (self@.pending.len() == 0),
    {
        self.reader.pending_len() == 0
    }

    /// How many messages wait to be taken.
    pub fn queue_len(&self) -> (r: usize)
        ensures
            r == self@.pending.len(),
    {
        self.reader.pending_len()
    }

    /// The id of the request in flight, or of the next one.
    pub fn request_id(&self) -> (r: u64)
        ensures
            r == self@.request_id,
    {
        self.request_id
    }

    /// Takes in bytes of the server's output that have arrived: the messages
    /// of the frames that are now all there wait to be taken, behind those
    /// that waited. Once a frame was refused or a body was no message, the
    /// output is read no further and the bytes are dropped.
    pub fn feed(&mut self, bytes: &[u8])
        ensures
            final(self)@ == old(self)@.fed(
                bytes@,
                final(self)@.pending.skip(old(self)@.pending.len() as int),
            ),
            old(self)@.open ==> messages_view(
                final(self)@.pending.skip(old(self)@.pending.len() as int),
            ) == taken(old(self)@.unread + bytes@).0,
    {
        let ghost before = self@.pending;
        self.reader.feed(bytes);
        proof {
            let after = self@.pending;
            assert(after.len() >= before.len());
            assert(after.take(before.len() as int) == before);
            assert forall|i: int| 0 <= i < before.len() implies after[i] == before[i] by {
                assert(after.take(before.len() as int)[i] == after[i]);
            }
            assert(after =~= before + after.skip(before.len() as int));
        }
    }

    /// Whether the server's output is still read.
    pub fn is_open(&self) -> (r: bool)
        ensures
            r == self@.open,
    {
        self.reader.is_open()
    }

    /// Adds a message that has arrived from the server.
    pub fn receive(&mut self, message: LspMessage)
        ensures
            final(self)@ == (LspClientView { pending: old(self)@.pending.push(message), ..old(self)@ }),
    {
        self.reader.push(message);
    }

    /// Hands out the bytes that were written since the last call, for the
    /// transport to send.
    pub fn take_written(&mut self) -> (r: Vec<u8>)
        ensures
            r@ == old(self)@.written,
            final(self)@ == (LspClientView { written: Seq::empty(), ..old(self)@ }),
    {
        let mut bytes: Vec<u8> = Vec::new();
        core::mem::swap(&mut self.writer, &mut bytes);
        bytes
    }

    /// Writes one document as a frame.
    fn write(&mut self, value: Json)
        ensures
            final(self)@ == old(self)@.wrote(value@),
    {
        let text = value.to_text();
        let mut frame = frame_message(text.as_str());
        self.writer.append(&mut frame);
    }

    /// Writes a request with the id of the session. The id stays the same
    /// until the response is read.
    pub fn write_request(&mut self, method: &str, params: Json)
        ensures
            final(self)@ == old(self)@.wrote(
                request_envelope(old(self)@.request_id, method@, params@),
            ),
    {
        let value = request(self.request_id, method, params);
        self.write(value);
    }

    /// Tests whether the session is in step with the server. Where the oldest
    /// response that waits answers another request than the one in flight,
    /// the two ids are returned: the session cannot go on.
    pub fn response_mismatch(&self) -> (r: Option<(u64, u64)>)
        ensures
            r is None <==> self@.in_step(),
            r matches Some(ids) ==> ids.0 == self@.request_id && ids.1
                == self@.pending[self@.response_at()]->Response_0,
    {
        let ghost pending = self@.pending;
        match self.reader.find_message(response_id) {
            Some(id) => {
                proof {
                    let at = choose|i: int|
                        0 <= i < pending.len() && pending[i] is Response
                            && pending[i]->Response_0 == id && forall|j: int|
                            0 <= j < i ==> !(#[trigger] pending[j] is Response);
                    lemma_first_where(pending, is_response(), at);
                }
                if id == self.request_id {
                    None
                } else {
                    Some((self.request_id, id))
                }
            },
            None => {
                proof {
                    lemma_first_where(pending, is_response(), pending.len() as int);
                }
                None
            },
        }
    }

    /// Reads the response to the request in flight, where it has arrived: it
    /// is taken, and the id of the session goes up by one. `None` where no
    /// response waits. A response to another request must not wait:
    /// `response_mismatch` tests that.
    pub fn read_response(&mut self) -> (r: Option<(Option<Json>, Option<LspResponseError>)>)
        requires
            old(self)@.request_id < u64::MAX,
            old(self)@.in_step(),
        ensures
            final(self)@ == old(self)@.after_response(),
            r is Some <==> old(self)@.answered(),
            r matches Some(found) ==> option_view(found.0) == option_view(
                old(self)@.pending[old(self)@.response_at()]->Response_1,
            ) && error_view(found.1) == error_view(
                old(self)@.pending[old(self)@.response_at()]->Response_2,
            ),
    {
        let ghost pending = self@.pending;
        match self.reader.read_message(response_parts) {
            Some((_, result, error)) => {
                proof {
                    let at = choose|i: int|
                        0 <= i < pending.len() && self.reader.pending() == pending.remove(i)
                            && self.reader.read() == old(self)@.read.push(pending[i])
                            && pending[i] is Response && option_view(result) == option_view(
                            pending[i]->Response_1,
                        ) && error_view(error) == error_view(pending[i]->Response_2) && forall|
                            j: int,
                        | 0 <= j < i ==> !(#[trigger] pending[j] is Response);
                    lemma_first_where(pending, is_response(), at);
                }
                self.request_id = self.request_id + 1;
                Some((result, error))
            },
            None => {
                proof {
                    lemma_first_where(pending, is_response(), pending.len() as int);
                }
                None
            },
        }
    }

    /// Writes a response to a request of the server.
    pub fn write_response(&mut self, id: u64, result: Json)
        ensures
            final(self)@ == old(self)@.wrote(response_envelope(id, result@)),
    {
        let value = response(id, result);
        self.write(value);
    }

    /// Writes a notification. That the `exit` notification was written is
    /// remembered for the end of the session.
    pub fn write_notification(&mut self, method: &str, params: Json)
        ensures
            final(self)@ == old(self)@.wrote_notification(method@, params@),
    {
        let value = notification(method, params);
        self.write(value);
        let is_exit = method.to_owned() == "exit".to_owned();
        if is_exit {
            self.exit_written = true;
        }
    }

    /// Takes the oldest notification that waits: its method and parameters.
    /// `None` where none waits.
    pub fn read_notification(&mut self) -> (r: Option<(String, Option<Json>)>)
        ensures
            ({
                let at = first_where(old(self)@.pending, is_notification());
                if at == old(self)@.pending.len() {
                    r is None && final(self)@ == old(self)@
                } else {
                    &&& r matches Some(found)
                    &&& found.0@ == old(self)@.pending[at]->Notification_0@
                    &&& option_view(found.1) == option_view(old(self)@.pending[at]->Notification_1)
                    &&& final(self)@ == old(self)@.take(at)
                }
            }),
    {
        let ghost pending = self@.pending;
        let found = self.reader.read_message(notification_parts);
        proof {
            if found is Some {
                let taken = found->0;
                {
                    let at = choose|i: int|
                        0 <= i < pending.len() && self.reader.pending() == pending.remove(i)
                            && self.reader.read() == old(self)@.read.push(pending[i])
                            && pending[i] is Notification && taken.0@
                            == pending[i]->Notification_0@ && option_view(taken.1) == option_view(
                            pending[i]->Notification_1,
                        ) && forall|j: int| 0 <= j < i ==> !(#[trigger] pending[j] is Notification);
                    lemma_first_where(pending, is_notification(), at);
                }
            } else {
                lemma_first_where(pending, is_notification(), pending.len() as int);
            }
        }
        found
    }

    /// Takes the oldest request of the server that waits: its id, method and
    /// parameters. `None` where none waits.
    pub fn read_request(&mut self) -> (r: Option<(u64, String, Option<Json>)>)
        ensures
            ({
                let at = first_where(old(self)@.pending, is_request());
                if at == old(self)@.pending.len() {
                    r is None && final(self)@ == old(self)@
                } else {
                    &&& r matches Some(found)
                    &&& found.0 == old(self)@.pending[at]->Request_0
                    &&& found.1@ == old(self)@.pending[at]->Request_1@
                    &&& option_view(found.2) == option_view(old(self)@.pending[at]->Request_2)
                    &&& final(self)@ == old(self)@.take(at)
                }
            }),
    {
        let ghost pending = self@.pending;
        let found = self.reader.read_message(request_parts);
        proof {
            if found is Some {
                let taken = found->0;
                {
                    let at = choose|i: int|
                        0 <= i < pending.len() && self.reader.pending() == pending.remove(i)
                            && self.reader.read() == old(self)@.read.push(pending[i])
                            && pending[i] is Request && taken.0 == pending[i]->Request_0
                            && taken.1@ == pending[i]->Request_1@ && option_view(taken.2)
                            == option_view(pending[i]->Request_2) && forall|j: int|
                            0 <= j < i ==> !(#[trigger] pending[j] is Request);
                    lemma_first_where(pending, is_request(), at);
                }
            } else {
                lemma_first_where(pending, is_request(), pending.len() as int);
            }
        }
        found
    }

    /// Starts the handshake: writes the `initialize` request. Its parameters
    /// are those that `do_build` makes of the default ones, with the directory
    /// of the context as the root.
    pub fn initialize<F: FnOnce(InitializeParamsBuilder) -> InitializeParamsBuilder>(
        &mut self,
        do_build: F,
    )
        requires
            forall|builder: InitializeParamsBuilder| call_requires(do_build, (builder,)),
        ensures
            exists|start: InitializeParamsBuilder, built: InitializeParamsBuilder|
                {
                    &&& start@ == start_params(old(self)@.root_uri)
                    &&& #[trigger] call_ensures(do_build, (start,), built)
                    &&& final(self)@ == old(self)@.wrote(
                        initialize_request(old(self)@.request_id, built@),
                    )
                },
    {
        let mut start = InitializeParamsBuilder::new();
        start.set_root_uri(self.context.deno_dir().to_owned());
        let ghost given = start;
        let built = do_build(start);
        let params = built.build();
        self.write_request("initialize", params.to_json());
        proof {
            assert(call_ensures(do_build, (given,), built));
        }
    }

    /// Starts the handshake with the parameters that a test normally sends.
    pub fn initialize_default(&mut self)
        ensures
            final(self)@ == old(self)@.wrote(
                initialize_request(old(self)@.request_id, start_params(old(self)@.root_uri)),
            ),
    {
        let mut start = InitializeParamsBuilder::new();
        start.set_root_uri(self.context.deno_dir().to_owned());
        let params = start.build();
        self.write_request("initialize", params.to_json());
    }

    /// Ends the handshake, once the response to `initialize` was read: writes
    /// the `initialized` notification, with an empty object as parameters.
    pub fn initialized(&mut self)
        ensures
            final(self)@ == old(self)@.wrote_notification(
                "initialized"@,
                JsonView::empty_object(),
            ),
    {
        self.write_notification("initialized", Json::object());
    }

    /// Asks the server to shut down: writes the `shutdown` request, without
    /// parameters.
    pub fn shutdown(&mut self)
        ensures
            final(self)@ == old(self)@.wrote(
                request_envelope(old(self)@.request_id, "shutdown"@, JsonView::Null),
            ),
    {
        self.write_request("shutdown", Json::Null);
    }

    /// Tells the server to exit, once the response to `shutdown` was read:
    /// writes the `exit` notification, with `null` as parameters. After it,
    /// the process may go by itself.
    pub fn exit(&mut self)
        ensures
            final(self)@ == old(self)@.wrote_notification("exit"@, JsonView::Null),
            final(self)@.exit_written,
    {
        self.write_notification("exit", Json::Null);
    }

    /// Whether a notification of the method `method` has arrived, whether it
    /// still waits or was taken.
    pub fn had_notification(&self, method: &str) -> (r: bool)
        ensures
            r == self@.had_notification(method@),
    {
        let wanted = method.to_owned();
        let is_match = |message: &LspMessage| -> (r: bool)
            ensures
                r == is_notification_of(*message, wanted@)
            { is_notification_for(message, &wanted) };
        let had = self.reader.had_message(is_match);
        proof {
            let all = self@.read + self@.pending;
            if had {
                let at = choose|i: int|
                    0 <= i < all.len() && call_ensures(is_match, (&#[trigger] all[i],), true);
                assert(is_notification_of(all[at], method@));
            } else {
                assert forall|i: int| 0 <= i < all.len() implies !is_notification_of(
                    #[trigger] all[i],
                    method@,
                ) by {
                    assert(call_ensures(is_match, (&all[i],), false));
                }
            }
        }
        had
    }

    /// States that no notification of the method `searching_method` has
    /// arrived. It must not have: `had_notification` tests that.
    pub fn assert_no_notification(&self, searching_method: &str)
        requires
            !self@.had_notification(searching_method@),
    {
    }

    /// Tests whether the end of the session is a failure, and gives the
    /// reason where it is one: the process has exited before the `exit`
    /// notification was written, or its state could not be found out.
    pub fn teardown_failure(&self, status: &ChildStatus) -> (r: Option<String>)
        ensures
            match r {
                Some(reason) => teardown_failure_of(self@.exit_written, *status) == Some(reason@),
                None => teardown_failure_of(self@.exit_written, *status) is None,
            },
    {
        match status {
            ChildStatus::Running => None,
            ChildStatus::Exited(code) => {
                if self.exit_written {
                    None
                } else {
                    let mut reason = "deno lsp exited unexpectedly ".to_owned();
                    reason.append(code.as_str());
                    Some(reason)
                }
            },
            ChildStatus::Unknown(error) => {
                let mut reason = "pebble error: ".to_owned();
                reason.append(error.as_str());
                Some(reason)
            },
        }
    }

    /// Decides what is done with the server's process at the end of the
    /// session. A process that still runs is killed. One that has gone after
    /// the `exit` notification was written needs nothing. The end must not be
    /// a failure: `teardown_failure` tests that.
    pub fn teardown(&self, status: &ChildStatus) -> (r: Teardown)
        requires
            teardown_failure_of(self@.exit_written, *status) is None,
        ensures
            r == match status {
                ChildStatus::Running => Teardown::Kill,
                _ => Teardown::Nothing,
            },
    {
        match status {
            ChildStatus::Running => Teardown::Kill,
            _ => Teardown::Nothing,
        }
    }
}

} // verus!
