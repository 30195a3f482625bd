use lsp_client::builder::{LspClientBuilder, ServerCommand, TestContext};
use lsp_client::client::{ChildStatus, LspClient, Teardown};
use lsp_client::frame::{frame_message, read_message, ByteReader};
use lsp_client::json::Json;
use lsp_client::message::{LspMessage, LspResponseError};
use lsp_client::params::InitializeParamsBuilder;

fn client_with(output: &[&str]) -> LspClient {
    let mut stream = Vec::new();
    for body in output {
        stream.extend(frame_message(body));
    }
    LspClientBuilder::new().build(ByteReader::new(stream), TestContext::new("file:///tmp/deno/"))
}

fn sent(client: &mut LspClient) -> Vec<LspMessage> {
    let mut reader = ByteReader::new(client.take_written());
    let mut messages = Vec::new();
    while let Some(body) = read_message(&mut reader).unwrap() {
        messages.push(LspMessage::from(&body).unwrap());
    }
    messages
}

/// Reads the response as a caller has to: the test first, then the read.
fn response(client: &mut LspClient) -> Option<(Option<Json>, Option<LspResponseError>)> {
    assert_eq!(client.response_mismatch(), None);
    assert!(client.request_id() < u64::MAX);
    client.read_response()
}

#[test]
fn builder_settings() {
    let mut builder = LspClientBuilder::new();
    assert_eq!(builder.exe_path(), None);
    assert!(!builder.shows_stderr());
    assert_eq!(builder.context_or(TestContext::new("file:///a/")).deno_dir(), "file:///a/");
    builder.deno_exe("/bin/server").print_stderr().set_test_context(&TestContext::new("file:///b/"));
    assert_eq!(builder.exe_path(), Some("/bin/server"));
    assert!(builder.shows_stderr());
    assert_eq!(builder.context_or(TestContext::new("file:///a/")).deno_dir(), "file:///b/");
    assert_eq!(TestContext::new("x").clone(), TestContext::new("x"));
}

#[test]
fn command_of_the_server() {
    let mut builder = LspClientBuilder::new();
    assert_eq!(
        builder.command("/tmp/deno_dir", "http://localhost:4545/npm/registry/"),
        ServerCommand {
            program: None,
            args: vec!["lsp".to_string()],
            env: vec![
                ("DENO_DIR".to_string(), "/tmp/deno_dir".to_string()),
                (
                    "NPM_CONFIG_REGISTRY".to_string(),
                    "http://localhost:4545/npm/registry/".to_string()
                ),
            ],
            stderr_shown: false,
        }
    );
    builder.deno_exe("target/debug/deno").print_stderr();
    let command = builder.command("d", "r");
    assert_eq!(command.program, Some("target/debug/deno".to_string()));
    assert!(command.stderr_shown);
}

#[test]
fn build_result_passes_the_failure_on() {
    let builder = LspClientBuilder::new();
    let failed = builder.build_result(Err("No such file".to_string()), TestContext::new("file:///a/"));
    assert_eq!(failed.err(), Some("No such file".to_string()));
    let stream = frame_message("{\"method\":\"hello\"}");
    let mut client = builder
        .build_result(Ok(ByteReader::new(stream)), TestContext::new("file:///a/"))
        .ok()
        .unwrap();
    assert_eq!(client.request_id(), 1);
    assert_eq!(client.queue_len(), 1);
    assert_eq!(client.read_notification(), Some(("hello".to_string(), None)));
}

#[test]
fn new_client_starts_with_id_one_and_nothing_written() {
    let mut client = client_with(&[]);
    assert_eq!(client.request_id(), 1);
    assert!(client.queue_is_empty());
    assert!(client.is_open());
    assert_eq!(client.queue_len(), 0);
    assert_eq!(client.take_written(), Vec::<u8>::new());
    assert_eq!(response(&mut client), None);
    assert_eq!(client.read_notification(), None);
    assert_eq!(client.read_request(), None);
}

#[test]
fn write_request_frames_the_request_with_the_id_of_the_session() {
    let mut client = client_with(&[]);
    client.write_request("textDocument/hover", Json::string("p"));
    assert_eq!(
        client.take_written(),
        b"Content-Length: 67\r\n\r\n{\"id\":1,\"jsonrpc\":\"2.0\",\"method\":\"textDocument/hover\",\"params\":\"p\"}"
            .to_vec()
    );
    assert_eq!(client.take_written(), Vec::<u8>::new());
    assert_eq!(client.request_id(), 1);
}

#[test]
fn ids_go_up_by_one_with_each_answered_request() {
    let mut client = client_with(&[
        "{\"jsonrpc\":\"2.0\",\"id\":1,\"result\":\"first\"}",
        "{\"jsonrpc\":\"2.0\",\"method\":\"note\",\"params\":1}",
        "{\"jsonrpc\":\"2.0\",\"id\":2,\"error\":{\"code\":-1,\"message\":\"bad\"}}",
    ]);
    client.write_request("a", Json::Null);
    assert_eq!(client.request_id(), 1);
    assert_eq!(response(&mut client), Some((Some(Json::string("first")), None)));
    assert_eq!(client.request_id(), 2);
    client.write_request("b", Json::Null);
    assert_eq!(
        response(&mut client),
        Some((None, Some(LspResponseError::new(-1, "bad".to_string(), None))))
    );
    assert_eq!(client.request_id(), 3);
    assert_eq!(response(&mut client), None);
    assert_eq!(client.request_id(), 3);
    assert_eq!(
        sent(&mut client),
        vec![
            LspMessage::Request(1, "a".to_string(), None),
            LspMessage::Request(2, "b".to_string(), None)
        ]
    );
    assert_eq!(client.queue_len(), 1);
    assert_eq!(client.read_notification(), Some(("note".to_string(), Some(Json::number(1)))));
}

#[test]
fn response_with_another_id_is_a_mismatch() {
    let mut client = client_with(&["{\"id\":5,\"result\":null}", "{\"id\":1,\"result\":null}"]);
    client.write_request("a", Json::Null);
    assert_eq!(client.response_mismatch(), Some((1, 5)));
    assert_eq!(client.request_id(), 1);
    assert_eq!(client.queue_len(), 2);
    assert_eq!(client.response_mismatch(), Some((1, 5)));
}

#[test]
fn response_mismatch_looks_at_the_oldest_response_alone() {
    let mut client = client_with(&[
        "{\"method\":\"n\"}",
        "{\"id\":9,\"method\":\"r\"}",
        "{\"id\":1,\"result\":null}",
        "{\"id\":7,\"result\":null}",
    ]);
    assert_eq!(client.response_mismatch(), None);
    assert_eq!(client.read_response(), Some((Some(Json::Null), None)));
    assert_eq!(client.request_id(), 2);
    assert_eq!(client.response_mismatch(), Some((2, 7)));
    assert_eq!(client.queue_len(), 3);
}

#[test]
fn response_that_arrives_later_is_read_then() {
    let mut client = client_with(&["{\"method\":\"early\"}"]);
    client.write_request("a", Json::Null);
    assert_eq!(response(&mut client), None);
    assert_eq!(client.queue_len(), 1);
    client.receive(LspMessage::Response(1, Some(Json::Bool(true)), None));
    assert_eq!(client.queue_len(), 2);
    assert_eq!(response(&mut client), Some((Some(Json::Bool(true)), None)));
    assert_eq!(client.queue_len(), 1);
    assert_eq!(client.read_notification(), Some(("early".to_string(), None)));
    assert!(client.queue_is_empty());
}

#[test]
fn output_that_arrives_in_pieces_is_read_as_it_becomes_whole() {
    let mut client = client_with(&[]);
    client.write_request("a", Json::Null);
    let mut output = frame_message("{\"method\":\"progress\",\"params\":[1,2]}");
    output.extend(frame_message("{\"id\":1,\"result\":{\"ok\":true}}"));
    let (head, tail) = output.split_at(output.len() - 5);
    client.feed(&head[..30]);
    assert_eq!(client.queue_len(), 0);
    client.feed(&head[30..]);
    assert_eq!(client.queue_len(), 1);
    assert_eq!(response(&mut client), None);
    client.feed(tail);
    assert_eq!(client.queue_len(), 2);
    assert_eq!(
        response(&mut client),
        Some((Some(Json::parse(b"{\"ok\":true}").unwrap()), None))
    );
    assert!(client.is_open());
    client.feed(b"Content-Length: 1\r\n\r\nx");
    assert!(!client.is_open());
    client.feed(&frame_message("{\"method\":\"late\"}"));
    assert_eq!(client.queue_len(), 1);
    assert_eq!(
        client.read_notification(),
        Some((
            "progress".to_string(),
            Some(Json::array(vec![Json::number(1), Json::number(2)]))
        ))
    );
}

#[test]
fn reads_take_the_oldest_of_their_kind() {
    let mut client = client_with(&[
        "{\"id\":10,\"method\":\"workspace/configuration\",\"params\":{\"items\":[]}}",
        "{\"method\":\"n1\",\"params\":[1]}",
        "{\"id\":11,\"method\":\"r2\"}",
        "{\"method\":\"n2\"}",
    ]);
    assert_eq!(client.read_notification(), Some(("n1".to_string(), Some(Json::array(vec![Json::number(1)])))));
    assert_eq!(
        client.read_request(),
        Some((
            10,
            "workspace/configuration".to_string(),
            Some(Json::parse(b"{\"items\":[]}").unwrap())
        ))
    );
    assert_eq!(client.read_request(), Some((11, "r2".to_string(), None)));
    assert_eq!(client.read_request(), None);
    assert_eq!(client.read_notification(), Some(("n2".to_string(), None)));
    assert_eq!(client.read_notification(), None);
    client.write_response(10, Json::array(vec![]));
    assert_eq!(sent(&mut client), vec![LspMessage::Response(10, Some(Json::array(vec![])), None)]);
}

#[test]
fn had_notification_looks_at_all_that_arrived() {
    let mut client = client_with(&["{\"method\":\"a\"}", "{\"id\":1,\"method\":\"b\"}"]);
    assert!(client.had_notification("a"));
    assert!(!client.had_notification("b"));
    assert!(!client.had_notification("c"));
    client.assert_no_notification("b");
    client.assert_no_notification("c");
    assert_eq!(client.read_notification(), Some(("a".to_string(), None)));
    assert!(client.had_notification("a"));
    assert_eq!(client.queue_len(), 1);
    assert_eq!(client.request_id(), 1);
}

#[test]
fn handshake_from_initialize_to_exit() {
    let mut client = client_with(&[
        "{\"jsonrpc\":\"2.0\",\"id\":1,\"result\":{\"capabilities\":{}}}",
        "{\"jsonrpc\":\"2.0\",\"id\":2,\"result\":null}",
    ]);
    let exited = ChildStatus::Exited("exit status: 0".to_string());
    client.initialize_default();
    let first = sent(&mut client);
    assert_eq!(first.len(), 1);
    let mut expected = InitializeParamsBuilder::new();
    expected.set_root_uri("file:///tmp/deno/".to_string());
    assert_eq!(
        first[0],
        LspMessage::Request(
            1,
            "initialize".to_string(),
            Some(Json::parse(expected.build().to_json().to_text().as_bytes()).unwrap())
        )
    );
    assert_eq!(
        response(&mut client),
        Some((Some(Json::parse(b"{\"capabilities\":{}}").unwrap()), None))
    );
    client.initialized();
    assert_eq!(
        sent(&mut client),
        vec![LspMessage::Notification("initialized".to_string(), Some(Json::object()))]
    );
    client.shutdown();
    assert_eq!(sent(&mut client), vec![LspMessage::Request(2, "shutdown".to_string(), None)]);
    assert_eq!(response(&mut client), Some((Some(Json::Null), None)));
    assert_eq!(
        client.teardown_failure(&exited),
        Some("deno lsp exited unexpectedly exit status: 0".to_string())
    );
    client.exit();
    assert_eq!(
        client.take_written(),
        b"Content-Length: 47\r\n\r\n{\"jsonrpc\":\"2.0\",\"method\":\"exit\",\"params\":null}".to_vec()
    );
    assert_eq!(client.request_id(), 3);
    assert_eq!(client.teardown_failure(&exited), None);
    assert_eq!(client.teardown(&exited), Teardown::Nothing);
    assert_eq!(client.teardown_failure(&ChildStatus::Running), None);
    assert_eq!(client.teardown(&ChildStatus::Running), Teardown::Kill);
}

#[test]
fn initialize_applies_the_changes_of_the_caller() {
    let mut client = LspClientBuilder::new()
        .set_test_context(&TestContext::new("file:///ctx/"))
        .build(ByteReader::new(Vec::new()), TestContext::new("file:///fallback/"));
    client.initialize(|mut builder: InitializeParamsBuilder| {
        builder.set_unstable(true).set_config("./deno.json");
        builder
    });
    let first = sent(&mut client);
    let params = match &first[0] {
        LspMessage::Request(1, method, Some(params)) if method == "initialize" => params.clone(),
        other => panic!("unexpected message {:?}", other),
    };
    assert_eq!(params.get("rootUri"), Some(Json::string("file:///ctx/")));
    let options = params.get("initializationOptions").unwrap();
    assert_eq!(options.get("unstable"), Some(Json::Bool(true)));
    assert_eq!(options.get("config"), Some(Json::string("./deno.json")));
    assert_eq!(options.get("lint"), Some(Json::Bool(true)));
}

#[test]
fn exit_before_the_exit_notification_is_a_failure() {
    let mut client = client_with(&[]);
    assert_eq!(client.teardown_failure(&ChildStatus::Running), None);
    assert_eq!(client.teardown(&ChildStatus::Running), Teardown::Kill);
    assert_eq!(
        client.teardown_failure(&ChildStatus::Exited("exit status: 1".to_string())),
        Some("deno lsp exited unexpectedly exit status: 1".to_string())
    );
    assert_eq!(
        client.teardown_failure(&ChildStatus::Unknown("no such process".to_string())),
        Some("pebble error: no such process".to_string())
    );
    client.shutdown();
    client.write_notification("exitt", Json::Null);
    assert_eq!(
        client.teardown_failure(&ChildStatus::Exited("signal: 9".to_string())),
        Some("deno lsp exited unexpectedly signal: 9".to_string())
    );
}

#[test]
fn exit_after_the_exit_notification_needs_nothing() {
    let mut client = client_with(&[]);
    client.write_notification("exit", Json::Null);
    let exited = ChildStatus::Exited("exit status: 0".to_string());
    assert_eq!(client.teardown_failure(&exited), None);
    assert_eq!(client.teardown(&exited), Teardown::Nothing);
    assert_eq!(client.teardown(&ChildStatus::Running), Teardown::Kill);
    assert_eq!(
        client.teardown_failure(&ChildStatus::Unknown("gone".to_string())),
        Some("pebble error: gone".to_string())
    );
}
