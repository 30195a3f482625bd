use lsp_client::json::Json;
use lsp_client::params::{ClientInfo, InitializeParams, InitializeParamsBuilder, WorkspaceFolder};

fn doc(text: &str) -> Json {
    Json::parse(text.as_bytes()).unwrap()
}

fn sorted(value: &Json) -> Json {
    Json::parse(value.to_text().as_bytes()).unwrap()
}

fn options(builder: &InitializeParamsBuilder) -> Json {
    sorted(&builder.build().initialization_options.unwrap())
}

const DEFAULT_OPTIONS: &str = r#"{
  "enable": true,
  "cache": null,
  "certificateStores": null,
  "codeLens": { "implementations": true, "references": true, "test": true },
  "config": null,
  "importMap": null,
  "lint": true,
  "suggest": {
    "autoImports": true,
    "completeFunctionCalls": false,
    "names": true,
    "paths": true,
    "imports": { "hosts": {} }
  },
  "testing": { "args": ["--allow-all"], "enable": true },
  "tlsCertificate": null,
  "unsafelyIgnoreCertificateErrors": null,
  "unstable": false
}"#;

fn with_option(key: &str, value: &str) -> Json {
    let mut expected = doc(DEFAULT_OPTIONS);
    expected.insert(key, doc(value));
    sorted(&expected)
}

fn typed_default_params() -> lsp_types::InitializeParams {
    lsp_types::InitializeParams {
        process_id: None,
        client_info: Some(lsp_types::ClientInfo {
            name: "test-harness".to_string(),
            version: Some("1.0.0".to_string()),
        }),
        root_uri: None,
        initialization_options: Some(serde_json::from_str(DEFAULT_OPTIONS).unwrap()),
        capabilities: lsp_types::ClientCapabilities {
            text_document: Some(lsp_types::TextDocumentClientCapabilities {
                code_action: Some(lsp_types::CodeActionClientCapabilities {
                    code_action_literal_support: Some(lsp_types::CodeActionLiteralSupport {
                        code_action_kind: lsp_types::CodeActionKindLiteralSupport {
                            value_set: vec!["quickfix".to_string(), "refactor".to_string()],
                        },
                    }),
                    is_preferred_support: Some(true),
                    data_support: Some(true),
                    disabled_support: Some(true),
                    resolve_support: Some(lsp_types::CodeActionCapabilityResolveSupport {
                        properties: vec!["edit".to_string()],
                    }),
                    ..Default::default()
                }),
                completion: Some(lsp_types::CompletionClientCapabilities {
                    completion_item: Some(lsp_types::CompletionItemCapability {
                        snippet_support: Some(true),
                        ..Default::default()
                    }),
                    ..Default::default()
                }),
                folding_range: Some(lsp_types::FoldingRangeClientCapabilities {
                    line_folding_only: Some(true),
                    ..Default::default()
                }),
                synchronization: Some(lsp_types::TextDocumentSyncClientCapabilities {
                    dynamic_registration: Some(true),
                    will_save: Some(true),
                    will_save_wait_until: Some(true),
                    did_save: Some(true),
                }),
                ..Default::default()
            }),
            workspace: Some(lsp_types::WorkspaceClientCapabilities {
                configuration: Some(true),
                workspace_folders: Some(true),
                ..Default::default()
            }),
            experimental: Some(serde_json::from_str("{\"testingApi\": true}").unwrap()),
            ..Default::default()
        },
        ..Default::default()
    }
}

#[test]
fn default_params_are_what_the_protocol_types_serialize() {
    let typed = serde_json::to_value(typed_default_params()).unwrap();
    let built = InitializeParamsBuilder::new().build();
    assert_eq!(
        serde_json::from_str::<serde_json::Value>(&built.to_json().to_text()).unwrap(),
        typed
    );
    let read_back: lsp_types::InitializeParams =
        serde_json::from_str(&built.to_json().to_text()).unwrap();
    assert_eq!(read_back, typed_default_params());
}

#[test]
fn params_with_root_and_folders_are_what_the_protocol_types_serialize() {
    let mut typed = typed_default_params();
    typed.root_uri = Some(lsp_types::Url::parse("file:///project/").unwrap());
    typed.workspace_folders = Some(vec![
        lsp_types::WorkspaceFolder {
            uri: lsp_types::Url::parse("file:///project/a/").unwrap(),
            name: "a".to_string(),
        },
        lsp_types::WorkspaceFolder {
            uri: lsp_types::Url::parse("file:///project/b/").unwrap(),
            name: "b".to_string(),
        },
    ]);
    let mut builder = InitializeParamsBuilder::new();
    builder.set_root_uri("file:///project/".to_string()).set_workspace_folders(vec![
        WorkspaceFolder { uri: "file:///project/a/".to_string(), name: "a".to_string() },
        WorkspaceFolder { uri: "file:///project/b/".to_string(), name: "b".to_string() },
    ]);
    assert_eq!(
        serde_json::from_str::<serde_json::Value>(&builder.build().to_json().to_text())
            .unwrap(),
        serde_json::to_value(typed).unwrap()
    );
}

#[test]
fn sparse_params_are_what_the_protocol_types_serialize() {
    let typed = lsp_types::InitializeParams {
        process_id: Some(42),
        client_info: Some(lsp_types::ClientInfo { name: "c".to_string(), version: None }),
        capabilities: lsp_types::ClientCapabilities::default(),
        workspace_folders: Some(vec![]),
        ..Default::default()
    };
    let params = InitializeParams {
        process_id: Some(42),
        client_info: Some(ClientInfo { name: "c".to_string(), version: None }),
        root_uri: None,
        initialization_options: None,
        capabilities: Json::object(),
        workspace_folders: Some(vec![]),
    };
    assert_eq!(
        serde_json::from_str::<serde_json::Value>(&params.to_json().to_text()).unwrap(),
        serde_json::to_value(typed).unwrap()
    );
    let bare = InitializeParams {
        process_id: None,
        client_info: None,
        root_uri: Some("file:///r/".to_string()),
        initialization_options: Some(Json::Bool(true)),
        capabilities: Json::object(),
        workspace_folders: None,
    };
    let typed = lsp_types::InitializeParams {
        root_uri: Some(lsp_types::Url::parse("file:///r/").unwrap()),
        initialization_options: Some(serde_json::Value::Bool(true)),
        ..Default::default()
    };
    assert_eq!(
        serde_json::from_str::<serde_json::Value>(&bare.to_json().to_text()).unwrap(),
        serde_json::to_value(typed).unwrap()
    );
}

#[test]
fn to_json_leaves_out_what_is_not_set() {
    let params = InitializeParams {
        process_id: Some(42),
        client_info: Some(ClientInfo { name: "c".to_string(), version: None }),
        root_uri: None,
        initialization_options: None,
        capabilities: Json::object(),
        workspace_folders: Some(vec![]),
    };
    assert_eq!(
        params.to_json().to_text(),
        "{\"capabilities\":{},\"clientInfo\":{\"name\":\"c\"},\"processId\":42,\"rootUri\":null,\"workspaceFolders\":[]}"
    );
    assert_eq!(params.clone(), params);
}

#[test]
fn new_builder_has_the_default_params() {
    let params = InitializeParamsBuilder::new().build();
    assert_eq!(params.process_id, None);
    assert_eq!(
        params.client_info,
        Some(ClientInfo { name: "test-harness".to_string(), version: Some("1.0.0".to_string()) })
    );
    assert_eq!(params.root_uri, None);
    assert_eq!(params.workspace_folders, None);
    assert_eq!(sorted(&params.initialization_options.unwrap()), sorted(&doc(DEFAULT_OPTIONS)));
    assert_eq!(
        params.capabilities.get("experimental"),
        Some(doc("{\"testingApi\":true}"))
    );
    assert_eq!(
        params.capabilities.get("workspace"),
        Some(doc("{\"configuration\":true,\"workspaceFolders\":true}"))
    );
}

#[test]
fn root_uri_setters() {
    let mut builder = InitializeParamsBuilder::new();
    builder.set_root_uri("file:///a/".to_string());
    assert_eq!(builder.build().root_uri, Some("file:///a/".to_string()));
    builder.set_maybe_root_uri(None);
    assert_eq!(builder.build().root_uri, None);
    builder.set_maybe_root_uri(Some("file:///b/".to_string()));
    assert_eq!(builder.build().root_uri, Some("file:///b/".to_string()));
}

#[test]
fn option_setters() {
    let mut builder = InitializeParamsBuilder::new();
    builder.set_cache("/cache");
    assert_eq!(options(&builder), with_option("cache", "\"/cache\""));
    let mut builder = InitializeParamsBuilder::new();
    builder.set_config("./deno.json");
    assert_eq!(options(&builder), with_option("config", "\"./deno.json\""));
    let mut builder = InitializeParamsBuilder::new();
    builder.set_import_map("map.json");
    assert_eq!(options(&builder), with_option("importMap", "\"map.json\""));
    let mut builder = InitializeParamsBuilder::new();
    builder.set_tls_certificate("cert.pem");
    assert_eq!(options(&builder), with_option("tlsCertificate", "\"cert.pem\""));
    let mut builder = InitializeParamsBuilder::new();
    builder.set_deno_enable(false);
    assert_eq!(options(&builder), with_option("enable", "false"));
    let mut builder = InitializeParamsBuilder::new();
    builder.set_unstable(true);
    assert_eq!(options(&builder), with_option("unstable", "true"));
    let mut builder = InitializeParamsBuilder::new();
    builder.set_enable_paths(vec!["a".to_string(), "b/c".to_string()]);
    assert_eq!(options(&builder), with_option("enablePaths", "[\"a\",\"b/c\"]"));
    let mut builder = InitializeParamsBuilder::new();
    builder.set_code_lens(Some(doc("{\"test\":false}")));
    assert_eq!(options(&builder), with_option("codeLens", "{\"test\":false}"));
    builder.set_code_lens(None);
    let mut expected = doc(DEFAULT_OPTIONS);
    expected.remove("codeLens");
    assert_eq!(options(&builder), sorted(&expected));
}

#[test]
fn setters_chain() {
    let mut builder = InitializeParamsBuilder::new();
    builder.set_cache("c").set_unstable(true).set_deno_enable(false).enable_inlay_hints();
    let found = options(&builder);
    assert_eq!(found.get("cache"), Some(Json::string("c")));
    assert_eq!(found.get("unstable"), Some(Json::Bool(true)));
    assert_eq!(found.get("enable"), Some(Json::Bool(false)));
    assert!(found.contains_key("inlayHints"));
}

#[test]
fn inlay_hints() {
    let mut builder = InitializeParamsBuilder::new();
    builder.enable_inlay_hints();
    assert_eq!(
        options(&builder),
        with_option(
            "inlayHints",
            r#"{
              "parameterNames": { "enabled": "all" },
              "parameterTypes": { "enabled": true },
              "variableTypes": { "enabled": true },
              "propertyDeclarationTypes": { "enabled": true },
              "functionLikeReturnTypes": { "enabled": true },
              "enumMemberValues": { "enabled": true }
            }"#
        )
    );
}

#[test]
fn has_experimental_tests_what_disable_testing_api_needs() {
    let mut builder = InitializeParamsBuilder::new();
    assert!(builder.has_experimental());
    builder.with_capabilities(|mut capabilities: Json| {
        capabilities.insert("experimental", Json::Bool(true));
        capabilities
    });
    assert!(!builder.has_experimental());
    builder.with_capabilities(|mut capabilities: Json| {
        capabilities.remove("experimental");
        capabilities
    });
    assert!(!builder.has_experimental());
    builder.with_capabilities(|mut capabilities: Json| {
        capabilities.insert("experimental", Json::object());
        capabilities
    });
    assert!(builder.has_experimental());
    builder.disable_testing_api();
    assert_eq!(
        builder.build().capabilities.get("experimental"),
        Some(doc("{\"testingApi\":false}"))
    );
}

#[test]
fn disable_testing_api() {
    let mut builder = InitializeParamsBuilder::new();
    builder.disable_testing_api();
    let params = builder.build();
    assert_eq!(params.capabilities.get("experimental"), Some(doc("{\"testingApi\":false}")));
    let mut expected = doc(DEFAULT_OPTIONS);
    expected.remove("testing");
    assert_eq!(sorted(&params.initialization_options.unwrap()), sorted(&expected));
}

#[test]
fn suggest_imports_hosts() {
    let mut builder = InitializeParamsBuilder::new();
    builder.add_test_server_suggestions();
    let found = options(&builder);
    let suggest = found.get("suggest").unwrap();
    assert_eq!(
        suggest.get("imports"),
        Some(doc("{\"hosts\":{\"http://localhost:4545/\":true}}"))
    );
    assert_eq!(suggest.get("names"), Some(Json::Bool(true)));
    assert_eq!(found.get("lint"), Some(Json::Bool(true)));

    builder.set_suggest_imports_hosts(vec![
        ("https://a/".to_string(), true),
        ("https://b/".to_string(), false),
        ("https://a/".to_string(), false),
    ]);
    let found = options(&builder);
    assert_eq!(
        found.get("suggest").unwrap().get("imports"),
        Some(doc("{\"hosts\":{\"https://a/\":false,\"https://b/\":false}}"))
    );
    builder.set_suggest_imports_hosts(vec![]);
    assert_eq!(options(&builder), sorted(&doc(DEFAULT_OPTIONS)));
}

#[test]
fn with_capabilities_hands_the_capabilities_to_the_action() {
    let mut builder = InitializeParamsBuilder::new();
    builder.with_capabilities(|mut capabilities: Json| {
        capabilities.remove("textDocument");
        capabilities.insert("general", Json::object());
        capabilities
    });
    assert_eq!(
        sorted(&builder.build().capabilities),
        doc("{\"experimental\":{\"testingApi\":true},\"general\":{},\"workspace\":{\"configuration\":true,\"workspaceFolders\":true}}")
    );
}
