//! The parameters of the `initialize` request and the builder that a test
//! uses to set them.

use crate::json::{
    items_view, lemma_insert_get, lemma_remove_get, lemma_replace_at, lemma_replace_at_other,
    number_of, path_view, Json, JsonView,
};
use vstd::prelude::*;

verus! {

/// A folder of the workspace.
#[derive(Debug, PartialEq, Eq)]
pub struct WorkspaceFolder {
    pub uri: String,
    pub name: String,
}

/// The name and version of the client.
#[derive(Debug, PartialEq, Eq)]
pub struct ClientInfo {
    pub name: String,
    pub version: Option<String>,
}

/// The parameters of the `initialize` request.
#[derive(Debug, PartialEq, Eq)]
pub struct InitializeParams {
    pub process_id: Option<u32>,
    pub client_info: Option<ClientInfo>,
    pub root_uri: Option<String>,
    pub initialization_options: Option<Json>,
    pub capabilities: Json,
    pub workspace_folders: Option<Vec<WorkspaceFolder>>,
}

/// The mathematical value of [`InitializeParams`]. Client information is a
/// name with an optional version, a folder a URI with a name.
pub ghost struct InitializeParamsView {
    pub process_id: Option<u32>,
    pub client_info: Option<(Seq<char>, Option<Seq<char>>)>,
    pub root_uri: Option<Seq<char>>,
    pub initialization_options: Option<JsonView>,
    pub capabilities: JsonView,
    pub workspace_folders: Option<Seq<(Seq<char>, Seq<char>)>>,
}

/// The value of an optional string.
pub open spec fn text_view(text: Option<String>) -> Option<Seq<char>> {
    match text {
        Some(t) => Some(t@),
        None => None,
    }
}

/// The values of a list of folders.
pub open spec fn folders_view(folders: Seq<WorkspaceFolder>) -> Seq<(Seq<char>, Seq<char>)> {
    Seq::new(folders.len(), |i: int| (folders[i].uri@, folders[i].name@))
}

impl View for InitializeParams {
    type V = InitializeParamsView;

    open spec fn view(&self) -> InitializeParamsView {
        InitializeParamsView {
            process_id: self.process_id,
            client_info: match self.client_info {
                Some(info) => Some((info.name@, text_view(info.version))),
                None => None,
            },
            root_uri: text_view(self.root_uri),
            initialization_options: match self.initialization_options {
                Some(options) => Some(options@),
                None => None,
            },
            capabilities: self.capabilities@,
            workspace_folders: match self.workspace_folders {
                Some(folders) => Some(folders_view(folders@)),
                None => None,
            },
        }
    }
}

/// The document of one folder.
pub open spec fn folder_json(folder: (Seq<char>, Seq<char>)) -> JsonView {
    JsonView::empty_object().insert("uri"@, JsonView::String(folder.0)).insert(
        "name"@,
        JsonView::String(folder.1),
    )
}

/// The document of the client information.
pub open spec fn client_info_json(info: (Seq<char>, Option<Seq<char>>)) -> JsonView {
    let doc = JsonView::empty_object().insert("name"@, JsonView::String(info.0));
    match info.1 {
        Some(version) => doc.insert("version"@, JsonView::String(version)),
        None => doc,
    }
}

/// The document of an optional string: the string, or `null`.
pub open spec fn text_json(text: Option<Seq<char>>) -> JsonView {
    match text {
        Some(t) => JsonView::String(t),
        None => JsonView::Null,
    }
}

impl InitializeParamsView {
    /// The document that is sent as the parameters of the request. The
    /// process and the root are always named, as `null` where they are not
    /// set; the other members are left out where they are not set.
    pub open spec fn to_json(self) -> JsonView {
        let doc = JsonView::empty_object().insert(
            "processId"@,
            match self.process_id {
                Some(id) => JsonView::Number(number_of(id as u64)),
                None => JsonView::Null,
            },
        ).insert("rootUri"@, text_json(self.root_uri));
        let doc = match self.initialization_options {
            Some(options) => doc.insert("initializationOptions"@, options),
            None => doc,
        };
        let doc = doc.insert("capabilities"@, self.capabilities);
        let doc = match self.workspace_folders {
            Some(folders) => doc.insert(
                "workspaceFolders"@,
                JsonView::Array(Seq::new(folders.len(), |i: int| folder_json(folders[i]))),
            ),
            None => doc,
        };
        match self.client_info {
            Some(info) => doc.insert("clientInfo"@, client_info_json(info)),
            None => doc,
        }
    }

    /// These parameters with the initialization option `key` set to `value`.
    pub open spec fn with_option(self, key: Seq<char>, value: JsonView) -> InitializeParamsView {
        InitializeParamsView {
            initialization_options: match self.initialization_options {
                Some(options) => Some(options.insert(key, value)),
                None => None,
            },
            ..self
        }
    }

    /// These parameters without the initialization option `key`.
    pub open spec fn without_option(self, key: Seq<char>) -> InitializeParamsView {
        InitializeParamsView {
            initialization_options: match self.initialization_options {
                Some(options) => Some(options.remove(key)),
                None => None,
            },
            ..self
        }
    }
}

impl Clone for WorkspaceFolder {
    fn clone(&self) -> (r: Self)
        ensures
            r.uri@ == self.uri@,
            r.name@ == self.name@,
    {
        WorkspaceFolder { uri: self.uri.clone(), name: self.name.clone() }
    }
}

/// A copy of an optional string.
fn clone_text(text: &Option<String>) -> (r: Option<String>)
    ensures
        text_view(r) == text_view(*text),
{
    match text {
        Some(t) => Some(t.clone()),
        None => None,
    }
}

/// A copy of a list of folders.
fn clone_folders(folders: &Vec<WorkspaceFolder>) -> (r: Vec<WorkspaceFolder>)
    ensures
        folders_view(r@) == folders_view(folders@),
{
    let mut copy: Vec<WorkspaceFolder> = Vec::new();
    let mut i: usize = 0;
    while i < folders.len()
        invariant
            i <= folders.len(),
            copy.len() == i,
            forall|j: int|
                0 <= j < i ==> copy@[j].uri@ == folders@[j].uri@ && copy@[j].name@
                    == folders@[j].name@,
        decreases folders.len() - i,
    {
        copy.push(folders[i].clone());
        i += 1;
    }
    assert(folders_view(copy@) =~= folders_view(folders@));
    copy
}

impl Clone for InitializeParams {
    fn clone(&self) -> (r: Self)
        ensures
            r@ == self@,
    {
        InitializeParams {
            process_id: self.process_id,
            client_info: match &self.client_info {
                Some(info) => Some(
                    ClientInfo { name: info.name.clone(), version: clone_text(&info.version) },
                ),
                None => None,
            },
            root_uri: clone_text(&self.root_uri),
            initialization_options: match &self.initialization_options {
                Some(options) => Some(options.clone()),
                None => None,
            },
            capabilities: self.capabilities.clone(),
            workspace_folders: match &self.workspace_folders {
                Some(folders) => Some(clone_folders(folders)),
                None => None,
            },
        }
    }
}

impl InitializeParams {
    /// The document that is sent as the parameters of the request.
    pub fn to_json(&self) -> (r: Json)
        ensures
            r@ == self@.to_json(),
    {
        let mut doc = Json::object();
        doc.insert(
            "processId",
            match self.process_id {
                Some(id) => Json::number(id as u64),
                None => Json::Null,
            },
        );
        doc.insert(
            "rootUri",
            match &self.root_uri {
                Some(uri) => Json::String(uri.clone()),
                None => Json::Null,
            },
        );
        match &self.initialization_options {
            Some(options) => {
                doc.insert("initializationOptions", options.clone());
            },
            None => {},
        }
        doc.insert("capabilities", self.capabilities.clone());
        match &self.workspace_folders {
            Some(folders) => {
                let mut items: Vec<Json> = Vec::new();
                let mut i: usize = 0;
                while i < folders.len()
                    invariant
                        i <= folders.len(),
                        items.len() == i,
                        forall|j: int|
                            0 <= j < i ==> items@[j]@ == folder_json(
                                #[trigger] folders_view(folders@)[j],
                            ),
                    decreases folders.len() - i,
                {
                    let mut item = Json::object();
                    item.insert("uri", Json::String(folders[i].uri.clone()));
                    item.insert("name", Json::String(folders[i].name.clone()));
                    items.push(item);
                    i += 1;
                }
                proof {
                    let listed = folders_view(folders@);
                    assert(items_view(items@) =~= Seq::new(
                        listed.len(),
                        |i: int| folder_json(listed[i]),
                    ));
                }
                doc.insert("workspaceFolders", Json::array(items));
            },
            None => {},
        }
        match &self.client_info {
            Some(info) => {
                let mut item = Json::object();
                item.insert("name", Json::String(info.name.clone()));
                match &info.version {
                    Some(version) => {
                        item.insert("version", Json::String(version.clone()));
                    },
                    None => {},
                }
                doc.insert("clientInfo", item);
            },
            None => {},
        }
        doc
    }
}

/// The object whose one member `enabled` is `value`.
pub open spec fn enabled(value: JsonView) -> JsonView {
    JsonView::empty_object().insert("enabled"@, value)
}

/// The initialization options that a builder starts with.
pub open spec fn default_options() -> JsonView {
    JsonView::empty_object().insert("enable"@, JsonView::Bool(true)).insert(
        "cache"@,
        JsonView::Null,
    ).insert("certificateStores"@, JsonView::Null).insert(
        "codeLens"@,
        JsonView::empty_object().insert("implementations"@, JsonView::Bool(true)).insert(
            "references"@,
            JsonView::Bool(true),
        ).insert("test"@, JsonView::Bool(true)),
    ).insert("config"@, JsonView::Null).insert("importMap"@, JsonView::Null).insert(
        "lint"@,
        JsonView::Bool(true),
    ).insert(
        "suggest"@,
        JsonView::empty_object().insert("autoImports"@, JsonView::Bool(true)).insert(
            "completeFunctionCalls"@,
            JsonView::Bool(false),
        ).insert("names"@, JsonView::Bool(true)).insert("paths"@, JsonView::Bool(true)).insert(
            "imports"@,
            JsonView::empty_object().insert("hosts"@, JsonView::empty_object()),
        ),
    ).insert(
        "testing"@,
        JsonView::empty_object().insert(
            "args"@,
            JsonView::Array(seq![JsonView::String("--allow-all"@)]),
        ).insert("enable"@, JsonView::Bool(true)),
    ).insert("tlsCertificate"@, JsonView::Null).insert(
        "unsafelyIgnoreCertificateErrors"@,
        JsonView::Null,
    ).insert("unstable"@, JsonView::Bool(false))
}

/// The capabilities that a builder starts with, named as the protocol names
/// them.
pub open spec fn default_capabilities() -> JsonView {
    JsonView::empty_object().insert(
        "textDocument"@,
        JsonView::empty_object().insert(
            "codeAction"@,
            JsonView::empty_object().insert(
                "codeActionLiteralSupport"@,
                JsonView::empty_object().insert(
                    "codeActionKind"@,
                    JsonView::empty_object().insert(
                        "valueSet"@,
                        JsonView::Array(
                            seq![JsonView::String("quickfix"@), JsonView::String("refactor"@)],
                        ),
                    ),
                ),
            ).insert("isPreferredSupport"@, JsonView::Bool(true)).insert(
                "dataSupport"@,
                JsonView::Bool(true),
            ).insert("disabledSupport"@, JsonView::Bool(true)).insert(
                "resolveSupport"@,
                JsonView::empty_object().insert(
                    "properties"@,
                    JsonView::Array(seq![JsonView::String("edit"@)]),
                ),
            ),
        ).insert(
            "completion"@,
            JsonView::empty_object().insert(
                "completionItem"@,
                JsonView::empty_object().insert("snippetSupport"@, JsonView::Bool(true)),
            ),
        ).insert(
            "foldingRange"@,
            JsonView::empty_object().insert("lineFoldingOnly"@, JsonView::Bool(true)),
        ).insert(
            "synchronization"@,
            JsonView::empty_object().insert("dynamicRegistration"@, JsonView::Bool(true)).insert(
                "willSave"@,
                JsonView::Bool(true),
            ).insert("willSaveWaitUntil"@, JsonView::Bool(true)).insert(
                "didSave"@,
                JsonView::Bool(true),
            ),
        ),
    ).insert(
        "workspace"@,
        JsonView::empty_object().insert("configuration"@, JsonView::Bool(true)).insert(
            "workspaceFolders"@,
            JsonView::Bool(true),
        ),
    ).insert(
        "experimental"@,
        JsonView::empty_object().insert("testingApi"@, JsonView::Bool(true)),
    )
}

/// The parameters that a builder starts with.
pub open spec fn default_params() -> InitializeParamsView {
    InitializeParamsView {
        process_id: None,
        client_info: Some(("test-harness"@, Some("1.0.0"@))),
        root_uri: None,
        initialization_options: Some(default_options()),
        capabilities: default_capabilities(),
        workspace_folders: None,
    }
}

/// The initialization option that turns every kind of inlay hint on.
pub open spec fn inlay_hints() -> JsonView {
    JsonView::empty_object().insert("parameterNames"@, enabled(JsonView::String("all"@))).insert(
        "parameterTypes"@,
        enabled(JsonView::Bool(true)),
    ).insert("variableTypes"@, enabled(JsonView::Bool(true))).insert(
        "propertyDeclarationTypes"@,
        enabled(JsonView::Bool(true)),
    ).insert("functionLikeReturnTypes"@, enabled(JsonView::Bool(true))).insert(
        "enumMemberValues"@,
        enabled(JsonView::Bool(true)),
    )
}

/// The object that names each host of `hosts` with its flag. Where a host
/// occurs twice, its last flag stands.
pub open spec fn hosts_json(hosts: Seq<(Seq<char>, bool)>) -> JsonView
    decreases hosts.len(),
{
    if hosts.len() == 0 {
        JsonView::empty_object()
    } else {
        hosts_json(hosts.drop_last()).insert(hosts.last().0, JsonView::Bool(hosts.last().1))
    }
}

/// The values of a list of hosts.
pub open spec fn hosts_view(hosts: Seq<(String, bool)>) -> Seq<(Seq<char>, bool)> {
    Seq::new(hosts.len(), |i: int| (hosts[i].0@, hosts[i].1))
}

/// The path to the hosts for which imports are suggested.
pub open spec fn hosts_path() -> Seq<Seq<char>> {
    seq!["suggest"@, "imports"@, "hosts"@]
}

impl InitializeParamsView {
    /// The hosts for which imports are suggested, where the initialization
    /// options name them.
    pub open spec fn hosts(self) -> Option<JsonView> {
        match self.initialization_options {
            Some(options) => options.at(hosts_path()),
            None => None,
        }
    }

    /// These parameters with the hosts for which imports are suggested
    /// replaced by `hosts`.
    pub open spec fn with_hosts(self, hosts: JsonView) -> InitializeParamsView {
        InitializeParamsView {
            initialization_options: match self.initialization_options {
                Some(options) => Some(options.replace_at(hosts_path(), hosts)),
                None => None,
            },
            ..self
        }
    }
}

/// The parameters that a builder starts with name the hosts for which
/// imports are suggested: none.
pub proof fn lemma_default_hosts()
    ensures
        default_params().hosts() == Some(JsonView::empty_object()),
{
    reveal_strlit("suggest");
    reveal_strlit("testing");
    reveal_strlit("tlsCertificate");
    reveal_strlit("unsafelyIgnoreCertificateErrors");
    reveal_strlit("unstable");
    reveal_strlit("imports");
    reveal_strlit("hosts");
    assert("suggest"@.len() == 7);
    assert("suggest"@[0] != "testing"@[0]);
    assert("tlsCertificate"@.len() == 14);
    assert("unsafelyIgnoreCertificateErrors"@.len() == 31);
    assert("unstable"@.len() == 8);
    let hosts = JsonView::empty_object();
    let imports = JsonView::empty_object().insert("hosts"@, hosts);
    let before_imports = JsonView::empty_object().insert("autoImports"@, JsonView::Bool(true)).insert(
        "completeFunctionCalls"@,
        JsonView::Bool(false),
    ).insert("names"@, JsonView::Bool(true)).insert("paths"@, JsonView::Bool(true));
    let suggest = before_imports.insert("imports"@, imports);
    let d7 = JsonView::empty_object().insert("enable"@, JsonView::Bool(true)).insert(
        "cache"@,
        JsonView::Null,
    ).insert("certificateStores"@, JsonView::Null).insert(
        "codeLens"@,
        JsonView::empty_object().insert("implementations"@, JsonView::Bool(true)).insert(
            "references"@,
            JsonView::Bool(true),
        ).insert("test"@, JsonView::Bool(true)),
    ).insert("config"@, JsonView::Null).insert("importMap"@, JsonView::Null).insert(
        "lint"@,
        JsonView::Bool(true),
    );
    let testing = JsonView::empty_object().insert(
        "args"@,
        JsonView::Array(seq![JsonView::String("--allow-all"@)]),
    ).insert("enable"@, JsonView::Bool(true));
    let d8 = d7.insert("suggest"@, suggest);
    let d9 = d8.insert("testing"@, testing);
    let d10 = d9.insert("tlsCertificate"@, JsonView::Null);
    let d11 = d10.insert("unsafelyIgnoreCertificateErrors"@, JsonView::Null);
    let d12 = d11.insert("unstable"@, JsonView::Bool(false));
    assert(d12 == default_options());
    lemma_insert_get(d7, "suggest"@, suggest, "suggest"@);
    lemma_insert_get(d8, "testing"@, testing, "suggest"@);
    lemma_insert_get(d9, "tlsCertificate"@, JsonView::Null, "suggest"@);
    lemma_insert_get(d10, "unsafelyIgnoreCertificateErrors"@, JsonView::Null, "suggest"@);
    lemma_insert_get(d11, "unstable"@, JsonView::Bool(false), "suggest"@);
    assert(d12.get("suggest"@) == Some(suggest));
    lemma_insert_get(before_imports, "imports"@, imports, "imports"@);
    lemma_insert_get(JsonView::empty_object(), "hosts"@, hosts, "hosts"@);
    let path = hosts_path();
    assert(path.skip(1) =~= seq!["imports"@, "hosts"@]);
    assert(path.skip(1).skip(1) =~= seq!["hosts"@]);
    assert(path.skip(1).skip(1).skip(1) =~= Seq::<Seq<char>>::empty());
    assert(hosts.at(path.skip(1).skip(1).skip(1)) == Some(hosts));
    assert(imports.at(path.skip(1).skip(1)) == Some(hosts));
    assert(suggest.at(path.skip(1)) == Some(hosts));
}

/// Setting or removing an initialization option of another name than
/// `suggest` leaves the hosts for which imports are suggested as they were.
pub proof fn lemma_option_keeps_hosts(params: InitializeParamsView, key: Seq<char>, value: JsonView)
    requires
        key != "suggest"@,
        params.initialization_options matches Some(options) && options is Object,
    ensures
        params.with_option(key, value).hosts() == params.hosts(),
        params.without_option(key).hosts() == params.hosts(),
{
    let options = params.initialization_options->0;
    lemma_insert_get(options, key, value, "suggest"@);
    lemma_remove_get(options, key, "suggest"@);
}

/// Where the initialization options name the hosts for which imports are
/// suggested, replacing them makes the replacement the hosts that are named,
/// and leaves every option of another name than `suggest` as it was.
pub proof fn lemma_with_hosts(params: InitializeParamsView, hosts: JsonView, other: Seq<char>)
    requires
        params.hosts() is Some,
        other != "suggest"@,
    ensures
        params.with_hosts(hosts).hosts() == Some(hosts),
        params.with_hosts(hosts).initialization_options->0.get(other)
            == params.initialization_options->0.get(other),
{
    let options = params.initialization_options->0;
    lemma_replace_at(options, hosts_path(), hosts);
    lemma_replace_at_other(options, hosts_path(), hosts, other);
}

/// The object whose one member `enabled` is `value`.
fn enabled_json(value: Json) -> (r: Json)
    ensures
        r@ == enabled(value@),
{
    let mut doc = Json::object();
    doc.insert("enabled", value);
    doc
}

/// The array of the string documents of `first` and, where there is one, of
/// `second`.
fn string_array(first: &str, second: Option<&str>) -> (r: Json)
    ensures
        r@ == JsonView::Array(
            match second {
                Some(s) => seq![JsonView::String(first@), JsonView::String(s@)],
                None => seq![JsonView::String(first@)],
            },
        ),
{
    let mut items: Vec<Json> = Vec::new();
    items.push(Json::string(first));
    match second {
        Some(s) => {
            items.push(Json::string(s));
            assert(items_view(items@) =~= seq![JsonView::String(first@), JsonView::String(s@)]);
        },
        None => {
            assert(items_view(items@) =~= seq![JsonView::String(first@)]);
        },
    }
    Json::array(items)
}

/// Builds the initialization options that a builder starts with.
fn build_default_options() -> (r: Json)
    ensures
        r@ == default_options(),
{
    let mut code_lens = Json::object();
    code_lens.insert("implementations", Json::Bool(true));
    code_lens.insert("references", Json::Bool(true));
    code_lens.insert("test", Json::Bool(true));
    let mut imports = Json::object();
    imports.insert("hosts", Json::object());
    let mut suggest = Json::object();
    suggest.insert("autoImports", Json::Bool(true));
    suggest.insert("completeFunctionCalls", Json::Bool(false));
    suggest.insert("names", Json::Bool(true));
    suggest.insert("paths", Json::Bool(true));
    suggest.insert("imports", imports);
    let mut testing = Json::object();
    testing.insert("args", string_array("--allow-all", None));
    testing.insert("enable", Json::Bool(true));
    let mut options = Json::object();
    options.insert("enable", Json::Bool(true));
    options.insert("cache", Json::Null);
    options.insert("certificateStores", Json::Null);
    options.insert("codeLens", code_lens);
    options.insert("config", Json::Null);
    options.insert("importMap", Json::Null);
    options.insert("lint", Json::Bool(true));
    options.insert("suggest", suggest);
    options.insert("testing", testing);
    options.insert("tlsCertificate", Json::Null);
    options.insert("unsafelyIgnoreCertificateErrors", Json::Null);
    options.insert("unstable", Json::Bool(false));
    options
}

/// Builds the capabilities that a builder starts with.
fn build_default_capabilities() -> (r: Json)
    ensures
        r@ == default_capabilities(),
{
    let mut kind = Json::object();
    kind.insert("valueSet", string_array("quickfix", Some("refactor")));
    let mut literal_support = Json::object();
    literal_support.insert("codeActionKind", kind);
    let mut resolve_support = Json::object();
    resolve_support.insert("properties", string_array("edit", None));
    let mut code_action = Json::object();
    code_action.insert("codeActionLiteralSupport", literal_support);
    code_action.insert("isPreferredSupport", Json::Bool(true));
    code_action.insert("dataSupport", Json::Bool(true));
    code_action.insert("disabledSupport", Json::Bool(true));
    code_action.insert("resolveSupport", resolve_support);
    let mut completion_item = Json::object();
    completion_item.insert("snippetSupport", Json::Bool(true));
    let mut completion = Json::object();
    completion.insert("completionItem", completion_item);
    let mut folding_range = Json::object();
    folding_range.insert("lineFoldingOnly", Json::Bool(true));
    let mut synchronization = Json::object();
    synchronization.insert("dynamicRegistration", Json::Bool(true));
    synchronization.insert("willSave", Json::Bool(true));
    synchronization.insert("willSaveWaitUntil", Json::Bool(true));
    synchronization.insert("didSave", Json::Bool(true));
    let mut text_document = Json::object();
    text_document.insert("codeAction", code_action);
    text_document.insert("completion", completion);
    text_document.insert("foldingRange", folding_range);
    text_document.insert("synchronization", synchronization);
    let mut workspace = Json::object();
    workspace.insert("configuration", Json::Bool(true));
    workspace.insert("workspaceFolders", Json::Bool(true));
    let mut experimental = Json::object();
    experimental.insert("testingApi", Json::Bool(true));
    let mut capabilities = Json::object();
    capabilities.insert("textDocument", text_document);
    capabilities.insert("workspace", workspace);
    capabilities.insert("experimental", experimental);
    capabilities
}

/// Builds the parameters of the `initialize` request, starting from those
/// that a test normally sends.
pub struct InitializeParamsBuilder {
    params: InitializeParams,
}

impl View for InitializeParamsBuilder {
    type V = InitializeParamsView;

    closed spec fn view(&self) -> InitializeParamsView {
        self.params@
    }
}

impl InitializeParamsBuilder {
    /// The capabilities as they are held, for what an action is asked of them.
    pub closed spec fn capabilities(&self) -> Json {
        self.params.capabilities
    }

    /// The capabilities that are held are those of the parameters.
    pub proof fn lemma_capabilities(&self)
        ensures
            self.capabilities()@ == self@.capabilities,
    {
    }

    /// The builder of the parameters that a test normally sends.
    pub fn new() -> (r: InitializeParamsBuilder)
        ensures
            r@ == default_params(),
    {
        InitializeParamsBuilder {
            params: InitializeParams {
                process_id: None,
                client_info: Some(
                    ClientInfo {
                        name: "test-harness".to_owned(),
                        version: Some("1.0.0".to_owned()),
                    },
                ),
                root_uri: None,
                initialization_options: Some(build_default_options()),
                capabilities: build_default_capabilities(),
                workspace_folders: None,
            },
        }
    }

    /// Sets the initialization option `key` to `value`.
    fn set_option(&mut self, key: &str, value: Json)
        ensures
            final(self)@ == old(self)@.with_option(key@, value@),
    {
        match &mut self.params.initialization_options {
            Some(options) => {
                options.insert(key, value);
            },
            None => {},
        }
    }

    /// Takes the initialization option `key` out.
    fn remove_option(&mut self, key: &str)
        ensures
            final(self)@ == old(self)@.without_option(key@),
    {
        match &mut self.params.initialization_options {
            Some(options) => {
                options.remove(key);
            },
            None => {},
        }
    }

    /// Sets the root of the workspace, or unsets it.
    pub fn set_maybe_root_uri(&mut self, value: Option<String>) -> (r: &mut Self)
        ensures
            (*r)@ == (InitializeParamsView { root_uri: text_view(value), ..old(self)@ }),
            *final(self) == *final(r),
    {
        self.params.root_uri = value;
        self
    }

    /// Sets the root of the workspace.
    pub fn set_root_uri(&mut self, value: String) -> (r: &mut Self)
        ensures
            (*r)@ == (InitializeParamsView { root_uri: Some(value@), ..old(self)@ }),
            *final(self) == *final(r),
    {
        self.set_maybe_root_uri(Some(value))
    }

    /// Sets the folders of the workspace.
    pub fn set_workspace_folders(&mut self, folders: Vec<WorkspaceFolder>) -> (r: &mut Self)
        ensures
            (*r)@ == (InitializeParamsView {
                workspace_folders: Some(folders_view(folders@)),
                ..old(self)@
            }),
            *final(self) == *final(r),
    {
        self.params.workspace_folders = Some(folders);
        self
    }

    /// Turns every kind of inlay hint on.
    pub fn enable_inlay_hints(&mut self) -> (r: &mut Self)
        ensures
            (*r)@ == old(self)@.with_option("inlayHints"@, inlay_hints()),
            *final(self) == *final(r),
    {
        let mut hints = Json::object();
        hints.insert("parameterNames", enabled_json(Json::string("all")));
        hints.insert("parameterTypes", enabled_json(Json::Bool(true)));
        hints.insert("variableTypes", enabled_json(Json::Bool(true)));
        hints.insert("propertyDeclarationTypes", enabled_json(Json::Bool(true)));
        hints.insert("functionLikeReturnTypes", enabled_json(Json::Bool(true)));
        hints.insert("enumMemberValues", enabled_json(Json::Bool(true)));
        self.set_option("inlayHints", hints);
        self
    }

    /// Tests whether the capabilities hold an object named `experimental`,
    /// as `disable_testing_api` needs it.
    pub fn has_experimental(&self) -> (r: bool)
        ensures
            r == (self@.capabilities.get("experimental"@) matches Some(experimental)
                && experimental is Object),
    {
        match self.params.capabilities.get("experimental") {
            Some(experimental) => experimental.is_object(),
            None => false,
        }
    }

    /// Says that the client has no testing API, and takes the testing options
    /// out. The capabilities must hold an object named `experimental`:
    /// `has_experimental` tests that.
    pub fn disable_testing_api(&mut self) -> (r: &mut Self)
        requires
            old(self)@.capabilities.get("experimental"@) matches Some(experimental)
                && experimental is Object,
        ensures
            (*r)@ == (InitializeParamsView {
                capabilities: old(self)@.capabilities.insert(
                    "experimental"@,
                    old(self)@.capabilities.get("experimental"@)->0.insert(
                        "testingApi"@,
                        JsonView::Bool(false),
                    ),
                ),
                ..old(self)@
            }).without_option("testing"@),
            *final(self) == *final(r),
    {
        match self.params.capabilities.get("experimental") {
            Some(found) => {
                let mut experimental = found;
                experimental.insert("testingApi", Json::Bool(false));
                self.params.capabilities.insert("experimental", experimental);
            },
            None => {},
        }
        self.remove_option("testing");
        self
    }

    /// Sets where the server keeps its cache.
    pub fn set_cache(&mut self, value: &str) -> (r: &mut Self)
        ensures
            (*r)@ == old(self)@.with_option("cache"@, JsonView::String(value@)),
            *final(self) == *final(r),
    {
        self.set_option("cache", Json::string(value));
        self
    }

    /// Sets the code lens options, or takes them out.
    pub fn set_code_lens(&mut self, value: Option<Json>) -> (r: &mut Self)
        ensures
            (*r)@ == match value {
                Some(lens) => old(self)@.with_option("codeLens"@, lens@),
                None => old(self)@.without_option("codeLens"@),
            },
            *final(self) == *final(r),
    {
        match value {
            Some(lens) => {
                self.set_option("codeLens", lens);
            },
            None => {
                self.remove_option("codeLens");
            },
        }
        self
    }

    /// Sets the configuration file.
    pub fn set_config(&mut self, value: &str) -> (r: &mut Self)
        ensures
            (*r)@ == old(self)@.with_option("config"@, JsonView::String(value@)),
            *final(self) == *final(r),
    {
        self.set_option("config", Json::string(value));
        self
    }

    /// Sets the paths for which the server is enabled.
    pub fn set_enable_paths(&mut self, value: Vec<String>) -> (r: &mut Self)
        ensures
            (*r)@ == old(self)@.with_option(
                "enablePaths"@,
                JsonView::Array(Seq::new(value@.len(), |i: int| JsonView::String(value@[i]@))),
            ),
            *final(self) == *final(r),
    {
        self.set_option("enablePaths", Json::strings(&value));
        self
    }

    /// Enables the server, or disables it.
    pub fn set_deno_enable(&mut self, value: bool) -> (r: &mut Self)
        ensures
            (*r)@ == old(self)@.with_option("enable"@, JsonView::Bool(value)),
            *final(self) == *final(r),
    {
        self.set_option("enable", Json::Bool(value));
        self
    }

    /// Sets the import map.
    pub fn set_import_map(&mut self, value: &str) -> (r: &mut Self)
        ensures
            (*r)@ == old(self)@.with_option("importMap"@, JsonView::String(value@)),
            *final(self) == *final(r),
    {
        self.set_option("importMap", Json::string(value));
        self
    }

    /// Sets the certificate that the server trusts.
    pub fn set_tls_certificate(&mut self, value: &str) -> (r: &mut Self)
        ensures
            (*r)@ == old(self)@.with_option("tlsCertificate"@, JsonView::String(value@)),
            *final(self) == *final(r),
    {
        self.set_option("tlsCertificate", Json::string(value));
        self
    }

    /// Allows unstable features, or forbids them.
    pub fn set_unstable(&mut self, value: bool) -> (r: &mut Self)
        ensures
            (*r)@ == old(self)@.with_option("unstable"@, JsonView::Bool(value)),
            *final(self) == *final(r),
    {
        self.set_option("unstable", Json::Bool(value));
        self
    }

    /// Has imports suggested from the test server alone.
    pub fn add_test_server_suggestions(&mut self) -> (r: &mut Self)
        ensures
            (*r)@ == old(self)@.with_hosts(hosts_json(seq![("http://localhost:4545/"@, true)])),
            *final(self) == *final(r),
    {
        let mut hosts: Vec<(String, bool)> = Vec::new();
        hosts.push(("http://localhost:4545/".to_owned(), true));
        assert(hosts_view(hosts@) =~= seq![("http://localhost:4545/"@, true)]);
        self.set_suggest_imports_hosts(hosts)
    }

    /// Has imports suggested from `values` alone: each host with its flag.
    pub fn set_suggest_imports_hosts(&mut self, values: Vec<(String, bool)>) -> (r: &mut Self)
        ensures
            (*r)@ == old(self)@.with_hosts(hosts_json(hosts_view(values@))),
            *final(self) == *final(r),
    {
        let mut hosts = Json::object();
        let mut i: usize = 0;
        while i < values.len()
            invariant
                i <= values.len(),
                hosts@ == hosts_json(hosts_view(values@).take(i as int)),
            decreases values.len() - i,
        {
            proof {
                let all = hosts_view(values@);
                assert(all.take(i as int + 1).drop_last() =~= all.take(i as int));
            }
            hosts.insert(values[i].0.as_str(), Json::Bool(values[i].1));
            i += 1;
        }
        proof {
            assert(hosts_view(values@).take(i as int) =~= hosts_view(values@));
        }
        let mut path: Vec<String> = Vec::new();
        path.push("suggest".to_owned());
        path.push("imports".to_owned());
        path.push("hosts".to_owned());
        proof {
            assert(path_view(path@) =~= hosts_path());
            assert(path_view(path@).skip(0) =~= path_view(path@));
        }
        match &mut self.params.initialization_options {
            Some(options) => {
                let replaced = options.replace_at(&path, 0, hosts);
                *options = replaced;
            },
            None => {},
        }
        self
    }

    /// Has `action` change the capabilities.
    pub fn with_capabilities<F: FnOnce(Json) -> Json>(&mut self, action: F) -> (r: &mut Self)
        requires
            call_requires(action, (old(self).capabilities(),)),
        ensures
            call_ensures(action, (old(self).capabilities(),), r.capabilities()),
            (*r)@ == (InitializeParamsView { capabilities: r.capabilities()@, ..old(self)@ }),
            *final(self) == *final(r),
    {
        let mut capabilities = Json::Null;
        core::mem::swap(&mut self.params.capabilities, &mut capabilities);
        self.params.capabilities = action(capabilities);
        self
    }

    /// The parameters as they now stand.
    pub fn build(&self) -> (r: InitializeParams)
        ensures
            r@ == self@,
    {
        self.params.clone()
    }
}

} // verus!
