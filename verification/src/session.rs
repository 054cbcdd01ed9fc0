//! The conversation with a language server: what is sent, in which order, and what follows from
//! what comes in.
//!
//! 1. Send the `initialize` request
//! 2. Receive the result with the server's capabilities
//! 3. Send the `initialized` notification and `workspace/didChangeConfiguration`
//! 4. Normal operation: requests, notifications, responses
//! 5. Shutdown: send the `shutdown` request, then the `exit` notification

use crate::capabilities;
use crate::capabilities::{Flags, ServerCapabilities, ServerCapabilityFlags};
use crate::concurrent;
use crate::handlers;
use crate::json;
use crate::json::{Jn, Json, Jv};
use crate::jsonrpc;
use crate::jsonrpc::{Incoming, IncomingError, IncomingFault, IncomingMessage, RequestIdGenerator};
use crate::text;
use crate::transport;
use crate::transport::{ContentLengthDecoder, TransportError, TransportFault};
use crate::uri;
use dashmap::DashMap;
use vstd::prelude::*;

verus! {

/// An outgoing message to send to the LSP server.
#[derive(Debug, PartialEq, Eq)]
pub enum OutgoingMessage {
    /// Goes into the init queue (sent before the normal messages).
    Init(String),
    /// Goes into the normal queue (sent after initialization).
    Normal(String),
}

/// The mathematical value of an [`OutgoingMessage`].
#[verifier::ext_equal]
pub enum Outgoing {
    Init(Seq<char>),
    Normal(Seq<char>),
}

impl View for OutgoingMessage {
    type V = Outgoing;

    open spec fn view(&self) -> Outgoing {
        match *self {
            OutgoingMessage::Init(s) => Outgoing::Init(s@),
            OutgoingMessage::Normal(s) => Outgoing::Normal(s@),
        }
    }
}

// ---------------------------------------------------------------------------
// Starting a server
// ---------------------------------------------------------------------------

/// Why a server cannot be started.
#[derive(Debug, PartialEq, Eq)]
pub enum LaunchError {
    /// The server's config has no array of the name `command`.
    MissingCommand,
    /// The command has no first item, or it is no string.
    ProgramNotString,
}

impl LaunchError {
    /// The message of the error.
    pub fn to_string(&self) -> (r: String)
        ensures
            r@ == (match *self {
                LaunchError::MissingCommand => "server config missing 'command' array"@,
                LaunchError::ProgramNotString => "command[0] must be string"@,
            }),
    {
        match self {
            LaunchError::MissingCommand => String::from_str("server config missing 'command' array"),
            LaunchError::ProgramNotString => String::from_str("command[0] must be string"),
        }
    }
}

/// The program that a server's config names, and its arguments: the further strings.
pub open spec fn command_of(server_info: Jv) -> Result<(Seq<char>, Seq<Seq<char>>), LaunchError> {
    match handlers::member_or_null(server_info, "command"@) {
        Jv::Array(a) => if a.len() > 0 && json::as_str(a[0]) is Some {
            Ok((json::as_str(a[0])->0, capabilities::strings_of(a.skip(1))))
        } else {
            Err(LaunchError::ProgramNotString)
        },
        _ => Err(LaunchError::MissingCommand),
    }
}

/// The program that a server's config names, and its arguments.
pub fn launch_command(server_info: &Json) -> (r: Result<(String, Vec<String>), LaunchError>)
    ensures
        match command_of(server_info@) {
            Ok((program, args)) => r is Ok && (r->Ok_0).0@ == program && text::texts(
                (r->Ok_0).1@,
            ) == args,
            Err(e) => r == Err::<(String, Vec<String>), LaunchError>(e),
        },
{
    let command = match server_info.get("command") {
        Some(v) => match v.as_array() {
            Some(a) => a,
            None => return Err(LaunchError::MissingCommand),
        },
        None => return Err(LaunchError::MissingCommand),
    };
    let ghost all = json::models(command@);
    if command.len() == 0 {
        return Err(LaunchError::ProgramNotString);
    }
    assert(all[0] == command@[0]@);
    let program = match command[0].as_str() {
        Some(s) => s.to_string(),
        None => return Err(LaunchError::ProgramNotString),
    };
    let mut args: Vec<String> = Vec::new();
    let mut i: usize = 1;
    assert(all.skip(1).take(0) =~= Seq::<Jv>::empty());
    assert(text::texts(args@) =~= Seq::<Seq<char>>::empty());
    while i < command.len()
        invariant
            all == json::models(command@),
            1 <= i <= command@.len(),
            text::texts(args@) == capabilities::strings_of(all.skip(1).take(i - 1)),
        decreases command@.len() - i,
    {
        let ghost before = text::texts(args@);
        assert(all.skip(1).take(i as int).drop_last() =~= all.skip(1).take(i - 1));
        assert(all.skip(1).take(i as int).last() == command@[i as int]@);
        match command[i].as_str() {
            Some(s) => {
                args.push(s.to_string());
                assert(text::texts(args@) =~= before.push(s@));
            },
            None => {},
        }
        i = i + 1;
    }
    assert(all.skip(1).take(i - 1) =~= all.skip(1));
    Ok((program, args))
}

// ---------------------------------------------------------------------------
// Parameters
// ---------------------------------------------------------------------------

/// A member of a config, or an empty object.
pub open spec fn member_or_empty(v: Jv, key: Seq<char>) -> Jv {
    match json::member(v, key) {
        Some(m) => m,
        None => handlers::obj(seq![]),
    }
}

/// The capabilities that a server gets: the client's, with the config's merged into them.
pub open spec fn announced(server_info: Jv) -> Jv {
    capabilities::overridden(
        capabilities::client_json(true),
        handlers::member_or_null(server_info, "capabilities"@),
    )
}

/// The parameters of the `initialize` request; `root` is the project's path made absolute.
pub open spec fn initialize_params(
    server_info: Jv,
    project_path: Seq<char>,
    root: Seq<char>,
    process_id: u32,
    workspace_folders: Jv,
) -> Jv {
    handlers::obj(
        seq![
            ("processId"@, json::int_number(process_id as int)),
            ("rootPath"@, Jv::Str(project_path)),
            ("rootUri"@, Jv::Str(uri::uri_of(root))),
            (
                "clientInfo"@,
                handlers::obj(
                    seq![("name"@, Jv::Str("emacs"@)), ("version"@, Jv::Str("lsp-bridge"@))],
                ),
            ),
            ("capabilities"@, announced(server_info)),
            ("initializationOptions"@, member_or_empty(server_info, "initializationOptions"@)),
            ("workspaceFolders"@, workspace_folders),
        ],
    )
}

/// A document: its URI.
pub open spec fn document(uri: Seq<char>) -> Jv {
    handlers::obj(seq![("uri"@, Jv::Str(uri))])
}

/// A version of a document.
pub open spec fn versioned_document(uri: Seq<char>, version: i32) -> Jv {
    handlers::obj(seq![("uri"@, Jv::Str(uri)), ("version"@, json::int_number(version as int))])
}

/// The parameters of `textDocument/didOpen`.
pub open spec fn did_open_params(
    uri: Seq<char>,
    language_id: Seq<char>,
    version: i32,
    content: Seq<char>,
) -> Jv {
    let opened = handlers::obj(
        seq![
            ("uri"@, Jv::Str(uri)),
            ("languageId"@, Jv::Str(language_id)),
            ("version"@, json::int_number(version as int)),
            ("text"@, Jv::Str(content)),
        ],
    );
    handlers::obj(seq![("textDocument"@, opened)])
}

/// The parameters of `textDocument/didClose`.
pub open spec fn did_close_params(uri: Seq<char>) -> Jv {
    handlers::obj(seq![("textDocument"@, document(uri))])
}

/// The parameters of `textDocument/didChange` with one change.
pub open spec fn did_change_params(uri: Seq<char>, version: i32, change: Jv) -> Jv {
    handlers::obj(
        seq![
            ("textDocument"@, versioned_document(uri, version)),
            ("contentChanges"@, Jv::Array(seq![change])),
        ],
    )
}

/// A range of a document replaced by a text.
pub open spec fn range_change(start: Jv, end: Jv, length: u64, content: Seq<char>) -> Jv {
    handlers::obj(
        seq![
            ("range"@, handlers::obj(seq![("start"@, start), ("end"@, end)])),
            ("rangeLength"@, Jv::Number(Jn::PosInt(length))),
            ("text"@, Jv::Str(content)),
        ],
    )
}

/// A whole document replaced by a text.
pub open spec fn full_change(content: Seq<char>) -> Jv {
    handlers::obj(seq![("text"@, Jv::Str(content))])
}

/// The parameters of `textDocument/didSave`.
pub open spec fn did_save_params(uri: Seq<char>, content: Option<Seq<char>>) -> Jv {
    match content {
        Some(s) => handlers::obj(seq![("textDocument"@, document(uri)), ("text"@, Jv::Str(s))]),
        None => handlers::obj(seq![("textDocument"@, document(uri))]),
    }
}

// ---------------------------------------------------------------------------
// The state of a conversation
// ---------------------------------------------------------------------------

/// The text of a notification.
pub open spec fn notification_text(method: Seq<char>, params: Jv) -> Seq<char> {
    json::json_members_text(jsonrpc::notification_members(method, params))
}

/// The text of a request.
pub open spec fn request_text(id: u64, method: Seq<char>, params: Jv) -> Seq<char> {
    json::json_members_text(jsonrpc::request_members(id, method, params))
}

/// The text of a response.
pub open spec fn response_text(id: u64, result: Jv) -> Seq<char> {
    json::json_members_text(jsonrpc::response_members(id, result))
}

/// What follows from a message of the server.
#[derive(Debug, PartialEq, Eq)]
pub enum ServerAction {
    /// Send a message to the server.
    Send(OutgoingMessage),
    /// The server is initialized: normal messages can flow.
    Initialized,
    /// Hand the result to whoever awaits the request.
    Resolve { id: u64, result: Json },
    /// Hand on a notification of the server.
    Notify { method: String, params: Json },
    /// Hand on a request of the server.
    ServerRequest { id: u64, method: String, params: Json },
}

/// The mathematical value of a [`ServerAction`].
#[verifier::ext_equal]
pub enum Action {
    Send(Outgoing),
    Initialized,
    Resolve { id: u64, result: Jv },
    Notify { method: Seq<char>, params: Jv },
    ServerRequest { id: u64, method: Seq<char>, params: Jv },
}

impl View for ServerAction {
    type V = Action;

    open spec fn view(&self) -> Action {
        match *self {
            ServerAction::Send(m) => Action::Send(m@),
            ServerAction::Initialized => Action::Initialized,
            ServerAction::Resolve { id, result } => Action::Resolve { id, result: result@ },
            ServerAction::Notify { method, params } => Action::Notify {
                method: method@,
                params: params@,
            },
            ServerAction::ServerRequest { id, method, params } => Action::ServerRequest {
                id,
                method: method@,
                params: params@,
            },
        }
    }
}

/// The mathematical values of the actions.
pub open spec fn actions(v: Seq<ServerAction>) -> Seq<Action> {
    Seq::new(v.len(), |i: int| v[i]@)
}

/// A conversation with a language server.
pub struct LspServer {
    pub server_name: String,
    pub project_path: String,
    pub server_info: Json,
    /// Extracted capability flags for quick checks.
    pub capability_flags: ServerCapabilityFlags,
    /// Server capabilities from the initialize response.
    pub server_capabilities: Option<ServerCapabilities>,
    /// Ids of the requests that await responses.
    pending: DashMap<u64, ()>,
    /// Request ID generator.
    id_gen: RequestIdGenerator,
    /// The initialize request ID (to identify the init response).
    initialize_id: u64,
}

/// The mathematical value of an [`LspServer`].
pub struct Conversation {
    pub name: Seq<char>,
    pub project_path: Seq<char>,
    pub info: Jv,
    pub flags: Flags,
    pub caps: Option<capabilities::Caps>,
    pub pending: Set<u64>,
    pub next_id: u64,
    pub initialize_id: u64,
}

impl View for LspServer {
    type V = Conversation;

    closed spec fn view(&self) -> Conversation {
        Conversation {
            name: self.server_name@,
            project_path: self.project_path@,
            info: self.server_info@,
            flags: self.capability_flags@,
            caps: match self.server_capabilities {
                Some(c) => Some(c@),
                None => None,
            },
            pending: concurrent::ids(self.pending),
            next_id: self.id_gen@,
            initialize_id: self.initialize_id,
        }
    }
}

/// The id behind an id; behind the largest comes zero.
pub open spec fn id_after(id: u64) -> u64 {
    if id == u64::MAX {
        0
    } else {
        (id + 1) as u64
    }
}

/// The answer that a request of the server gets without further ado.
pub open spec fn automatic_answer(method: Seq<char>, params: Jv) -> Option<Jv> {
    if method == "workspace/configuration"@ {
        Some(
            Jv::Array(
                Seq::new(
                    match json::member(params, "items"@) {
                        Some(Jv::Array(items)) => items.len(),
                        _ => 1,
                    },
                    |i: int| handlers::obj(seq![]),
                ),
            ),
        )
    } else if method == "window/workDoneProgress/create"@ {
        Some(Jv::Null)
    } else if method == "client/registerCapability"@ {
        Some(Jv::Null)
    } else if method == "workspace/applyEdit"@ {
        Some(handlers::obj(seq![("applied"@, Jv::Bool(true))]))
    } else if method == "workspace/diagnostic/refresh"@ {
        Some(Jv::Null)
    } else {
        None
    }
}

/// The messages that follow the initialize result: `initialized`, and the config's settings.
pub open spec fn after_initialize(info: Jv) -> Seq<Action> {
    let settings = handlers::obj(seq![("settings"@, member_or_empty(info, "settings"@))]);
    seq![
        Action::Send(Outgoing::Init(notification_text("initialized"@, handlers::obj(seq![])))),
        Action::Send(
            Outgoing::Init(notification_text("workspace/didChangeConfiguration"@, settings)),
        ),
        Action::Initialized,
    ]
}

/// The conversation once the initialize result is there.
pub open spec fn with_result(c: Conversation, result: Jv) -> Conversation {
    match capabilities::server_caps(result) {
        Some(caps) => Conversation { caps: Some(caps), flags: capabilities::flags_of(caps), ..c },
        None => c,
    }
}

/// The conversation without a pending request.
pub open spec fn without_pending(c: Conversation, id: u64) -> Conversation {
    Conversation { pending: c.pending.remove(id), ..c }
}

/// What an error response hands on: the code and the message.
pub open spec fn error_result(error: jsonrpc::RpcError) -> Jv {
    handlers::obj(seq![("error"@, jsonrpc::error_json(error.code, error.message))])
}

/// What follows from a message, and the conversation after it.
pub open spec fn handled(c: Conversation, msg: Incoming) -> (Seq<Action>, Conversation) {
    match msg {
        Incoming::Response { id, result } => if id == c.initialize_id {
            (after_initialize(c.info), with_result(c, result))
        } else if c.pending.contains(id) {
            (seq![Action::Resolve { id, result }], without_pending(c, id))
        } else {
            (seq![], c)
        },
        Incoming::ErrorResponse { id, error } => if c.pending.contains(id) {
            (
                seq![Action::Resolve { id, result: error_result(error) }],
                without_pending(c, id),
            )
        } else {
            (seq![], c)
        },
        Incoming::Notification { method, params } => (
            seq![Action::Notify { method, params }],
            c,
        ),
        Incoming::Request { id, method, params } => {
            let handed = Action::ServerRequest { id, method, params };
            match automatic_answer(method, params) {
                Some(result) => (
                    seq![Action::Send(Outgoing::Normal(response_text(id, result))), handed],
                    c,
                ),
                None => (seq![handed], c),
            }
        },
    }
}

fn get_or_empty(v: &Json, key: &str) -> (r: Json)
    ensures
        r@ == member_or_empty(v@, key@),
{
    match v.get(key) {
        Some(m) => m.clone(),
        None => handlers::object0(),
    }
}

fn document_value(uri: &str) -> (r: Json)
    ensures
        r@ == document(uri@),
{
    handlers::object1("uri", Json::str(uri))
}

fn versioned_document_value(uri: &str, version: i32) -> (r: Json)
    ensures
        r@ == versioned_document(uri@, version),
{
    handlers::object2("uri", Json::str(uri), "version", Json::integer(version as i64))
}

fn change_message(uri: &str, version: i32, change: Json) -> (r: OutgoingMessage)
    ensures
        r@ == Outgoing::Normal(
            notification_text(
                "textDocument/didChange"@,
                did_change_params(uri@, version, change@),
            ),
        ),
{
    let params = handlers::object2(
        "textDocument",
        versioned_document_value(uri, version),
        "contentChanges",
        Json::array(handlers::args1(change)),
    );
    OutgoingMessage::Normal(jsonrpc::build_notification("textDocument/didChange", params))
}

fn empty_objects(n: usize) -> (r: Json)
    ensures
        r@ == Jv::Array(Seq::new(n as nat, |i: int| handlers::obj(seq![]))),
{
    let mut items: Vec<Json> = Vec::new();
    let mut i: usize = 0;
    while i < n
        invariant
            i <= n,
            items@.len() == i,
            forall|j: int| 0 <= j < i ==> (#[trigger] items@[j])@ == handlers::obj(seq![]),
        decreases n - i,
    {
        items.push(handlers::object0());
        i = i + 1;
    }
    assert(json::models(items@) =~= Seq::new(n as nat, |i: int| handlers::obj(seq![])));
    Json::array(items)
}

fn answer(method: &str, params: &Json) -> (r: Option<Json>)
    ensures
        match automatic_answer(method@, params@) {
            Some(v) => r is Some && r->0@ == v,
            None => r is None,
        },
{
    if text::str_eq(method, "workspace/configuration") {
        let n: usize = match params.get("items") {
            Some(v) => match v.as_array() {
                Some(items) => {
                    assert(json::models(items@).len() == items@.len());
                    items.len()
                },
                None => 1,
            },
            None => 1,
        };
        Some(empty_objects(n))
    } else if text::str_eq(method, "window/workDoneProgress/create") {
        Some(Json::Null)
    } else if text::str_eq(method, "client/registerCapability") {
        Some(Json::Null)
    } else if text::str_eq(method, "workspace/applyEdit") {
        Some(handlers::object1("applied", Json::Bool(true)))
    } else if text::str_eq(method, "workspace/diagnostic/refresh") {
        Some(Json::Null)
    } else {
        None
    }
}

impl LspServer {
    /// A conversation that has not begun. The first id belongs to the `initialize` request.
    pub fn new(server_name: String, project_path: String, server_info: Json) -> (r: Self)
        ensures
            r@ == (Conversation {
                name: server_name@,
                project_path: project_path@,
                info: server_info@,
                flags: capabilities::default_flags(),
                caps: None,
                pending: Set::empty(),
                next_id: 2,
                initialize_id: 1,
            }),
    {
        let mut id_gen = RequestIdGenerator::new();
        let initialize_id: u64 = id_gen.next();
        LspServer {
            server_name,
            project_path,
            server_info,
            capability_flags: ServerCapabilityFlags::default(),
            server_capabilities: None,
            pending: concurrent::no_ids(),
            id_gen,
            initialize_id,
        }
    }

    /// The `initialize` request; `root` is the project's path made absolute.
    pub fn send_initialize(&self, root: &str, process_id: u32, workspace_folders: Json) -> (r:
        OutgoingMessage)
        ensures
            r@ == Outgoing::Init(
                request_text(
                    self@.initialize_id,
                    "initialize"@,
                    initialize_params(
                        self@.info,
                        self@.project_path,
                        root@,
                        process_id,
                        workspace_folders@,
                    ),
                ),
            ),
    {
        let overrides = handlers::get_or_null(&self.server_info, "capabilities");
        let base = capabilities::default_client_capabilities(true);
        let announced_caps = capabilities::merge_capabilities(&base, &overrides);
        let root_uri = uri::path_to_uri(root);
        let client = handlers::object2(
            "name",
            Json::str("emacs"),
            "version",
            Json::str("lsp-bridge"),
        );
        let options = get_or_empty(&self.server_info, "initializationOptions");
        let mut members: Vec<(String, Json)> = Vec::new();
        members.push(json::field("processId", Json::unsigned(process_id as u64)));
        members.push(json::field("rootPath", Json::str(self.project_path.as_str())));
        members.push(json::field("rootUri", Json::String(root_uri)));
        members.push(json::field("clientInfo", client));
        members.push(json::field("capabilities", announced_caps));
        members.push(json::field("initializationOptions", options));
        members.push(json::field("workspaceFolders", workspace_folders));
        assert(json::entry_models(members@) =~= seq![
            ("processId"@, json::int_number(process_id as int)),
            ("rootPath"@, Jv::Str(self@.project_path)),
            ("rootUri"@, Jv::Str(uri::uri_of(root@))),
            ("clientInfo"@, client@),
            ("capabilities"@, announced(self@.info)),
            ("initializationOptions"@, options@),
            ("workspaceFolders"@, workspace_folders@),
        ]);
        let params = Json::from_members(members);
        OutgoingMessage::Init(jsonrpc::build_request(self.initialize_id, "initialize", params))
    }

    /// Take the initialize result: extract capabilities, send `initialized` and the settings.
    fn handle_initialize_result(&mut self, result: &Json) -> (r: Vec<ServerAction>)
        ensures
            actions(r@) == after_initialize(old(self)@.info),
            final(self)@ == with_result(old(self)@, result@),
    {
        match capabilities::extract_server_capabilities(result) {
            Some(caps) => {
                self.capability_flags = ServerCapabilityFlags::from_capabilities(&caps);
                self.server_capabilities = Some(caps);
            },
            None => {},
        }
        let hello = jsonrpc::build_notification("initialized", handlers::object0());
        let settings = handlers::object1("settings", get_or_empty(&self.server_info, "settings"));
        let change = jsonrpc::build_notification("workspace/didChangeConfiguration", settings);
        let mut r: Vec<ServerAction> = Vec::new();
        r.push(ServerAction::Send(OutgoingMessage::Init(hello)));
        r.push(ServerAction::Send(OutgoingMessage::Init(change)));
        r.push(ServerAction::Initialized);
        assert(actions(r@) =~= after_initialize(old(self)@.info));
        r
    }

    /// A request whose response is awaited: its id and its message.
    pub fn send_request(&mut self, method: &str, params: Json) -> (r: (u64, OutgoingMessage))
        ensures
            r.0 == old(self)@.next_id,
            r.1@ == Outgoing::Normal(request_text(old(self)@.next_id, method@, params@)),
            final(self)@ == (Conversation {
                next_id: id_after(old(self)@.next_id),
                pending: old(self)@.pending.insert(old(self)@.next_id),
                ..old(self)@
            }),
    {
        let id: u64 = self.id_gen.next();
        let _ = concurrent::insert_id(&mut self.pending, id);
        let json = jsonrpc::build_request(id, method, params);
        (id, OutgoingMessage::Normal(json))
    }

    /// A request whose response nobody awaits yet: its id and its message.
    pub fn send_request_no_wait(&mut self, method: &str, params: Json) -> (r: (
        u64,
        OutgoingMessage,
    ))
        ensures
            r.0 == old(self)@.next_id,
            r.1@ == Outgoing::Normal(request_text(old(self)@.next_id, method@, params@)),
            final(self)@ == (Conversation {
                next_id: id_after(old(self)@.next_id),
                ..old(self)@
            }),
    {
        let id: u64 = self.id_gen.next();
        let json = jsonrpc::build_request(id, method, params);
        (id, OutgoingMessage::Normal(json))
    }

    /// Have the response to a request awaited.
    pub fn register_pending(&mut self, id: u64)
        ensures
            final(self)@ == (Conversation {
                pending: old(self)@.pending.insert(id),
                ..old(self)@
            }),
    {
        let _ = concurrent::insert_id(&mut self.pending, id);
    }

    /// A notification.
    pub fn send_notification(&self, method: &str, params: Json) -> (r: OutgoingMessage)
        ensures
            r@ == Outgoing::Normal(notification_text(method@, params@)),
    {
        OutgoingMessage::Normal(jsonrpc::build_notification(method, params))
    }

    /// A response to a request of the server.
    pub fn send_response(&self, request_id: u64, result: Json) -> (r: OutgoingMessage)
        ensures
            r@ == Outgoing::Normal(response_text(request_id, result@)),
    {
        OutgoingMessage::Normal(jsonrpc::build_response(request_id, result))
    }

    /// `textDocument/didOpen`.
    pub fn send_did_open(&self, uri: &str, language_id: &str, version: i32, content: &str) -> (r:
        OutgoingMessage)
        ensures
            r@ == Outgoing::Normal(
                notification_text(
                    "textDocument/didOpen"@,
                    did_open_params(uri@, language_id@, version, content@),
                ),
            ),
    {
        let mut members: Vec<(String, Json)> = Vec::new();
        members.push(json::field("uri", Json::str(uri)));
        members.push(json::field("languageId", Json::str(language_id)));
        members.push(json::field("version", Json::integer(version as i64)));
        members.push(json::field("text", Json::str(content)));
        assert(json::entry_models(members@) =~= seq![
            ("uri"@, Jv::Str(uri@)),
            ("languageId"@, Jv::Str(language_id@)),
            ("version"@, json::int_number(version as int)),
            ("text"@, Jv::Str(content@)),
        ]);
        let opened = Json::from_members(members);
        self.send_notification("textDocument/didOpen", handlers::object1("textDocument", opened))
    }

    /// `textDocument/didClose`.
    pub fn send_did_close(&self, uri: &str) -> (r: OutgoingMessage)
        ensures
            r@ == Outgoing::Normal(
                notification_text("textDocument/didClose"@, did_close_params(uri@)),
            ),
    {
        let params = handlers::object1("textDocument", document_value(uri));
        self.send_notification("textDocument/didClose", params)
    }

    /// `textDocument/didChange` with what changed.
    pub fn send_did_change_incremental(
        &self,
        uri: &str,
        version: i32,
        range_start: Json,
        range_end: Json,
        range_length: u64,
        content: &str,
    ) -> (r: OutgoingMessage)
        ensures
            r@ == Outgoing::Normal(
                notification_text(
                    "textDocument/didChange"@,
                    did_change_params(
                        uri@,
                        version,
                        range_change(range_start@, range_end@, range_length, content@),
                    ),
                ),
            ),
    {
        let range = handlers::object2("start", range_start, "end", range_end);
        let mut members: Vec<(String, Json)> = Vec::new();
        members.push(json::field("range", range));
        members.push(json::field("rangeLength", Json::unsigned(range_length)));
        members.push(json::field("text", Json::str(content)));
        assert(json::entry_models(members@) =~= seq![
            ("range"@, range@),
            ("rangeLength"@, Jv::Number(Jn::PosInt(range_length))),
            ("text"@, Jv::Str(content@)),
        ]);
        change_message(uri, version, Json::from_members(members))
    }

    /// `textDocument/didChange` with the full content.
    pub fn send_did_change_full(&self, uri: &str, version: i32, content: &str) -> (r:
        OutgoingMessage)
        ensures
            r@ == Outgoing::Normal(
                notification_text(
                    "textDocument/didChange"@,
                    did_change_params(uri@, version, full_change(content@)),
                ),
            ),
    {
        change_message(uri, version, handlers::object1("text", Json::str(content)))
    }

    /// `textDocument/didSave`.
    pub fn send_did_save(&self, uri: &str, content: Option<&str>) -> (r: OutgoingMessage)
        ensures
            r@ == Outgoing::Normal(
                notification_text(
                    "textDocument/didSave"@,
                    did_save_params(
                        uri@,
                        match content {
                            Some(s) => Some(s@),
                            None => None,
                        },
                    ),
                ),
            ),
    {
        let params = match content {
            Some(s) => handlers::object2(
                "textDocument",
                document_value(uri),
                "text",
                Json::str(s),
            ),
            None => handlers::object1("textDocument", document_value(uri)),
        };
        self.send_notification("textDocument/didSave", params)
    }

    /// The `shutdown` request: its id and its message. Once it is answered, [`Self::exit`] follows.
    pub fn shutdown(&mut self) -> (r: (u64, OutgoingMessage))
        ensures
            r.0 == old(self)@.next_id,
            r.1@ == Outgoing::Normal(request_text(old(self)@.next_id, "shutdown"@, Jv::Null)),
            final(self)@ == (Conversation {
                next_id: id_after(old(self)@.next_id),
                pending: old(self)@.pending.insert(old(self)@.next_id),
                ..old(self)@
            }),
    {
        self.send_request("shutdown", Json::Null)
    }

    /// The `exit` notification.
    pub fn exit(&self) -> (r: OutgoingMessage)
        ensures
            r@ == Outgoing::Normal(notification_text("exit"@, handlers::obj(seq![]))),
    {
        self.send_notification("exit", handlers::object0())
    }

    /// Handle a single incoming LSP message.
    pub fn handle_incoming(&mut self, msg: IncomingMessage) -> (r: Vec<ServerAction>)
        ensures
            actions(r@) == handled(old(self)@, msg@).0,
            final(self)@ == handled(old(self)@, msg@).1,
    {
        let mut r: Vec<ServerAction> = Vec::new();
        match msg {
            IncomingMessage::Response { id, result } => {
                if id == self.initialize_id {
                    return self.handle_initialize_result(&result);
                }
                if concurrent::remove_id(&mut self.pending, id) {
                    r.push(ServerAction::Resolve { id, result });
                } else {
                    assert(self@.pending =~= old(self)@.pending);
                }
            },
            IncomingMessage::ErrorResponse { id, error } => {
                if concurrent::remove_id(&mut self.pending, id) {
                    let object = jsonrpc::error_value(error.code, error.message.as_str());
                    let result = handlers::object1("error", object);
                    r.push(ServerAction::Resolve { id, result });
                } else {
                    assert(self@.pending =~= old(self)@.pending);
                }
            },
            IncomingMessage::Notification { method, params } => {
                r.push(ServerAction::Notify { method, params });
            },
            IncomingMessage::Request { id, method, params } => {
                match answer(method.as_str(), &params) {
                    Some(result) => {
                        let json = jsonrpc::build_response(id, result);
                        r.push(ServerAction::Send(OutgoingMessage::Normal(json)));
                    },
                    None => {},
                }
                r.push(ServerAction::ServerRequest { id, method, params });
            },
        }
        assert(actions(r@) =~= handled(old(self)@, msg@).0);
        r
    }
}

/// Whether a message answers the request with that id: with a result or with an error.
pub open spec fn answers(msg: Incoming, id: u64) -> bool {
    match msg {
        Incoming::Response { id: answered, .. } => answered == id,
        Incoming::ErrorResponse { id: answered, .. } => answered == id,
        _ => false,
    }
}

/// What an answer hands to whoever awaits the request.
pub open spec fn answer_value(msg: Incoming) -> Jv {
    match msg {
        Incoming::Response { result, .. } => result,
        Incoming::ErrorResponse { error, .. } => error_result(error),
        _ => Jv::Null,
    }
}

/// A request that is awaited is resolved by the first message that answers it, and only by that
/// one: another answer with its id leads to nothing.
pub proof fn law_resolved_once(c: Conversation, id: u64, msg: Incoming, again: Incoming)
    requires
        c.pending.contains(id),
        id != c.initialize_id,
        answers(msg, id),
        answers(again, id),
    ensures
        handled(c, msg).0 == seq![Action::Resolve { id, result: answer_value(msg) }],
        handled(handled(c, msg).1, again).0 == Seq::<Action>::empty(),
        handled(handled(c, msg).1, again).1 == handled(c, msg).1,
{
}

/// A request that is awaited stays so, whatever comes, until a message answers it.
pub proof fn law_awaited_until_answered(c: Conversation, id: u64, msg: Incoming)
    requires
        !answers(msg, id),
    ensures
        handled(c, msg).1.pending.contains(id) == c.pending.contains(id),
        handled(c, msg).1.next_id == c.next_id,
{
}

/// Whether the next id is larger than every id in use.
pub open spec fn ids_below_next(c: Conversation) -> bool {
    &&& c.initialize_id < c.next_id
    &&& forall|id: u64| c.pending.contains(id) ==> id < c.next_id
}

/// The next request's id is not in use, and it stays so from request to request until the ids
/// run out, whatever the server sends.
pub proof fn law_request_id_fresh(c: Conversation, msg: Incoming)
    requires
        ids_below_next(c),
    ensures
        !c.pending.contains(c.next_id),
        c.next_id != c.initialize_id,
        ids_below_next(handled(c, msg).1),
        c.next_id < u64::MAX ==> ids_below_next(
            Conversation {
                next_id: id_after(c.next_id),
                pending: c.pending.insert(c.next_id),
                ..c
            },
        ),
{
}

/// A request of the server is handed on, and answered at most once, under its own id.
pub proof fn law_server_request_answered(c: Conversation, id: u64, method: Seq<char>, params: Jv)
    ensures
        ({
            let (out, after) = handled(c, Incoming::Request { id, method, params });
            &&& after == c
            &&& out.last() == Action::ServerRequest { id, method, params }
            &&& out.len() <= 2
            &&& automatic_answer(method, params) is Some <==> out.len() == 2
            &&& out.len() == 2 ==> out[0] == Action::Send(
                Outgoing::Normal(response_text(id, automatic_answer(method, params)->0)),
            )
        }),
{
}

// ---------------------------------------------------------------------------
// Writing
// ---------------------------------------------------------------------------

/// The order in which messages go out:
///
/// 1. the first init message (the `initialize` request), at once
/// 2. nothing, until the server is initialized
/// 3. the remaining init messages
/// 4. the normal messages
pub struct MessageWriter {
    started: bool,
    initialized: bool,
    init_queue: Vec<String>,
    normal_queue: Vec<String>,
}

/// The mathematical value of a [`MessageWriter`].
#[verifier::ext_equal]
pub struct Queues {
    pub started: bool,
    pub initialized: bool,
    pub init: Seq<Seq<char>>,
    pub normal: Seq<Seq<char>>,
}

impl View for MessageWriter {
    type V = Queues;

    closed spec fn view(&self) -> Queues {
        Queues {
            started: self.started,
            initialized: self.initialized,
            init: text::texts(self.init_queue@),
            normal: text::texts(self.normal_queue@),
        }
    }
}

impl Queues {
    /// Whether messages go out as they come.
    pub open spec fn flowing(self) -> bool {
        self.started && self.initialized
    }
}

/// Nothing waits once messages flow, and no init message waits before the first.
pub open spec fn queues_inv(q: Queues) -> bool {
    &&& q.flowing() ==> q.init.len() == 0 && q.normal.len() == 0
    &&& !q.started ==> q.init.len() == 0
}

/// What goes out when a message comes, and the queues after it.
pub open spec fn accepted(q: Queues, msg: Outgoing) -> (Seq<Seq<char>>, Queues) {
    match msg {
        Outgoing::Init(s) => if !q.started {
            if q.initialized {
                (seq![s] + q.normal, Queues { started: true, normal: seq![], ..q })
            } else {
                (seq![s], Queues { started: true, ..q })
            }
        } else if q.initialized {
            (seq![s], q)
        } else {
            (seq![], Queues { init: q.init.push(s), ..q })
        },
        Outgoing::Normal(s) => if q.flowing() {
            (seq![s], q)
        } else {
            (seq![], Queues { normal: q.normal.push(s), ..q })
        },
    }
}

/// What goes out when the server is initialized, and the queues after it.
pub open spec fn released(q: Queues) -> (Seq<Seq<char>>, Queues) {
    if q.started {
        (
            q.init + q.normal,
            Queues { initialized: true, init: seq![], normal: seq![], started: true },
        )
    } else {
        (seq![], Queues { initialized: true, ..q })
    }
}

/// The frames of messages.
pub open spec fn frames_of(messages: Seq<Seq<char>>) -> Seq<Seq<u8>> {
    Seq::new(messages.len(), |i: int| transport::frame(messages[i]))
}

/// The bytes of each frame.
pub open spec fn frame_bytes(v: Seq<Vec<u8>>) -> Seq<Seq<u8>> {
    Seq::new(v.len(), |i: int| v[i]@)
}

fn push_frame(frames: &mut Vec<Vec<u8>>, json: &str)
    ensures
        frame_bytes(final(frames)@) == frame_bytes(old(frames)@).push(transport::frame(json@)),
{
    frames.push(transport::encode(json));
    assert(frame_bytes(frames@) =~= frame_bytes(old(frames)@).push(transport::frame(json@)));
}

fn push_frames(frames: &mut Vec<Vec<u8>>, queue: &Vec<String>)
    ensures
        frame_bytes(final(frames)@) == frame_bytes(old(frames)@) + frames_of(
            text::texts(queue@),
        ),
{
    let ghost start = frame_bytes(frames@);
    let ghost all = text::texts(queue@);
    let mut i: usize = 0;
    assert(start =~= start + frames_of(all.take(0)));
    while i < queue.len()
        invariant
            all == text::texts(queue@),
            i <= queue@.len(),
            frame_bytes(frames@) == start + frames_of(all.take(i as int)),
        decreases queue@.len() - i,
    {
        push_frame(frames, queue[i].as_str());
        assert(frame_bytes(frames@) =~= start + frames_of(all.take(i + 1)));
        i = i + 1;
    }
    assert(all.take(i as int) =~= all);
}

impl MessageWriter {
    pub fn new() -> (r: Self)
        ensures
            r@ == (Queues { started: false, initialized: false, init: seq![], normal: seq![] }),
            queues_inv(r@),
    {
        let r = MessageWriter {
            started: false,
            initialized: false,
            init_queue: Vec::new(),
            normal_queue: Vec::new(),
        };
        assert(r@ =~= Queues { started: false, initialized: false, init: seq![], normal: seq![] });
        r
    }

    /// The frames to write now that a message has come.
    pub fn accept(&mut self, msg: OutgoingMessage) -> (r: Vec<Vec<u8>>)
        ensures
            frame_bytes(r@) == frames_of(accepted(old(self)@, msg@).0),
            final(self)@ == accepted(old(self)@, msg@).1,
    {
        let mut frames: Vec<Vec<u8>> = Vec::new();
        assert(frame_bytes(frames@) =~= Seq::empty());
        match msg {
            OutgoingMessage::Init(json) => {
                if !self.started {
                    self.started = true;
                    push_frame(&mut frames, json.as_str());
                    if self.initialized {
                        push_frames(&mut frames, &self.normal_queue);
                        self.normal_queue = Vec::new();
                    }
                } else if self.initialized {
                    push_frame(&mut frames, json.as_str());
                } else {
                    self.init_queue.push(json);
                }
            },
            OutgoingMessage::Normal(json) => {
                if self.started && self.initialized {
                    push_frame(&mut frames, json.as_str());
                } else {
                    self.normal_queue.push(json);
                }
            },
        }
        assert(frame_bytes(frames@) =~= frames_of(accepted(old(self)@, msg@).0));
        assert(self@ =~= accepted(old(self)@, msg@).1);
        frames
    }

    /// The frames to write now that the server is initialized.
    pub fn release(&mut self) -> (r: Vec<Vec<u8>>)
        ensures
            frame_bytes(r@) == frames_of(released(old(self)@).0),
            final(self)@ == released(old(self)@).1,
    {
        let mut frames: Vec<Vec<u8>> = Vec::new();
        assert(frame_bytes(frames@) =~= Seq::empty());
        self.initialized = true;
        if self.started {
            push_frames(&mut frames, &self.init_queue);
            push_frames(&mut frames, &self.normal_queue);
            self.init_queue = Vec::new();
            self.normal_queue = Vec::new();
        }
        assert(frame_bytes(frames@) =~= frames_of(released(old(self)@).0));
        assert(self@ =~= released(old(self)@).1);
        frames
    }
}

impl Default for MessageWriter {
    fn default() -> (r: Self)
        ensures
            r@ == (Queues { started: false, initialized: false, init: seq![], normal: seq![] }),
    {
        MessageWriter::new()
    }
}

/// Every step keeps the order of the queues: once messages flow nothing waits.
pub proof fn law_queues_kept(q: Queues, msg: Outgoing)
    requires
        queues_inv(q),
    ensures
        queues_inv(accepted(q, msg).1),
        queues_inv(released(q).1),
{
}

/// Before the server is initialized, one message goes out: the first init message.
pub proof fn law_nothing_before_initialized(q: Queues, msg: Outgoing)
    requires
        queues_inv(q),
        !q.initialized,
    ensures
        accepted(q, msg).0.len() > 0 ==> !q.started && msg is Init && accepted(q, msg).0 == seq![
            msg->Init_0,
        ],
{
}

/// No message is lost and none goes out twice: what went out and what waits, taken together, are
/// what waited before and the new message.
pub proof fn law_messages_kept(q: Queues, msg: Outgoing)
    requires
        queues_inv(q),
    ensures
        ({
            let (out, after) = accepted(q, msg);
            let s = match msg {
                Outgoing::Init(s) => s,
                Outgoing::Normal(s) => s,
            };
            (out + after.init + after.normal).to_multiset() == (q.init + q.normal).push(
                s,
            ).to_multiset()
        }),
        ({
            let (out, after) = released(q);
            out + after.init + after.normal == q.init + q.normal
        }),
{
    let (out, after) = accepted(q, msg);
    match msg {
        Outgoing::Init(s) => {
            if !q.started && q.initialized {
                assert(out + after.init + after.normal =~= seq![s] + q.normal);
                assert((q.init + q.normal).push(s) =~= q.normal + seq![s]);
                lemma_rotate(seq![s], q.normal);
            } else if !q.started {
                assert(out + after.init + after.normal =~= seq![s] + q.normal);
                assert((q.init + q.normal).push(s) =~= q.normal + seq![s]);
                lemma_rotate(seq![s], q.normal);
            } else if q.initialized {
                assert(out + after.init + after.normal =~= (q.init + q.normal).push(s));
            } else {
                assert(out + after.init + after.normal =~= q.init + (seq![s] + q.normal));
                assert((q.init + q.normal).push(s) =~= q.init + (q.normal + seq![s]));
                lemma_rotate(seq![s], q.normal);
                vstd::seq_lib::lemma_multiset_commutative(q.init, seq![s] + q.normal);
                vstd::seq_lib::lemma_multiset_commutative(q.init, q.normal + seq![s]);
            }
        },
        Outgoing::Normal(s) => {
            assert(out + after.init + after.normal =~= (q.init + q.normal).push(s));
        },
    }
    let (out, after) = released(q);
    assert(out + after.init + after.normal =~= q.init + q.normal);
}

proof fn lemma_rotate(a: Seq<Seq<char>>, b: Seq<Seq<char>>)
    ensures
        (a + b).to_multiset() == (b + a).to_multiset(),
{
    vstd::seq_lib::lemma_multiset_commutative(a, b);
    vstd::seq_lib::lemma_multiset_commutative(b, a);
    assert(a.to_multiset().add(b.to_multiset()) =~= b.to_multiset().add(a.to_multiset()));
}

// ---------------------------------------------------------------------------
// Reading
// ---------------------------------------------------------------------------

/// What a batch of bytes brings: the messages in order, each read or not, and the fault that
/// stops the reading, if there is one.
pub struct Batch {
    pub messages: Vec<Result<IncomingMessage, IncomingError>>,
    pub fault: Option<TransportError>,
}

/// Whether a result is what a text holds.
pub open spec fn reads(r: Result<IncomingMessage, IncomingError>, s: Seq<char>) -> bool {
    match jsonrpc::parsed(s) {
        Ok(m) => r is Ok && r->Ok_0@ == m,
        Err(e) => r is Err && r->Err_0@ == e,
    }
}

/// The fault at the front of a buffer.
pub open spec fn fault_of(buf: Seq<u8>) -> Option<TransportFault> {
    match transport::decoded(buf) {
        Err(e) => Some(e),
        Ok(_) => None,
    }
}

/// Take bytes of the server in, and the messages that they complete out.
pub fn read_messages(decoder: &mut ContentLengthDecoder, data: &[u8]) -> (r: Batch)
    requires
        old(decoder)@.len() + data@.len() <= isize::MAX,
    ensures
        ({
            let (texts, left) = transport::taken(old(decoder)@ + data@);
            &&& final(decoder)@ == left
            &&& r.messages@.len() == texts.len()
            &&& forall|i: int| 0 <= i < texts.len() ==> reads(#[trigger] r.messages@[i], texts[i])
            &&& match fault_of(left) {
                Some(e) => r.fault is Some && r.fault->0@ == e,
                None => r.fault is None,
            }
        }),
{
    decoder.push(data);
    let ghost all = decoder@;
    let ghost (texts, left) = transport::taken(all);
    let mut messages: Vec<Result<IncomingMessage, IncomingError>> = Vec::new();
    assert(texts.skip(0) =~= texts);
    loop
        invariant
            all == old(decoder)@ + data@,
            transport::taken(all) == (texts, left),
            messages@.len() <= texts.len(),
            forall|i: int|
                0 <= i < messages@.len() ==> reads(#[trigger] messages@[i], texts[i]),
            transport::taken(decoder@).0 == texts.skip(messages@.len() as int),
            transport::taken(decoder@).1 == left,
        decreases decoder@.len(),
    {
        let ghost before = decoder@;
        proof {
            transport::lemma_decoded_len(before);
        }
        match decoder.next_message() {
            Ok(Some(json)) => {
                let ghost rest = transport::taken(decoder@).0;
                assert(transport::taken(before).0 =~= seq![json@] + rest);
                assert(texts.skip(messages@.len() as int)[0] == json@);
                let ghost n = messages@.len() as int;
                messages.push(IncomingMessage::parse(json.as_str()));
                assert(texts.skip(n).skip(1) =~= texts.skip(n + 1));
                assert((seq![json@] + rest).skip(1) =~= rest);
            },
            Ok(None) => {
                assert(texts.skip(messages@.len() as int).len() == 0);
                return Batch { messages, fault: None };
            },
            Err(e) => {
                assert(texts.skip(messages@.len() as int).len() == 0);
                return Batch { messages, fault: Some(e) };
            },
        }
    }
}

} // verus!
