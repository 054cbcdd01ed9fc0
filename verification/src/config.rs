//! Server configurations: what the files under `langserver/` and `multiserver/` hold.

use crate::handlers;
use crate::json;
use crate::json::{Json, Jv};
use crate::jsonrpc;
use crate::members;
use crate::table;
use crate::table::Table;
use crate::text;
use vstd::prelude::*;

verus! {

/// Configuration for a single LSP server.
#[derive(Debug, PartialEq, Eq)]
pub struct ServerConfig {
    /// Server name (e.g., "pyright", "rust-analyzer")
    pub name: String,
    /// Language ID (e.g., "python", "rust")
    pub language_id: String,
    /// Command to start the server
    pub command: Vec<String>,
    /// Server-specific settings
    pub settings: Json,
    /// Project files to detect root (e.g., ["Cargo.toml"])
    pub project_files: Vec<String>,
    /// Whether the server supports single-file mode
    pub support_single_file: bool,
    /// Custom capabilities to send during initialization
    pub capabilities: Json,
    /// Custom initialization options
    pub initialization_options: Json,
    /// Virtual file path for org-babel support
    pub org_babel_virtual_file: Option<String>,
    /// Completion trigger characters override
    pub completion_trigger_characters: Option<Vec<String>>,
}

/// The mathematical value of a [`ServerConfig`].
pub struct Server {
    pub name: Seq<char>,
    pub language_id: Seq<char>,
    pub command: Seq<Seq<char>>,
    pub settings: Jv,
    pub project_files: Seq<Seq<char>>,
    pub single_file: bool,
    pub capabilities: Jv,
    pub options: Jv,
    pub virtual_file: Option<Seq<char>>,
    pub triggers: Option<Seq<Seq<char>>>,
}

/// The characters of an optional string.
pub open spec fn opt_text(s: Option<String>) -> Option<Seq<char>> {
    match s {
        Some(s) => Some(s@),
        None => None,
    }
}

/// The characters of the strings of an optional list.
pub open spec fn opt_texts(v: Option<Vec<String>>) -> Option<Seq<Seq<char>>> {
    match v {
        Some(v) => Some(text::texts(v@)),
        None => None,
    }
}

impl View for ServerConfig {
    type V = Server;

    open spec fn view(&self) -> Server {
        Server {
            name: self.name@,
            language_id: self.language_id@,
            command: text::texts(self.command@),
            settings: self.settings@,
            project_files: text::texts(self.project_files@),
            single_file: self.support_single_file,
            capabilities: self.capabilities@,
            options: self.initialization_options@,
            virtual_file: opt_text(self.org_babel_virtual_file),
            triggers: opt_texts(self.completion_trigger_characters),
        }
    }
}

// ---------------------------------------------------------------------------
// Reading fields
// ---------------------------------------------------------------------------

/// Why a JSON value is no configuration: the field that is missing or of the wrong kind.
#[derive(Debug, PartialEq, Eq)]
pub enum ConfigError {
    /// The value is neither an object nor an array of the fields in their order.
    NotAnObject,
    /// The field is missing or of the wrong kind.
    Field(&'static str),
}

/// The value as an object: an array holds the fields in their order.
pub open spec fn with_names(v: Jv, names: Seq<Seq<char>>) -> Option<Jv> {
    match v {
        Jv::Object(_) => Some(v),
        Jv::Array(a) => if a.len() <= names.len() {
            Some(
                handlers::obj(Seq::new(a.len(), |i: int| (names[i], a[i]))),
            )
        } else {
            None
        },
        _ => None,
    }
}

/// The strings of an array, if it holds nothing else.
pub open spec fn all_strings(v: Jv) -> Option<Seq<Seq<char>>> {
    match v {
        Jv::Array(a) => if forall|i: int| 0 <= i < a.len() ==> (#[trigger] a[i]) is Str {
            Some(Seq::new(a.len(), |i: int| a[i]->Str_0))
        } else {
            None
        },
        _ => None,
    }
}

/// A field that must be a string.
pub open spec fn string_field(v: Jv, key: Seq<char>) -> Option<Seq<char>> {
    json::as_str(handlers::member_or_null(v, key))
}

/// A field that must be an array of strings.
pub open spec fn strings_field(v: Jv, key: Seq<char>) -> Option<Seq<Seq<char>>> {
    all_strings(handlers::member_or_null(v, key))
}

/// A field that is an array of strings, empty where it is missing.
pub open spec fn strings_or_empty(v: Jv, key: Seq<char>) -> Option<Seq<Seq<char>>> {
    match json::member(v, key) {
        Some(m) => all_strings(m),
        None => Some(Seq::empty()),
    }
}

/// A field that is a boolean, false where it is missing.
pub open spec fn bool_or_false(v: Jv, key: Seq<char>) -> Option<bool> {
    match json::member(v, key) {
        Some(Jv::Bool(b)) => Some(b),
        Some(_) => None,
        None => Some(false),
    }
}

/// A field that may be missing or null, else is a string.
pub open spec fn optional_string(v: Jv, key: Seq<char>) -> Option<Option<Seq<char>>> {
    match handlers::member_or_null(v, key) {
        Jv::Null => Some(None),
        Jv::Str(s) => Some(Some(s)),
        _ => None,
    }
}

/// A field that may be missing or null, else is an array of strings.
pub open spec fn optional_strings(v: Jv, key: Seq<char>) -> Option<Option<Seq<Seq<char>>>> {
    match handlers::member_or_null(v, key) {
        Jv::Null => Some(None),
        m => match all_strings(m) {
            Some(s) => Some(Some(s)),
            None => None,
        },
    }
}

fn check_all_strings(v: &Json) -> (r: Option<Vec<String>>)
    ensures
        match all_strings(v@) {
            Some(s) => r is Some && text::texts((r->0)@) == s,
            None => r is None,
        },
{
    let a = match v.as_array() {
        Some(a) => a,
        None => return None,
    };
    let ghost all = json::models(a@);
    let mut r: Vec<String> = Vec::new();
    let mut i: usize = 0;
    while i < a.len()
        invariant
            all == json::models(a@),
            v@ == Jv::Array(all),
            i <= a@.len(),
            r@.len() == i,
            forall|j: int|
                0 <= j < i ==> (#[trigger] all[j]) is Str && r@[j]@ == all[j]->Str_0,
        decreases a@.len() - i,
    {
        assert(all[i as int] == a@[i as int]@);
        match a[i].as_str() {
            Some(s) => r.push(s.to_string()),
            None => return None,
        }
        i = i + 1;
    }
    assert(text::texts(r@) =~= Seq::new(all.len(), |i: int| all[i]->Str_0));
    Some(r)
}

pub(crate) fn get_string(v: &Json, key: &str) -> (r: Option<String>)
    ensures
        match string_field(v@, key@) {
            Some(s) => r is Some && (r->0)@ == s,
            None => r is None,
        },
{
    match v.get(key) {
        Some(m) => match m.as_str() {
            Some(s) => Some(s.to_string()),
            None => None,
        },
        None => None,
    }
}

fn get_strings(v: &Json, key: &str) -> (r: Option<Vec<String>>)
    ensures
        match strings_field(v@, key@) {
            Some(s) => r is Some && text::texts((r->0)@) == s,
            None => r is None,
        },
{
    match v.get(key) {
        Some(m) => check_all_strings(m),
        None => None,
    }
}

fn get_strings_or_empty(v: &Json, key: &str) -> (r: Option<Vec<String>>)
    ensures
        match strings_or_empty(v@, key@) {
            Some(s) => r is Some && text::texts((r->0)@) == s,
            None => r is None,
        },
{
    match v.get(key) {
        Some(m) => check_all_strings(m),
        None => {
            let none: Vec<String> = Vec::new();
            assert(text::texts(none@) =~= Seq::<Seq<char>>::empty());
            Some(none)
        },
    }
}

fn get_bool_or_false(v: &Json, key: &str) -> (r: Option<bool>)
    ensures
        r == bool_or_false(v@, key@),
{
    match v.get(key) {
        Some(m) => m.as_bool(),
        None => Some(false),
    }
}

fn get_optional_string(v: &Json, key: &str) -> (r: Option<Option<String>>)
    ensures
        match optional_string(v@, key@) {
            Some(s) => r is Some && opt_text(r->0) == s,
            None => r is None,
        },
{
    let m = handlers::get_or_null(v, key);
    match m {
        Json::Null => Some(None),
        Json::String(s) => Some(Some(s)),
        _ => None,
    }
}

fn get_optional_strings(v: &Json, key: &str) -> (r: Option<Option<Vec<String>>>)
    ensures
        match optional_strings(v@, key@) {
            Some(s) => r is Some && opt_texts(r->0) == s,
            None => r is None,
        },
{
    let m = handlers::get_or_null(v, key);
    if m.is_null() {
        return Some(None);
    }
    match check_all_strings(&m) {
        Some(s) => Some(Some(s)),
        None => None,
    }
}

pub(crate) fn name_fields(v: &Json, names: &Vec<&'static str>) -> (r: Option<Json>)
    ensures
        match with_names(v@, name_texts(names@)) {
            Some(o) => r is Some && (r->0)@ == o,
            None => r is None,
        },
{
    match v {
        Json::Object(_) => Some(v.clone()),
        Json::Array(a) => {
            proof {
                json::lemma_array_model(*a);
            }
            let ghost all = json::models(a@);
            if a.len() > names.len() {
                return None;
            }
            let mut members: Vec<(String, Json)> = Vec::new();
            let mut i: usize = 0;
            while i < a.len()
                invariant
                    all == json::models(a@),
                    i <= a@.len() <= names@.len(),
                    members@.len() == i,
                    forall|j: int|
                        0 <= j < i ==> (#[trigger] members@[j]).0@ == names@[j]@
                            && members@[j].1@ == all[j],
                decreases a@.len() - i,
            {
                members.push(json::field(names[i], a[i].clone()));
                i = i + 1;
            }
            assert(json::entry_models(members@) =~= Seq::new(
                all.len(),
                |i: int| (name_texts(names@)[i], all[i]),
            ));
            Some(Json::from_members(members))
        },
        _ => None,
    }
}

/// The characters of each name.
pub open spec fn name_texts(v: Seq<&'static str>) -> Seq<Seq<char>> {
    Seq::new(v.len(), |i: int| v[i]@)
}

// ---------------------------------------------------------------------------
// Single servers
// ---------------------------------------------------------------------------

/// The fields of a server's configuration, in their order.
pub open spec fn server_fields() -> Seq<Seq<char>> {
    seq![
        "name"@,
        "languageId"@,
        "command"@,
        "settings"@,
        "projectFiles"@,
        "support-single-file"@,
        "capabilities"@,
        "initializationOptions"@,
        "orgBabelVirtualFile"@,
        "completionTriggerCharacters"@,
    ]
}

/// The configuration that an object holds, or the first field in the way.
pub open spec fn server_of(v: Jv) -> Result<Server, ConfigError> {
    if string_field(v, "name"@) is None {
        Err(ConfigError::Field("name"))
    } else if string_field(v, "languageId"@) is None {
        Err(ConfigError::Field("languageId"))
    } else if strings_field(v, "command"@) is None {
        Err(ConfigError::Field("command"))
    } else if strings_or_empty(v, "projectFiles"@) is None {
        Err(ConfigError::Field("projectFiles"))
    } else if bool_or_false(v, "support-single-file"@) is None {
        Err(ConfigError::Field("support-single-file"))
    } else if optional_string(v, "orgBabelVirtualFile"@) is None {
        Err(ConfigError::Field("orgBabelVirtualFile"))
    } else if optional_strings(v, "completionTriggerCharacters"@) is None {
        Err(ConfigError::Field("completionTriggerCharacters"))
    } else {
        Ok(
            Server {
                name: string_field(v, "name"@)->0,
                language_id: string_field(v, "languageId"@)->0,
                command: strings_field(v, "command"@)->0,
                settings: handlers::member_or_null(v, "settings"@),
                project_files: strings_or_empty(v, "projectFiles"@)->0,
                single_file: bool_or_false(v, "support-single-file"@)->0,
                capabilities: handlers::member_or_null(v, "capabilities"@),
                options: handlers::member_or_null(v, "initializationOptions"@),
                virtual_file: optional_string(v, "orgBabelVirtualFile"@)->0,
                triggers: optional_strings(v, "completionTriggerCharacters"@)->0,
            },
        )
    }
}

/// The configuration that a JSON value holds.
pub open spec fn server_config(v: Jv) -> Result<Server, ConfigError> {
    match with_names(v, server_fields()) {
        Some(o) => server_of(o),
        None => Err(ConfigError::NotAnObject),
    }
}

/// An optional string as JSON.
pub open spec fn opt_json(s: Option<Seq<char>>) -> Jv {
    match s {
        Some(s) => Jv::Str(s),
        None => Jv::Null,
    }
}

/// Optional strings as JSON.
pub open spec fn opt_array(v: Option<Seq<Seq<char>>>) -> Jv {
    match v {
        Some(v) => Jv::Array(handlers::strings(v)),
        None => Jv::Null,
    }
}

/// The members of a configuration's JSON object.
pub open spec fn server_members(s: Server) -> Seq<(Seq<char>, Jv)> {
    seq![
        ("name"@, Jv::Str(s.name)),
        ("languageId"@, Jv::Str(s.language_id)),
        ("command"@, Jv::Array(handlers::strings(s.command))),
        ("settings"@, s.settings),
        ("projectFiles"@, Jv::Array(handlers::strings(s.project_files))),
        ("support-single-file"@, Jv::Bool(s.single_file)),
        ("capabilities"@, s.capabilities),
        ("initializationOptions"@, s.options),
        ("orgBabelVirtualFile"@, opt_json(s.virtual_file)),
        ("completionTriggerCharacters"@, opt_array(s.triggers)),
    ]
}

fn opt_string_value(s: &Option<String>) -> (r: Json)
    ensures
        r@ == opt_json(opt_text(*s)),
{
    match s {
        Some(s) => Json::str(s.as_str()),
        None => Json::Null,
    }
}

fn opt_strings_value(v: &Option<Vec<String>>) -> (r: Json)
    ensures
        r@ == opt_array(opt_texts(*v)),
{
    match v {
        Some(v) => handlers::string_array(v),
        None => Json::Null,
    }
}

fn read_server(v: &Json) -> (r: Result<ServerConfig, ConfigError>)
    ensures
        match server_of(v@) {
            Ok(s) => r is Ok && r->Ok_0@ == s,
            Err(e) => r == Err::<ServerConfig, ConfigError>(e),
        },
{
    let name = match get_string(v, "name") {
        Some(s) => s,
        None => return Err(ConfigError::Field("name")),
    };
    let language_id = match get_string(v, "languageId") {
        Some(s) => s,
        None => return Err(ConfigError::Field("languageId")),
    };
    let command = match get_strings(v, "command") {
        Some(s) => s,
        None => return Err(ConfigError::Field("command")),
    };
    let project_files = match get_strings_or_empty(v, "projectFiles") {
        Some(s) => s,
        None => return Err(ConfigError::Field("projectFiles")),
    };
    let support_single_file = match get_bool_or_false(v, "support-single-file") {
        Some(b) => b,
        None => return Err(ConfigError::Field("support-single-file")),
    };
    let org_babel_virtual_file = match get_optional_string(v, "orgBabelVirtualFile") {
        Some(s) => s,
        None => return Err(ConfigError::Field("orgBabelVirtualFile")),
    };
    let completion_trigger_characters = match get_optional_strings(
        v,
        "completionTriggerCharacters",
    ) {
        Some(s) => s,
        None => return Err(ConfigError::Field("completionTriggerCharacters")),
    };
    Ok(
        ServerConfig {
            name,
            language_id,
            command,
            settings: handlers::get_or_null(v, "settings"),
            project_files,
            support_single_file,
            capabilities: handlers::get_or_null(v, "capabilities"),
            initialization_options: handlers::get_or_null(v, "initializationOptions"),
            org_babel_virtual_file,
            completion_trigger_characters,
        },
    )
}

fn server_names() -> (r: Vec<&'static str>)
    ensures
        name_texts(r@) == server_fields(),
{
    let mut names: Vec<&'static str> = Vec::new();
    names.push("name");
    names.push("languageId");
    names.push("command");
    names.push("settings");
    names.push("projectFiles");
    names.push("support-single-file");
    names.push("capabilities");
    names.push("initializationOptions");
    names.push("orgBabelVirtualFile");
    names.push("completionTriggerCharacters");
    assert(name_texts(names@) =~= server_fields());
    names
}

impl ServerConfig {
    /// The configuration that a JSON value holds.
    pub fn from_json(v: &Json) -> (r: Result<ServerConfig, ConfigError>)
        ensures
            match server_config(v@) {
                Ok(s) => r is Ok && r->Ok_0@ == s,
                Err(e) => r == Err::<ServerConfig, ConfigError>(e),
            },
    {
        let names = server_names();
        match name_fields(v, &names) {
            Some(o) => read_server(&o),
            None => Err(ConfigError::NotAnObject),
        }
    }

    /// The configuration as a JSON object.
    pub fn to_json(&self) -> (r: Json)
        ensures
            r@ == handlers::obj(server_members(self@)),
    {
        let mut members: Vec<(String, Json)> = Vec::new();
        members.push(json::field("name", Json::str(self.name.as_str())));
        members.push(json::field("languageId", Json::str(self.language_id.as_str())));
        members.push(json::field("command", handlers::string_array(&self.command)));
        members.push(json::field("settings", self.settings.clone()));
        members.push(json::field("projectFiles", handlers::string_array(&self.project_files)));
        members.push(json::field("support-single-file", Json::Bool(self.support_single_file)));
        members.push(json::field("capabilities", self.capabilities.clone()));
        members.push(json::field("initializationOptions", self.initialization_options.clone()));
        members.push(
            json::field("orgBabelVirtualFile", opt_string_value(&self.org_babel_virtual_file)),
        );
        members.push(
            json::field(
                "completionTriggerCharacters",
                opt_strings_value(&self.completion_trigger_characters),
            ),
        );
        assert(json::entry_models(members@) =~= server_members(self@));
        Json::from_members(members)
    }
}

/// What tells the fields' names apart: their length and their first character.
spec fn field_key(s: Seq<char>) -> (nat, char) {
    (s.len(), s[0])
}

proof fn lemma_server_keys(s: Server)
    ensures
        json::distinct_keys(server_members(s)),
{
    reveal_strlit("name");
    reveal_strlit("languageId");
    reveal_strlit("command");
    reveal_strlit("settings");
    reveal_strlit("projectFiles");
    reveal_strlit("support-single-file");
    reveal_strlit("capabilities");
    reveal_strlit("initializationOptions");
    reveal_strlit("orgBabelVirtualFile");
    reveal_strlit("completionTriggerCharacters");
    let m = server_members(s);
    assert(field_key(m[0].0) == (4nat, 'n'));
    assert(field_key(m[1].0) == (10nat, 'l'));
    assert(field_key(m[2].0) == (7nat, 'c'));
    assert(field_key(m[3].0) == (8nat, 's'));
    assert(field_key(m[4].0) == (12nat, 'p'));
    assert(field_key(m[5].0) == (19nat, 's'));
    assert(field_key(m[6].0) == (12nat, 'c'));
    assert(field_key(m[7].0) == (21nat, 'i'));
    assert(field_key(m[8].0) == (19nat, 'o'));
    assert(field_key(m[9].0) == (27nat, 'c'));
    assert forall|i: int, j: int| 0 <= i < j < m.len() implies (#[trigger] m[i]).0 != (
    #[trigger] m[j]).0 by {
        assert(field_key(m[i].0) != field_key(m[j].0));
    }
}

proof fn lemma_all_strings(v: Seq<Seq<char>>)
    ensures
        all_strings(Jv::Array(handlers::strings(v))) == Some(v),
{
    let a = handlers::strings(v);
    assert(Seq::new(a.len(), |i: int| a[i]->Str_0) =~= v);
}

/// Reading the JSON object of a configuration gives the configuration back.
pub proof fn law_server_config_round_trip(s: Server)
    ensures
        server_config(handlers::obj(server_members(s))) == Ok::<Server, ConfigError>(s),
{
    let m = server_members(s);
    lemma_server_keys(s);
    jsonrpc::lemma_object_member(m, 0);
    jsonrpc::lemma_object_member(m, 1);
    jsonrpc::lemma_object_member(m, 2);
    jsonrpc::lemma_object_member(m, 3);
    jsonrpc::lemma_object_member(m, 4);
    jsonrpc::lemma_object_member(m, 5);
    jsonrpc::lemma_object_member(m, 6);
    jsonrpc::lemma_object_member(m, 7);
    jsonrpc::lemma_object_member(m, 8);
    jsonrpc::lemma_object_member(m, 9);
    lemma_all_strings(s.command);
    lemma_all_strings(s.project_files);
    if s.triggers is Some {
        lemma_all_strings(s.triggers->0);
    }
}

// ---------------------------------------------------------------------------
// Several servers
// ---------------------------------------------------------------------------

/// A multi-server target: either a single server name or a list of names.
#[derive(Debug, PartialEq, Eq)]
pub enum MultiServerTarget {
    Single(String),
    Multiple(Vec<String>),
}

/// The mathematical value of a [`MultiServerTarget`].
pub enum Target {
    Single(Seq<char>),
    Multiple(Seq<Seq<char>>),
}

impl View for MultiServerTarget {
    type V = Target;

    open spec fn view(&self) -> Target {
        match *self {
            MultiServerTarget::Single(s) => Target::Single(s@),
            MultiServerTarget::Multiple(v) => Target::Multiple(text::texts(v@)),
        }
    }
}

/// The server names of a target.
pub open spec fn target_names(t: Target) -> Seq<Seq<char>> {
    match t {
        Target::Single(s) => seq![s],
        Target::Multiple(v) => v,
    }
}

/// The characters of each name.
pub open spec fn slice_texts(v: Seq<&str>) -> Seq<Seq<char>> {
    Seq::new(v.len(), |i: int| v[i]@)
}

impl MultiServerTarget {
    /// Get the server names as a list.
    pub fn names(&self) -> (r: Vec<&str>)
        ensures
            slice_texts(r@) == target_names(self@),
    {
        let mut r: Vec<&str> = Vec::new();
        match self {
            MultiServerTarget::Single(s) => {
                r.push(s.as_str());
            },
            MultiServerTarget::Multiple(v) => {
                let mut i: usize = 0;
                while i < v.len()
                    invariant
                        i <= v@.len(),
                        r@.len() == i,
                        forall|j: int| 0 <= j < i ==> (#[trigger] r@[j])@ == v@[j]@,
                    decreases v@.len() - i,
                {
                    r.push(v[i].as_str());
                    i = i + 1;
                }
            },
        }
        assert(slice_texts(r@) =~= target_names(self@));
        r
    }
}

/// Configuration for multi-server setups.
#[derive(Debug, PartialEq, Eq)]
pub struct MultiServerConfig {
    /// Default server for methods not explicitly mapped
    pub default: String,
    /// Server(s) for diagnostics
    pub diagnostics: Option<MultiServerTarget>,
    /// Server(s) for code actions
    pub code_action: Option<MultiServerTarget>,
    /// Server(s) for execute_command
    pub execute_command: Option<MultiServerTarget>,
    /// Server for formatting
    pub formatting: Option<MultiServerTarget>,
    /// Server(s) for completion
    pub completion: Option<MultiServerTarget>,
    /// Server for find_define (go to definition)
    pub find_define: Option<MultiServerTarget>,
    /// Server for find_references
    pub find_references: Option<MultiServerTarget>,
    /// Server for rename
    pub rename: Option<MultiServerTarget>,
    /// Server for hover
    pub hover: Option<MultiServerTarget>,
}

/// The mathematical value of a [`MultiServerConfig`].
pub struct MultiServer {
    pub default: Seq<char>,
    pub diagnostics: Option<Target>,
    pub code_action: Option<Target>,
    pub execute_command: Option<Target>,
    pub formatting: Option<Target>,
    pub completion: Option<Target>,
    pub find_define: Option<Target>,
    pub find_references: Option<Target>,
    pub rename: Option<Target>,
    pub hover: Option<Target>,
}

/// The value of an optional target.
pub open spec fn opt_target(t: Option<MultiServerTarget>) -> Option<Target> {
    match t {
        Some(t) => Some(t@),
        None => None,
    }
}

impl View for MultiServerConfig {
    type V = MultiServer;

    open spec fn view(&self) -> MultiServer {
        MultiServer {
            default: self.default@,
            diagnostics: opt_target(self.diagnostics),
            code_action: opt_target(self.code_action),
            execute_command: opt_target(self.execute_command),
            formatting: opt_target(self.formatting),
            completion: opt_target(self.completion),
            find_define: opt_target(self.find_define),
            find_references: opt_target(self.find_references),
            rename: opt_target(self.rename),
            hover: opt_target(self.hover),
        }
    }
}

/// A field that may be missing or null, else is a name or an array of names.
pub open spec fn target_field(v: Jv, key: Seq<char>) -> Option<Option<Target>> {
    match handlers::member_or_null(v, key) {
        Jv::Null => Some(None),
        Jv::Str(s) => Some(Some(Target::Single(s))),
        m => match all_strings(m) {
            Some(names) => Some(Some(Target::Multiple(names))),
            None => None,
        },
    }
}

fn get_target(v: &Json, key: &str) -> (r: Option<Option<MultiServerTarget>>)
    ensures
        match target_field(v@, key@) {
            Some(t) => r is Some && opt_target(r->0) == t,
            None => r is None,
        },
{
    let m = handlers::get_or_null(v, key);
    if m.is_null() {
        return Some(None);
    }
    match m.as_str() {
        Some(s) => return Some(Some(MultiServerTarget::Single(s.to_string()))),
        None => {},
    }
    match check_all_strings(&m) {
        Some(names) => Some(Some(MultiServerTarget::Multiple(names))),
        None => None,
    }
}

/// The fields of a multi-server configuration, in their order.
pub open spec fn multi_server_fields() -> Seq<Seq<char>> {
    seq![
        "default"@,
        "diagnostics"@,
        "code_action"@,
        "execute_command"@,
        "formatting"@,
        "completion"@,
        "find_define"@,
        "find_references"@,
        "rename"@,
        "hover"@,
    ]
}

/// The multi-server configuration that an object holds, or the first field in the way.
pub open spec fn multi_server_of(v: Jv) -> Result<MultiServer, ConfigError> {
    if string_field(v, "default"@) is None {
        Err(ConfigError::Field("default"))
    } else if target_field(v, "diagnostics"@) is None {
        Err(ConfigError::Field("diagnostics"))
    } else if target_field(v, "code_action"@) is None {
        Err(ConfigError::Field("code_action"))
    } else if target_field(v, "execute_command"@) is None {
        Err(ConfigError::Field("execute_command"))
    } else if target_field(v, "formatting"@) is None {
        Err(ConfigError::Field("formatting"))
    } else if target_field(v, "completion"@) is None {
        Err(ConfigError::Field("completion"))
    } else if target_field(v, "find_define"@) is None {
        Err(ConfigError::Field("find_define"))
    } else if target_field(v, "find_references"@) is None {
        Err(ConfigError::Field("find_references"))
    } else if target_field(v, "rename"@) is None {
        Err(ConfigError::Field("rename"))
    } else if target_field(v, "hover"@) is None {
        Err(ConfigError::Field("hover"))
    } else {
        Ok(
            MultiServer {
                default: string_field(v, "default"@)->0,
                diagnostics: target_field(v, "diagnostics"@)->0,
                code_action: target_field(v, "code_action"@)->0,
                execute_command: target_field(v, "execute_command"@)->0,
                formatting: target_field(v, "formatting"@)->0,
                completion: target_field(v, "completion"@)->0,
                find_define: target_field(v, "find_define"@)->0,
                find_references: target_field(v, "find_references"@)->0,
                rename: target_field(v, "rename"@)->0,
                hover: target_field(v, "hover"@)->0,
            },
        )
    }
}

/// The multi-server configuration that a JSON value holds.
pub open spec fn multi_server_config(v: Jv) -> Result<MultiServer, ConfigError> {
    match with_names(v, multi_server_fields()) {
        Some(o) => multi_server_of(o),
        None => Err(ConfigError::NotAnObject),
    }
}

fn need_target(v: &Json, key: &'static str) -> (r: Result<Option<MultiServerTarget>, ConfigError>)
    ensures
        match target_field(v@, key@) {
            Some(t) => r is Ok && opt_target(r->Ok_0) == t,
            None => r == Err::<Option<MultiServerTarget>, ConfigError>(ConfigError::Field(key)),
        },
{
    match get_target(v, key) {
        Some(t) => Ok(t),
        None => Err(ConfigError::Field(key)),
    }
}

fn multi_server_names() -> (r: Vec<&'static str>)
    ensures
        name_texts(r@) == multi_server_fields(),
{
    let mut names: Vec<&'static str> = Vec::new();
    names.push("default");
    names.push("diagnostics");
    names.push("code_action");
    names.push("execute_command");
    names.push("formatting");
    names.push("completion");
    names.push("find_define");
    names.push("find_references");
    names.push("rename");
    names.push("hover");
    assert(name_texts(names@) =~= multi_server_fields());
    names
}

fn read_multi_server(o: &Json) -> (r: Result<MultiServerConfig, ConfigError>)
    ensures
        match multi_server_of(o@) {
            Ok(s) => r is Ok && r->Ok_0@ == s,
            Err(e) => r == Err::<MultiServerConfig, ConfigError>(e),
        },
{
    let default = match get_string(o, "default") {
        Some(s) => s,
        None => return Err(ConfigError::Field("default")),
    };
    let diagnostics = need_target(o, "diagnostics")?;
    let code_action = need_target(o, "code_action")?;
    let execute_command = need_target(o, "execute_command")?;
    let formatting = need_target(o, "formatting")?;
    let completion = need_target(o, "completion")?;
    let find_define = need_target(o, "find_define")?;
    let find_references = need_target(o, "find_references")?;
    let rename = need_target(o, "rename")?;
    let hover = need_target(o, "hover")?;
    Ok(
        MultiServerConfig {
            default,
            diagnostics,
            code_action,
            execute_command,
            formatting,
            completion,
            find_define,
            find_references,
            rename,
            hover,
        },
    )
}

impl MultiServerConfig {
    /// The multi-server configuration that a JSON value holds.
    pub fn from_json(v: &Json) -> (r: Result<MultiServerConfig, ConfigError>)
        ensures
            match multi_server_config(v@) {
                Ok(s) => r is Ok && r->Ok_0@ == s,
                Err(e) => r == Err::<MultiServerConfig, ConfigError>(e),
            },
    {
        let names = multi_server_names();
        match name_fields(v, &names) {
            Some(o) => read_multi_server(&o),
            None => Err(ConfigError::NotAnObject),
        }
    }
}

// ---------------------------------------------------------------------------
// Copies
// ---------------------------------------------------------------------------

impl Clone for ServerConfig {
    fn clone(&self) -> (r: Self)
        ensures
            r@ == self@,
    {
        ServerConfig {
            name: self.name.clone(),
            language_id: self.language_id.clone(),
            command: text::clone_strings(&self.command),
            settings: self.settings.clone(),
            project_files: text::clone_strings(&self.project_files),
            support_single_file: self.support_single_file,
            capabilities: self.capabilities.clone(),
            initialization_options: self.initialization_options.clone(),
            org_babel_virtual_file: match &self.org_babel_virtual_file {
                Some(s) => Some(s.clone()),
                None => None,
            },
            completion_trigger_characters: match &self.completion_trigger_characters {
                Some(v) => Some(text::clone_strings(v)),
                None => None,
            },
        }
    }
}

// ---------------------------------------------------------------------------
// Files of configurations
// ---------------------------------------------------------------------------

/// Why the text of a file is no configuration.
#[derive(Debug, PartialEq, Eq)]
pub enum LoadError {
    /// The text is no JSON value; what is wrong with it.
    Syntax(String),
    /// A field stands in the text more than once.
    Repeated(String),
    /// The JSON value is no configuration.
    Invalid(ConfigError),
}

/// The mathematical value of a [`LoadError`].
pub enum LoadFault {
    Syntax(Seq<char>),
    Repeated(Seq<char>),
    Invalid(ConfigError),
}

impl View for LoadError {
    type V = LoadFault;

    open spec fn view(&self) -> LoadFault {
        match *self {
            LoadError::Syntax(s) => LoadFault::Syntax(s@),
            LoadError::Repeated(s) => LoadFault::Repeated(s@),
            LoadError::Invalid(e) => LoadFault::Invalid(e),
        }
    }
}

/// Whether the key is among those of the members.
pub open spec fn has_key(members: Seq<(Seq<char>, Jv)>, key: Seq<char>) -> bool {
    exists|i: int| 0 <= i < members.len() && (#[trigger] members[i]).0 == key
}

/// The value of a member: what the array that holds it alone reads as.
pub open spec fn member_value(value: Seq<char>) -> Result<Jv, LoadFault> {
    match json::json_read(seq!['['] + value + seq![']']) {
        Ok(Jv::Array(a)) => if a.len() == 1 {
            Ok(a[0])
        } else {
            Err(LoadFault::Invalid(ConfigError::NotAnObject))
        },
        Ok(_) => Err(LoadFault::Invalid(ConfigError::NotAnObject)),
        Err(e) => Err(LoadFault::Syntax(e)),
    }
}

/// The fields among the members: every key is a string, the value of a field is read, and no field
/// stands there twice. The values of other members are passed over.
pub open spec fn fields_among(
    members: Seq<(Seq<char>, Seq<char>)>,
    names: Seq<Seq<char>>,
) -> Result<Seq<(Seq<char>, Jv)>, LoadFault>
    decreases members.len(),
{
    if members.len() == 0 {
        Ok(Seq::empty())
    } else {
        match fields_among(members.drop_last(), names) {
            Ok(before) => match json::json_read(members.last().0) {
                Ok(Jv::Str(key)) => if !names.contains(key) {
                    Ok(before)
                } else if has_key(before, key) {
                    Err(LoadFault::Repeated(key))
                } else {
                    match member_value(members.last().1) {
                        Ok(v) => Ok(before.push((key, v))),
                        Err(e) => Err(e),
                    }
                },
                Ok(_) => Err(LoadFault::Invalid(ConfigError::NotAnObject)),
                Err(e) => Err(LoadFault::Syntax(e)),
            },
            Err(e) => Err(e),
        }
    }
}

/// The object of the fields that a text holds; an array holds them in their order.
pub open spec fn fields_of(content: Seq<char>, names: Seq<Seq<char>>) -> Result<Jv, LoadFault> {
    match members::members_of(content) {
        Some(all) => match json::json_fault(content) {
            Some(e) => Err(LoadFault::Syntax(e)),
            None => match fields_among(all, names) {
                Ok(fields) => Ok(handlers::obj(fields)),
                Err(e) => Err(e),
            },
        },
        None => match json::json_read(content) {
            Ok(v) => match with_names(v, names) {
                Some(o) => Ok(o),
                None => Err(LoadFault::Invalid(ConfigError::NotAnObject)),
            },
            Err(e) => Err(LoadFault::Syntax(e)),
        },
    }
}

fn find_key(fields: &Vec<(String, Json)>, key: &str) -> (r: bool)
    ensures
        r == has_key(json::entry_models(fields@), key@),
{
    let ghost all = json::entry_models(fields@);
    let mut i: usize = 0;
    while i < fields.len()
        invariant
            all == json::entry_models(fields@),
            i <= fields@.len(),
            forall|j: int| 0 <= j < i ==> (#[trigger] all[j]).0 != key@,
        decreases fields@.len() - i,
    {
        assert(all[i as int].0 == fields@[i as int].0@);
        if text::str_eq(fields[i].0.as_str(), key) {
            return true;
        }
        i = i + 1;
    }
    false
}

fn find_name(names: &Vec<&'static str>, key: &str) -> (r: bool)
    ensures
        r == name_texts(names@).contains(key@),
{
    let ghost all = name_texts(names@);
    let mut i: usize = 0;
    while i < names.len()
        invariant
            all == name_texts(names@),
            i <= names@.len(),
            forall|j: int| 0 <= j < i ==> (#[trigger] all[j]) != key@,
        decreases names@.len() - i,
    {
        assert(all[i as int] == names@[i as int]@);
        if text::str_eq(names[i], key) {
            return true;
        }
        i = i + 1;
    }
    false
}

fn read_member(value: &str) -> (r: Result<Json, LoadError>)
    ensures
        match member_value(value@) {
            Ok(v) => r is Ok && r->Ok_0@ == v,
            Err(e) => r is Err && r->Err_0@ == e,
        },
{
    let mut alone = String::new();
    alone.push('[');
    alone.append(value);
    alone.push(']');
    assert(alone@ =~= seq!['['] + value@ + seq![']']);
    match Json::parse(alone.as_str()) {
        Ok(v) => match v.as_array() {
            Some(a) => if a.len() == 1 {
                assert(json::models(a@)[0] == a@[0]@);
                Ok(a[0].clone())
            } else {
                Err(LoadError::Invalid(ConfigError::NotAnObject))
            },
            None => Err(LoadError::Invalid(ConfigError::NotAnObject)),
        },
        Err(e) => Err(LoadError::Syntax(e)),
    }
}

fn read_fields(members: &Vec<(String, String)>, names: &Vec<&'static str>) -> (r: Result<
    Vec<(String, Json)>,
    LoadError,
>)
    ensures
        match fields_among(members::member_texts(members@), name_texts(names@)) {
            Ok(fields) => r is Ok && json::entry_models(r->Ok_0@) == fields,
            Err(e) => r is Err && r->Err_0@ == e,
        },
{
    let ghost all = members::member_texts(members@);
    let ghost known = name_texts(names@);
    let mut fields: Vec<(String, Json)> = Vec::new();
    let mut i: usize = 0;
    assert(all.take(0) =~= Seq::empty());
    assert(json::entry_models(fields@) =~= Seq::empty());
    while i < members.len()
        invariant
            all == members::member_texts(members@),
            known == name_texts(names@),
            i <= members@.len(),
            fields_among(all.take(i as int), known) == Ok::<Seq<(Seq<char>, Jv)>, LoadFault>(
                json::entry_models(fields@),
            ),
        decreases members@.len() - i,
    {
        let ghost next = all.take(i + 1);
        let ghost before = json::entry_models(fields@);
        assert(next.drop_last() =~= all.take(i as int));
        assert(next.last() == all[i as int]);
        let key = match Json::parse(members[i].0.as_str()) {
            Ok(Json::String(key)) => key,
            Ok(_) => {
                let e = LoadError::Invalid(ConfigError::NotAnObject);
                proof {
                    lemma_fields_stop(all, known, i + 1, e@);
                }
                return Err(e);
            },
            Err(e) => {
                proof {
                    lemma_fields_stop(all, known, i + 1, LoadFault::Syntax(e@));
                }
                return Err(LoadError::Syntax(e));
            },
        };
        if find_name(names, key.as_str()) {
            if find_key(&fields, key.as_str()) {
                proof {
                    lemma_fields_stop(all, known, i + 1, LoadFault::Repeated(key@));
                }
                return Err(LoadError::Repeated(key));
            }
            match read_member(members[i].1.as_str()) {
                Ok(v) => {
                    fields.push((key, v));
                    assert(json::entry_models(fields@) =~= before.push((key@, v@)));
                },
                Err(e) => {
                    proof {
                        lemma_fields_stop(all, known, i + 1, e@);
                    }
                    return Err(e);
                },
            }
        }
        i = i + 1;
    }
    assert(all.take(i as int) =~= all);
    Ok(fields)
}

/// What is wrong with the first members is wrong with all.
proof fn lemma_fields_stop(
    members: Seq<(Seq<char>, Seq<char>)>,
    names: Seq<Seq<char>>,
    i: int,
    e: LoadFault,
)
    requires
        0 <= i <= members.len(),
        fields_among(members.take(i), names) == Err::<Seq<(Seq<char>, Jv)>, LoadFault>(e),
    ensures
        fields_among(members, names) == Err::<Seq<(Seq<char>, Jv)>, LoadFault>(e),
    decreases members.len() - i,
{
    if i < members.len() {
        assert(members.take(i + 1).drop_last() =~= members.take(i));
        lemma_fields_stop(members, names, i + 1, e);
    } else {
        assert(members.take(i) =~= members);
    }
}

fn read_text(content: &str, names: &Vec<&'static str>) -> (r: Result<Json, LoadError>)
    ensures
        match fields_of(content@, name_texts(names@)) {
            Ok(v) => r is Ok && r->Ok_0@ == v,
            Err(e) => r is Err && r->Err_0@ == e,
        },
{
    match members::split(content) {
        Some(all) => match json::text_fault(content) {
            Some(e) => Err(LoadError::Syntax(e)),
            None => match read_fields(&all, names) {
                Ok(fields) => Ok(Json::from_members(fields)),
                Err(e) => Err(e),
            },
        },
        None => match Json::parse(content) {
            Ok(v) => match name_fields(&v, names) {
                Some(o) => Ok(o),
                None => Err(LoadError::Invalid(ConfigError::NotAnObject)),
            },
            Err(e) => Err(LoadError::Syntax(e)),
        },
    }
}

/// The configuration that a text holds, or why it holds none.
pub open spec fn server_text(content: Seq<char>) -> Result<Server, LoadFault> {
    match fields_of(content, server_fields()) {
        Ok(v) => match server_of(v) {
            Ok(s) => Ok(s),
            Err(e) => Err(LoadFault::Invalid(e)),
        },
        Err(e) => Err(e),
    }
}

/// The multi-server configuration that a text holds, or why it holds none.
pub open spec fn multi_server_text(content: Seq<char>) -> Result<MultiServer, LoadFault> {
    match fields_of(content, multi_server_fields()) {
        Ok(v) => match multi_server_of(v) {
            Ok(s) => Ok(s),
            Err(e) => Err(LoadFault::Invalid(e)),
        },
        Err(e) => Err(e),
    }
}

/// Load a single server config from the text of its file.
pub fn load_server_config(content: &str) -> (r: Result<ServerConfig, LoadError>)
    ensures
        match server_text(content@) {
            Ok(s) => r is Ok && r->Ok_0@ == s,
            Err(e) => r is Err && r->Err_0@ == e,
        },
{
    let names = server_names();
    match read_text(content, &names) {
        Ok(v) => match read_server(&v) {
            Ok(c) => Ok(c),
            Err(e) => Err(LoadError::Invalid(e)),
        },
        Err(e) => Err(e),
    }
}

/// Load a multi-server config from the text of its file.
pub fn load_multi_server_config(content: &str) -> (r: Result<MultiServerConfig, LoadError>)
    ensures
        match multi_server_text(content@) {
            Ok(s) => r is Ok && r->Ok_0@ == s,
            Err(e) => r is Err && r->Err_0@ == e,
        },
{
    let names = multi_server_names();
    match read_text(content, &names) {
        Ok(v) => match read_multi_server(&v) {
            Ok(c) => Ok(c),
            Err(e) => Err(LoadError::Invalid(e)),
        },
        Err(e) => Err(e),
    }
}

/// The name of a file without its extension `.json`, if it has that extension.
pub open spec fn json_stem(name: Seq<char>) -> Option<Seq<char>> {
    if name.len() > 5 && name.skip(name.len() - 5) == ".json"@ {
        Some(name.take(name.len() - 5))
    } else {
        None
    }
}

fn stem(name: &str) -> (r: Option<String>)
    ensures
        match json_stem(name@) {
            Some(s) => r is Some && (r->0)@ == s,
            None => r is None,
        },
{
    proof {
        reveal_strlit(".json");
    }
    let chars = text::to_chars(name);
    let n: usize = chars.len();
    if n <= 5 {
        return None;
    }
    let end = text::to_chars(".json");
    let tail = vstd::slice::slice_subrange(chars.as_slice(), n - 5, n);
    if text::has_prefix(tail, end.as_slice()) {
        assert(tail@ =~= name@.skip(n - 5));
        assert(tail@.take(5) =~= tail@);
        let head = vstd::slice::slice_subrange(chars.as_slice(), 0, n - 5);
        assert(head@ =~= name@.take(n - 5));
        Some(text::from_chars(head))
    } else {
        assert(tail@ =~= name@.skip(n - 5));
        assert(tail@.take(5) =~= tail@);
        None
    }
}

/// A file: its name without the directory, and its text.
#[derive(Debug)]
pub struct ConfigFile {
    pub name: String,
    pub content: String,
}

impl View for ConfigFile {
    type V = (Seq<char>, Seq<char>);

    open spec fn view(&self) -> (Seq<char>, Seq<char>) {
        (self.name@, self.content@)
    }
}

/// The names and texts of the files.
pub open spec fn file_views(v: Seq<ConfigFile>) -> Seq<(Seq<char>, Seq<char>)> {
    Seq::new(v.len(), |i: int| v[i]@)
}

/// The configurations of the files by their names: of the JSON files, those that are valid.
pub open spec fn servers_in(files: Seq<(Seq<char>, Seq<char>)>) -> Seq<(Seq<char>, Server)>
    decreases files.len(),
{
    if files.len() == 0 {
        Seq::empty()
    } else {
        let before = servers_in(files.drop_last());
        let (name, content) = files.last();
        match server_text(content) {
            Ok(s) => if json_stem(name) is Some {
                table::put(before, s.name, s)
            } else {
                before
            },
            Err(_) => before,
        }
    }
}

/// The multi-server configurations of the files by the files' names: of the JSON files, those
/// that are valid.
pub open spec fn multi_servers_in(files: Seq<(Seq<char>, Seq<char>)>) -> Seq<
    (Seq<char>, MultiServer),
>
    decreases files.len(),
{
    if files.len() == 0 {
        Seq::empty()
    } else {
        let before = multi_servers_in(files.drop_last());
        let (name, content) = files.last();
        match (json_stem(name), multi_server_text(content)) {
            (Some(stem), Ok(s)) => table::put(before, stem, s),
            _ => before,
        }
    }
}

/// Load all server configs of a directory's files.
pub fn load_all_server_configs(files: &Vec<ConfigFile>) -> (r: Table<ServerConfig>)
    ensures
        r@ == servers_in(file_views(files@)),
{
    let ghost all = file_views(files@);
    let mut configs: Table<ServerConfig> = Table::new();
    let mut i: usize = 0;
    assert(all.take(0) =~= Seq::<(Seq<char>, Seq<char>)>::empty());
    while i < files.len()
        invariant
            all == file_views(files@),
            i <= files@.len(),
            configs@ == servers_in(all.take(i as int)),
        decreases files@.len() - i,
    {
        assert(all.take(i + 1).drop_last() =~= all.take(i as int));
        assert(all.take(i + 1).last() == all[i as int]);
        if stem(files[i].name.as_str()).is_some() {
            match load_server_config(files[i].content.as_str()) {
                Ok(config) => {
                    let name = config.name.clone();
                    configs.insert(name, config);
                },
                Err(_) => {},
            }
        }
        i = i + 1;
    }
    assert(all.take(i as int) =~= all);
    configs
}

/// Load all multi-server configs of a directory's files.
pub fn load_all_multi_server_configs(files: &Vec<ConfigFile>) -> (r: Table<MultiServerConfig>)
    ensures
        r@ == multi_servers_in(file_views(files@)),
{
    let ghost all = file_views(files@);
    let mut configs: Table<MultiServerConfig> = Table::new();
    let mut i: usize = 0;
    assert(all.take(0) =~= Seq::<(Seq<char>, Seq<char>)>::empty());
    while i < files.len()
        invariant
            all == file_views(files@),
            i <= files@.len(),
            configs@ == multi_servers_in(all.take(i as int)),
        decreases files@.len() - i,
    {
        assert(all.take(i + 1).drop_last() =~= all.take(i as int));
        assert(all.take(i + 1).last() == all[i as int]);
        match stem(files[i].name.as_str()) {
            Some(name) => match load_multi_server_config(files[i].content.as_str()) {
                Ok(config) => {
                    configs.insert(name, config);
                },
                Err(_) => {},
            },
            None => {},
        }
        i = i + 1;
    }
    assert(all.take(i as int) =~= all);
    configs
}

// ---------------------------------------------------------------------------
// Choosing a server
// ---------------------------------------------------------------------------

/// The language of the files with an extension; an unknown extension names its language itself.
pub open spec fn language_of(extension: Seq<char>) -> Seq<char> {
    if extension == "py"@ {
        "python"@
    } else if extension == "rs"@ {
        "rust"@
    } else if extension == "js"@ || extension == "jsx"@ {
        "javascript"@
    } else if extension == "ts"@ || extension == "tsx"@ {
        "typescript"@
    } else if extension == "c"@ || extension == "h"@ {
        "c"@
    } else if extension == "cpp"@ || extension == "cc"@ || extension == "cxx"@ || extension
        == "hpp"@ {
        "c++"@
    } else if extension == "el"@ {
        "emacs-lisp"@
    } else if extension == "rb"@ {
        "ruby"@
    } else if extension == "sh"@ {
        "bash"@
    } else if extension == "yml"@ {
        "yaml"@
    } else {
        extension
    }
}

/// The language id of the files with an extension.
pub fn language_id(extension: &str) -> (r: String)
    ensures
        r@ == language_of(extension@),
{
    let language: &str = if text::str_eq(extension, "py") {
        "python"
    } else if text::str_eq(extension, "rs") {
        "rust"
    } else if text::str_eq(extension, "js") || text::str_eq(extension, "jsx") {
        "javascript"
    } else if text::str_eq(extension, "ts") || text::str_eq(extension, "tsx") {
        "typescript"
    } else if text::str_eq(extension, "c") || text::str_eq(extension, "h") {
        "c"
    } else if text::str_eq(extension, "cpp") || text::str_eq(extension, "cc") || text::str_eq(
        extension,
        "cxx",
    ) || text::str_eq(extension, "hpp") {
        "c++"
    } else if text::str_eq(extension, "el") {
        "emacs-lisp"
    } else if text::str_eq(extension, "rb") {
        "ruby"
    } else if text::str_eq(extension, "sh") {
        "bash"
    } else if text::str_eq(extension, "yml") {
        "yaml"
    } else {
        extension
    };
    language.to_string()
}

/// The first configuration for a language.
pub open spec fn server_for(configs: Seq<(Seq<char>, Server)>, language: Seq<char>) -> Option<
    Server,
>
    decreases configs.len(),
{
    if configs.len() == 0 {
        None
    } else if configs[0].1.language_id == language {
        Some(configs[0].1)
    } else {
        server_for(configs.skip(1), language)
    }
}

/// Find a server config for the given file extension.
pub fn find_server_config<'a>(configs: &'a Table<ServerConfig>, extension: &str) -> (r: Option<
    &'a ServerConfig,
>)
    ensures
        match server_for(configs@, language_of(extension@)) {
            Some(s) => r is Some && (r->0)@ == s,
            None => r is None,
        },
{
    let language = language_id(extension);
    let mut i: usize = 0;
    assert(configs@.skip(0) =~= configs@);
    while i < configs.len()
        invariant
            i <= configs@.len(),
            language@ == language_of(extension@),
            server_for(configs@, language@) == server_for(configs@.skip(i as int), language@),
        decreases configs@.len() - i,
    {
        let (_, config) = configs.entry(i);
        assert(configs@.skip(i as int)[0] == configs@[i as int]);
        if text::str_eq(config.language_id.as_str(), language.as_str()) {
            return Some(config);
        }
        assert(configs@.skip(i as int).skip(1) =~= configs@.skip(i + 1));
        i = i + 1;
    }
    None
}

} // verus!
