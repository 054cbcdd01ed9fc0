//! LSP request handlers.
//!
//! Each handler maps a method that Emacs calls to an LSP method: it builds the parameters of the
//! request from what Emacs sent, and turns the server's response into calls for Emacs.

pub mod call_hierarchy;
pub mod code_action;
pub mod completion;
pub mod completion_item;
pub mod diagnostic;
pub mod document_highlight;
pub mod document_symbol;
pub mod execute_command;
pub mod find_define;
pub mod formatting;
pub mod hover;
pub mod inlay_hint;
pub mod laws;
pub mod registry;
pub mod rename;
pub mod semantic_tokens;
pub mod signature_help;
pub mod workspace_symbol;

use crate::json;
use crate::json::{Json, Jv};
use crate::jsonrpc;
use crate::text;
use vstd::prelude::*;

verus! {

/// LSP CompletionItemKind to display string: the index is the kind.
pub const KIND_MAP: [&'static str; 26] = [
    "",
    "Text",
    "Method",
    "Function",
    "Constructor",
    "Field",
    "Variable",
    "Class",
    "Interface",
    "Module",
    "Property",
    "Unit",
    "Value",
    "Enum",
    "Keyword",
    "Snippet",
    "Color",
    "File",
    "Reference",
    "Folder",
    "EnumMember",
    "Constant",
    "Struct",
    "Event",
    "Operator",
    "TypeParameter",
];

/// LSP SymbolKind to display string: the index is the kind.
pub const SYMBOL_MAP: [&'static str; 27] = [
    "",
    "File",
    "Module",
    "Namespace",
    "Package",
    "Class",
    "Method",
    "Property",
    "Field",
    "Constructor",
    "Enum",
    "Interface",
    "Function",
    "Variable",
    "Constant",
    "String",
    "Number",
    "Boolean",
    "Array",
    "Object",
    "Key",
    "Null",
    "EnumMember",
    "Struct",
    "Event",
    "Operator",
    "TypeParameter",
];

/// The name of a completion item's kind; empty for an unknown one.
pub open spec fn kind_text(kind: u64) -> Seq<char> {
    if kind < 26 {
        KIND_MAP[kind as int]@
    } else {
        ""@
    }
}

/// Get the kind string for a CompletionItemKind value.
pub fn kind_name(kind: u64) -> (r: &'static str)
    ensures
        r@ == kind_text(kind),
{
    if kind < 26 {
        KIND_MAP[kind as usize]
    } else {
        ""
    }
}

/// Context passed to process_request.
#[derive(Debug)]
pub struct RequestContext {
    /// Arguments from Emacs (varies per handler).
    pub args: Vec<Json>,
    /// Server name for this request.
    pub server_name: String,
    /// Completion trigger characters from server capabilities.
    pub trigger_characters: Vec<String>,
    /// Server info from config.
    pub server_info: Json,
}

/// The mathematical value of a [`RequestContext`].
pub struct Request {
    pub args: Seq<Jv>,
    pub server_name: Seq<char>,
    pub trigger_characters: Seq<Seq<char>>,
    pub server_info: Jv,
}

impl View for RequestContext {
    type V = Request;

    open spec fn view(&self) -> Request {
        Request {
            args: json::models(self.args@),
            server_name: self.server_name@,
            trigger_characters: text::texts(self.trigger_characters@),
            server_info: self.server_info@,
        }
    }
}

/// Context passed to process_response.
#[derive(Debug)]
pub struct ResponseContext {
    /// File path being operated on.
    pub filepath: String,
    /// LSP file host (for remote connections).
    pub host: String,
    /// Server name.
    pub server_name: String,
    /// Trigger characters.
    pub trigger_characters: Vec<String>,
    /// All server names for this file.
    pub server_names: Vec<String>,
}

/// The mathematical value of a [`ResponseContext`].
pub struct Response {
    pub filepath: Seq<char>,
    pub host: Seq<char>,
    pub server_name: Seq<char>,
    pub trigger_characters: Seq<Seq<char>>,
    pub server_names: Seq<Seq<char>>,
}

impl View for ResponseContext {
    type V = Response;

    open spec fn view(&self) -> Response {
        Response {
            filepath: self.filepath@,
            host: self.host@,
            server_name: self.server_name@,
            trigger_characters: text::texts(self.trigger_characters@),
            server_names: text::texts(self.server_names@),
        }
    }
}

/// What Emacs is asked to do.
#[derive(Debug, PartialEq, Eq)]
pub enum EmacsCall {
    /// Call a function with these arguments.
    Eval { method: String, args: Vec<Json> },
    /// Show a message.
    Message(String),
}

/// The mathematical value of an [`EmacsCall`].
#[verifier::ext_equal]
pub enum Call {
    Eval { method: Seq<char>, args: Seq<Jv> },
    Message(Seq<char>),
}

impl View for EmacsCall {
    type V = Call;

    open spec fn view(&self) -> Call {
        match *self {
            EmacsCall::Eval { method, args } => Call::Eval {
                method: method@,
                args: json::models(args@),
            },
            EmacsCall::Message(s) => Call::Message(s@),
        }
    }
}

/// The mathematical values of the calls.
pub open spec fn calls(v: Seq<EmacsCall>) -> Seq<Call> {
    Seq::new(v.len(), |i: int| v[i]@)
}

/// Why a request cannot be built.
#[derive(Debug, PartialEq, Eq)]
pub enum HandlerError {
    /// The completion item to resolve is not among the arguments.
    MissingCompletionItem,
}

impl HandlerError {
    /// The message of the error.
    pub fn to_string(&self) -> (r: String)
        ensures
            r@ == "missing completion item"@,
    {
        String::from_str("missing completion item")
    }
}

/// A request handler.
///
/// Each handler is stateless; what a request needs is passed in its context.
pub trait Handler {
    spec fn name_text(&self) -> Seq<char>;

    spec fn method_text(&self) -> Seq<char>;

    spec fn cancels(&self) -> bool;

    spec fn sends_uri(&self) -> bool;

    spec fn request(&self, ctx: Request) -> Result<Jv, HandlerError>;

    spec fn response(&self, ctx: Response, response: Jv) -> Seq<Call>;

    /// Name used by Emacs to call this handler (e.g., "completion").
    fn name(&self) -> (r: &'static str)
        ensures
            r@ == self.name_text(),
    ;

    /// LSP method name (e.g., "textDocument/completion").
    fn method(&self) -> (r: &'static str)
        ensures
            r@ == self.method_text(),
    ;

    /// Whether to discard the response if the file or cursor changed.
    fn cancel_on_change(&self) -> (r: bool)
        ensures
            r == self.cancels(),
    ;

    /// Whether to auto-add textDocument.uri to request params.
    fn send_document_uri(&self) -> (r: bool)
        ensures
            r == self.sends_uri(),
    ;

    /// Build LSP request params from the arguments received from Emacs.
    fn process_request(&self, ctx: &RequestContext) -> (r: Result<Json, HandlerError>)
        ensures
            match self.request(ctx@) {
                Ok(v) => r is Ok && r->Ok_0@ == v,
                Err(e) => r == Err::<Json, HandlerError>(e),
            },
    ;

    /// The calls for Emacs that the server's response leads to.
    fn process_response(&self, ctx: &ResponseContext, response: Json) -> (r: Vec<EmacsCall>)
        ensures
            calls(r@) == self.response(ctx@, response@),
    ;
}

// ---------------------------------------------------------------------------
// Staleness
// ---------------------------------------------------------------------------

/// Per-request handler state for staleness checking.
#[derive(Debug)]
pub struct HandlerState {
    pub latest_request_id: i64,
    pub last_change_file_time: u64,
    pub last_change_cursor_time: u64,
}

impl HandlerState {
    pub fn new() -> (r: Self)
        ensures
            r.latest_request_id == -1,
            r.last_change_file_time == 0,
            r.last_change_cursor_time == 0,
    {
        HandlerState {
            latest_request_id: -1,
            last_change_file_time: 0,
            last_change_cursor_time: 0,
        }
    }

    /// Record the current request ID and change times.
    pub fn record(&mut self, request_id: i64, file_time: u64, cursor_time: u64)
        ensures
            final(self).latest_request_id == request_id,
            final(self).last_change_file_time == file_time,
            final(self).last_change_cursor_time == cursor_time,
    {
        self.latest_request_id = request_id;
        self.last_change_file_time = file_time;
        self.last_change_cursor_time = cursor_time;
    }

    /// Whether a response to the request is still wanted: no newer request was recorded, and,
    /// where changes cancel it, neither the file nor the cursor changed since.
    pub open spec fn fresh(
        self,
        request_id: i64,
        cancel_on_change: bool,
        file_time: u64,
        cursor_time: u64,
    ) -> bool {
        &&& request_id == self.latest_request_id
        &&& cancel_on_change ==> self.last_change_file_time == file_time
            && self.last_change_cursor_time == cursor_time
    }

    /// Check if a response is still fresh (not superseded by a newer request).
    pub fn is_fresh(
        &self,
        request_id: i64,
        cancel_on_change: bool,
        current_file_time: u64,
        current_cursor_time: u64,
    ) -> (r: bool)
        ensures
            r == self.fresh(request_id, cancel_on_change, current_file_time, current_cursor_time),
    {
        if request_id != self.latest_request_id {
            return false;
        }
        if cancel_on_change {
            if self.last_change_file_time != current_file_time || self.last_change_cursor_time
                != current_cursor_time {
                return false;
            }
        }
        true
    }
}

impl Default for HandlerState {
    fn default() -> (r: Self)
        ensures
            r.latest_request_id == -1,
            r.last_change_file_time == 0,
            r.last_change_cursor_time == 0,
    {
        HandlerState::new()
    }
}

/// A response to the recorded request is fresh while nothing changes, and once a request with
/// another id is recorded it never is again.
pub proof fn law_record_is_fresh(
    state: HandlerState,
    later: HandlerState,
    id: i64,
    cancel: bool,
    file_time: u64,
    cursor_time: u64,
)
    requires
        state.latest_request_id == id,
        state.last_change_file_time == file_time,
        state.last_change_cursor_time == cursor_time,
        later.latest_request_id != id,
    ensures
        state.fresh(id, cancel, file_time, cursor_time),
        forall|f: u64, c: u64| !#[trigger] later.fresh(id, cancel, f, c),
{
}

// ---------------------------------------------------------------------------
// Parts that handlers share
// ---------------------------------------------------------------------------

/// The argument at an index, or the default.
pub open spec fn arg_or(args: Seq<Jv>, i: int, default: Jv) -> Jv {
    if 0 <= i < args.len() {
        args[i]
    } else {
        default
    }
}

/// The argument at an index as a text; empty where there is none.
pub open spec fn arg_text(args: Seq<Jv>, i: int) -> Seq<char> {
    match json::as_str(arg_or(args, i, Jv::Null)) {
        Some(s) => s,
        None => ""@,
    }
}

/// The object of the given members.
pub open spec fn obj(members: Seq<(Seq<char>, Jv)>) -> Jv {
    Jv::Object(json::object(members))
}

/// Whether a value is an object with these members and no others.
pub open spec fn made_of(v: Jv, members: Seq<(Seq<char>, Jv)>) -> bool {
    &&& v is Object
    &&& forall|i: int|
        0 <= i < members.len() ==> json::member(v, (#[trigger] members[i]).0) == Some(members[i].1)
    &&& forall|key: Seq<char>|
        (#[trigger] json::member(v, key)) is Some ==> exists|i: int|
            0 <= i < members.len() && (#[trigger] members[i]).0 == key
}

/// An object has the members that it was made of, where no key stands twice, and no others.
pub proof fn lemma_made_of(members: Seq<(Seq<char>, Jv)>)
    requires
        json::distinct_keys(members),
    ensures
        made_of(obj(members), members),
{
    let v = obj(members);
    assert forall|i: int| 0 <= i < members.len() implies json::member(
        v,
        (#[trigger] members[i]).0,
    ) == Some(members[i].1) by {
        jsonrpc::lemma_object_member(members, i);
    }
    assert forall|key: Seq<char>| (#[trigger] json::member(v, key)) is Some implies exists|i: int|
        0 <= i < members.len() && (#[trigger] members[i]).0 == key by {
        if forall|i: int| 0 <= i < members.len() ==> (#[trigger] members[i]).0 != key {
            jsonrpc::lemma_object_no_member(members, key);
        }
    }
}

/// The object of one member.
pub proof fn lemma_made_of_one(key: Seq<char>, value: Jv)
    ensures
        made_of(obj(seq![(key, value)]), seq![(key, value)]),
        json::member(obj(seq![(key, value)]), key) == Some(value),
{
    lemma_made_of(seq![(key, value)]);
    assert(seq![(key, value)][0].0 == key);
}

/// The object of two members.
pub proof fn lemma_made_of_two(key1: Seq<char>, value1: Jv, key2: Seq<char>, value2: Jv)
    requires
        key1 != key2,
    ensures
        made_of(obj(seq![(key1, value1), (key2, value2)]), seq![(key1, value1), (key2, value2)]),
        json::member(obj(seq![(key1, value1), (key2, value2)]), key1) == Some(value1),
        json::member(obj(seq![(key1, value1), (key2, value2)]), key2) == Some(value2),
{
    let members = seq![(key1, value1), (key2, value2)];
    lemma_made_of(members);
    assert(members[0].0 == key1);
    assert(members[1].0 == key2);
}

/// The object of no member.
pub proof fn lemma_made_of_none()
    ensures
        made_of(obj(seq![]), seq![]),
{
    lemma_made_of(seq![]);
}

/// What a value holds under a key, or null.
pub open spec fn member_or_null(v: Jv, key: Seq<char>) -> Jv {
    match json::member(v, key) {
        Some(m) => m,
        None => Jv::Null,
    }
}

/// What a value holds under a key as a text; empty where there is none.
pub open spec fn member_text(v: Jv, key: Seq<char>) -> Seq<char> {
    match json::as_str(member_or_null(v, key)) {
        Some(s) => s,
        None => ""@,
    }
}

/// One call of a function.
pub open spec fn eval(method: Seq<char>, args: Seq<Jv>) -> Seq<Call> {
    seq![Call::Eval { method, args }]
}

/// One message.
pub open spec fn message(s: Seq<char>) -> Seq<Call> {
    seq![Call::Message(s)]
}

/// The parameters of a request at a position.
pub open spec fn at_position(args: Seq<Jv>) -> Jv {
    obj(seq![("position"@, arg_or(args, 0, Jv::Null))])
}

pub(crate) fn arg(args: &Vec<Json>, i: usize) -> (r: Json)
    ensures
        r@ == arg_or(json::models(args@), i as int, Jv::Null),
{
    if i < args.len() {
        args[i].clone()
    } else {
        Json::Null
    }
}

pub(crate) fn arg_default(args: &Vec<Json>, i: usize, default: Json) -> (r: Json)
    ensures
        r@ == arg_or(json::models(args@), i as int, default@),
{
    if i < args.len() {
        args[i].clone()
    } else {
        default
    }
}

pub(crate) fn arg_string(args: &Vec<Json>, i: usize) -> (r: String)
    ensures
        r@ == arg_text(json::models(args@), i as int),
{
    if i < args.len() {
        match args[i].as_str() {
            Some(s) => return s.to_string(),
            None => {},
        }
    }
    String::from_str("")
}

pub(crate) fn get_or_null(v: &Json, key: &str) -> (r: Json)
    ensures
        r@ == member_or_null(v@, key@),
{
    match v.get(key) {
        Some(m) => m.clone(),
        None => Json::Null,
    }
}

pub(crate) fn get_text(v: &Json, key: &str) -> (r: String)
    ensures
        r@ == member_text(v@, key@),
{
    match v.get(key) {
        Some(m) => match m.as_str() {
            Some(s) => s.to_string(),
            None => String::from_str(""),
        },
        None => String::from_str(""),
    }
}

pub(crate) fn object0() -> (r: Json)
    ensures
        r@ == obj(seq![]),
{
    let members: Vec<(String, Json)> = Vec::new();
    assert(json::entry_models(members@) =~= seq![]);
    Json::from_members(members)
}

pub(crate) fn object1(key: &str, value: Json) -> (r: Json)
    ensures
        r@ == obj(seq![(key@, value@)]),
{
    let mut members: Vec<(String, Json)> = Vec::new();
    members.push(json::field(key, value));
    assert(json::entry_models(members@) =~= seq![(key@, value@)]);
    Json::from_members(members)
}

pub(crate) fn object2(key1: &str, value1: Json, key2: &str, value2: Json) -> (r: Json)
    ensures
        r@ == obj(seq![(key1@, value1@), (key2@, value2@)]),
{
    let mut members: Vec<(String, Json)> = Vec::new();
    members.push(json::field(key1, value1));
    members.push(json::field(key2, value2));
    assert(json::entry_models(members@) =~= seq![(key1@, value1@), (key2@, value2@)]);
    Json::from_members(members)
}

pub(crate) fn position_params(args: &Vec<Json>) -> (r: Json)
    ensures
        r@ == at_position(json::models(args@)),
{
    object1("position", arg(args, 0))
}

pub(crate) fn args1(a: Json) -> (r: Vec<Json>)
    ensures
        json::models(r@) == seq![a@],
{
    let mut r: Vec<Json> = Vec::new();
    r.push(a);
    assert(json::models(r@) =~= seq![a@]);
    r
}

pub(crate) fn args2(a: Json, b: Json) -> (r: Vec<Json>)
    ensures
        json::models(r@) == seq![a@, b@],
{
    let mut r: Vec<Json> = Vec::new();
    r.push(a);
    r.push(b);
    assert(json::models(r@) =~= seq![a@, b@]);
    r
}

pub(crate) fn args3(a: Json, b: Json, c: Json) -> (r: Vec<Json>)
    ensures
        json::models(r@) == seq![a@, b@, c@],
{
    let mut r: Vec<Json> = Vec::new();
    r.push(a);
    r.push(b);
    r.push(c);
    assert(json::models(r@) =~= seq![a@, b@, c@]);
    r
}

pub(crate) fn args4(a: Json, b: Json, c: Json, d: Json) -> (r: Vec<Json>)
    ensures
        json::models(r@) == seq![a@, b@, c@, d@],
{
    let mut r: Vec<Json> = Vec::new();
    r.push(a);
    r.push(b);
    r.push(c);
    r.push(d);
    assert(json::models(r@) =~= seq![a@, b@, c@, d@]);
    r
}

pub(crate) fn no_calls() -> (r: Vec<EmacsCall>)
    ensures
        calls(r@) == Seq::<Call>::empty(),
{
    let r: Vec<EmacsCall> = Vec::new();
    assert(calls(r@) =~= Seq::<Call>::empty());
    r
}

pub(crate) fn call_eval(method: &str, args: Vec<Json>) -> (r: Vec<EmacsCall>)
    ensures
        calls(r@) == eval(method@, json::models(args@)),
{
    let mut r: Vec<EmacsCall> = Vec::new();
    r.push(EmacsCall::Eval { method: method.to_string(), args });
    assert(calls(r@) =~= eval(method@, json::models(args@)));
    r
}

pub(crate) fn call_message(s: &str) -> (r: Vec<EmacsCall>)
    ensures
        calls(r@) == message(s@),
{
    let mut r: Vec<EmacsCall> = Vec::new();
    r.push(EmacsCall::Message(s.to_string()));
    assert(calls(r@) =~= message(s@));
    r
}

/// The texts as JSON strings.
pub open spec fn strings(v: Seq<Seq<char>>) -> Seq<Jv> {
    Seq::new(v.len(), |i: int| Jv::Str(v[i]))
}

pub(crate) fn string_array(v: &Vec<String>) -> (r: Json)
    ensures
        r@ == Jv::Array(strings(text::texts(v@))),
{
    let mut items: Vec<Json> = Vec::new();
    let mut i: usize = 0;
    while i < v.len()
        invariant
            i <= v@.len(),
            items@.len() == i,
            forall|j: int| 0 <= j < i ==> (#[trigger] items@[j])@ == Jv::Str(v@[j]@),
        decreases v@.len() - i,
    {
        items.push(Json::str(v[i].as_str()));
        i = i + 1;
    }
    assert(json::models(items@) =~= strings(text::texts(v@)));
    Json::array(items)
}

} // verus!
