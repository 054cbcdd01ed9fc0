//! JSON-RPC 2.0 messages to and from language servers.

use crate::json;
use crate::json::{Jn, Json, Jv};
use crate::text;
use vstd::prelude::*;

verus! {

/// A JSON-RPC 2.0 request.
#[derive(Debug, PartialEq, Eq)]
pub struct JsonRpcRequest {
    pub jsonrpc: String,
    pub id: u64,
    pub method: String,
    pub params: Option<Json>,
}

/// A JSON-RPC 2.0 notification (no id, no response expected).
#[derive(Debug, PartialEq, Eq)]
pub struct JsonRpcNotification {
    pub jsonrpc: String,
    pub method: String,
    pub params: Option<Json>,
}

/// A JSON-RPC 2.0 success response.
#[derive(Debug, PartialEq, Eq)]
pub struct JsonRpcResponse {
    pub jsonrpc: String,
    pub id: u64,
    pub result: Json,
}

/// A JSON-RPC 2.0 error response.
#[derive(Debug, PartialEq, Eq)]
pub struct JsonRpcErrorResponse {
    pub jsonrpc: String,
    pub id: u64,
    pub error: JsonRpcError,
}

/// JSON-RPC error object.
#[derive(Debug, PartialEq, Eq)]
pub struct JsonRpcError {
    pub code: i64,
    pub message: String,
    pub data: Option<Json>,
}

/// A parsed incoming JSON-RPC message (could be any type).
#[derive(Debug, PartialEq, Eq)]
pub enum IncomingMessage {
    /// Response to a request we sent.
    Response { id: u64, result: Json },
    /// Error response to a request we sent.
    ErrorResponse { id: u64, error: JsonRpcError },
    /// Notification from the server (e.g., diagnostics).
    Notification { method: String, params: Json },
    /// Request from the server (e.g., workspace/configuration).
    Request { id: u64, method: String, params: Json },
}

/// Why a text is no message.
#[derive(Debug, PartialEq, Eq)]
pub enum IncomingError {
    /// The text is no JSON; the reader's message.
    Syntax(String),
    /// The `error` member has no integer code or no message.
    ErrorObject,
}

/// The mathematical value of a [`JsonRpcError`].
pub struct RpcError {
    pub code: i64,
    pub message: Seq<char>,
    pub data: Option<Jv>,
}

/// The mathematical value of an [`IncomingMessage`].
pub enum Incoming {
    Response { id: u64, result: Jv },
    ErrorResponse { id: u64, error: RpcError },
    Notification { method: Seq<char>, params: Jv },
    Request { id: u64, method: Seq<char>, params: Jv },
}

/// The mathematical value of an [`IncomingError`].
pub enum IncomingFault {
    Syntax(Seq<char>),
    ErrorObject,
}

/// The value under an optional one.
pub open spec fn opt_view(v: Option<Json>) -> Option<Jv> {
    match v {
        Some(j) => Some(j@),
        None => None,
    }
}

impl View for JsonRpcError {
    type V = RpcError;

    open spec fn view(&self) -> RpcError {
        RpcError { code: self.code, message: self.message@, data: opt_view(self.data) }
    }
}

impl View for IncomingMessage {
    type V = Incoming;

    open spec fn view(&self) -> Incoming {
        match *self {
            IncomingMessage::Response { id, result } => Incoming::Response { id, result: result@ },
            IncomingMessage::ErrorResponse { id, error } => Incoming::ErrorResponse {
                id,
                error: error@,
            },
            IncomingMessage::Notification { method, params } => Incoming::Notification {
                method: method@,
                params: params@,
            },
            IncomingMessage::Request { id, method, params } => Incoming::Request {
                id,
                method: method@,
                params: params@,
            },
        }
    }
}

impl View for IncomingError {
    type V = IncomingFault;

    open spec fn view(&self) -> IncomingFault {
        match *self {
            IncomingError::Syntax(s) => IncomingFault::Syntax(s@),
            IncomingError::ErrorObject => IncomingFault::ErrorObject,
        }
    }
}

/// An optional member: null is as good as none.
pub open spec fn optional(v: Option<Jv>) -> Option<Jv> {
    match v {
        Some(Jv::Null) => None,
        _ => v,
    }
}

/// The error object that a value is: an object, or an array of its two or three fields.
pub open spec fn error_of(v: Jv) -> Option<RpcError> {
    match v {
        Jv::Object(es) => match (json::lookup(es, "code"@), json::lookup(es, "message"@)) {
            (Some(c), Some(m)) => error_fields(c, m, json::lookup(es, "data"@)),
            _ => None,
        },
        Jv::Array(a) => if a.len() == 2 {
            error_fields(a[0], a[1], None)
        } else if a.len() == 3 {
            error_fields(a[0], a[1], Some(a[2]))
        } else {
            None
        },
        _ => None,
    }
}

/// The error object of these fields, if the code is an integer and the message a string.
pub open spec fn error_fields(code: Jv, message: Jv, data: Option<Jv>) -> Option<RpcError> {
    match (json::as_i64(code), json::as_str(message)) {
        (Some(c), Some(m)) => Some(RpcError { code: c, message: m, data: optional(data) }),
        _ => None,
    }
}

/// The number of an id; 0 where it is no whole number from zero up.
pub open spec fn id_of(v: Jv) -> u64 {
    match json::as_u64(v) {
        Some(u) => u,
        None => 0,
    }
}

/// The text of a member; empty where it is no string.
pub open spec fn text_of(v: Jv) -> Seq<char> {
    match json::as_str(v) {
        Some(s) => s,
        None => Seq::empty(),
    }
}

/// The parameters of a message; null where it has none.
pub open spec fn params_of(v: Jv) -> Jv {
    match json::member(v, "params"@) {
        Some(p) => p,
        None => Jv::Null,
    }
}

/// The message that a JSON value is.
pub open spec fn incoming_of(v: Jv) -> Result<Incoming, IncomingFault> {
    let id = json::member(v, "id"@);
    let method = json::member(v, "method"@);
    let result = json::member(v, "result"@);
    let error = json::member(v, "error"@);
    if result is Some && id is Some {
        Ok(Incoming::Response { id: id_of(id->0), result: result->0 })
    } else if error is Some && id is Some {
        match error_of(error->0) {
            Some(e) => Ok(Incoming::ErrorResponse { id: id_of(id->0), error: e }),
            None => Err(IncomingFault::ErrorObject),
        }
    } else if method is Some && id is Some {
        Ok(
            Incoming::Request {
                id: id_of(id->0),
                method: text_of(method->0),
                params: params_of(v),
            },
        )
    } else if method is Some {
        Ok(Incoming::Notification { method: text_of(method->0), params: params_of(v) })
    } else {
        Ok(Incoming::Notification { method: Seq::empty(), params: v })
    }
}

/// The message that a text holds.
pub open spec fn parsed(s: Seq<char>) -> Result<Incoming, IncomingFault> {
    match json::json_read(s) {
        Ok(v) => incoming_of(v),
        Err(e) => Err(IncomingFault::Syntax(e)),
    }
}

fn read_error_fields(code: &Json, message: &Json, data: Option<&Json>) -> (r: Option<JsonRpcError>)
    ensures
        match error_fields(
            code@,
            message@,
            match data {
                Some(d) => Some(d@),
                None => None,
            },
        ) {
            Some(e) => r is Some && r->0@ == e,
            None => r is None,
        },
{
    match (code.as_i64(), message.as_str()) {
        (Some(c), Some(m)) => {
            let data = match data {
                Some(d) => if d.is_null() {
                    None
                } else {
                    Some(d.clone())
                },
                None => None,
            };
            Some(JsonRpcError { code: c, message: m.to_string(), data })
        },
        _ => None,
    }
}

impl JsonRpcError {
    /// The error object that a value is.
    pub fn from_json(v: &Json) -> (r: Option<JsonRpcError>)
        ensures
            match error_of(v@) {
                Some(e) => r is Some && r->0@ == e,
                None => r is None,
            },
    {
        match v {
            Json::Object(m) => {
                proof {
                    json::lemma_object_model(*m);
                }
                match (m.get("code"), m.get("message")) {
                    (Some(c), Some(s)) => read_error_fields(c, s, m.get("data")),
                    _ => None,
                }
            },
            Json::Array(a) => {
                proof {
                    json::lemma_array_model(*a);
                }
                if a.len() == 2 {
                    read_error_fields(&a[0], &a[1], None)
                } else if a.len() == 3 {
                    read_error_fields(&a[0], &a[1], Some(&a[2]))
                } else {
                    None
                }
            },
            _ => None,
        }
    }
}

fn read_id(v: &Json) -> (r: u64)
    ensures
        r == id_of(v@),
{
    match v.as_u64() {
        Some(u) => u,
        None => 0,
    }
}

fn read_text(v: &Json) -> (r: String)
    ensures
        r@ == text_of(v@),
{
    match v.as_str() {
        Some(s) => s.to_string(),
        None => String::new(),
    }
}

fn read_params(v: &Json) -> (r: Json)
    ensures
        r@ == params_of(v@),
{
    match v.get("params") {
        Some(p) => p.clone(),
        None => Json::Null,
    }
}

impl IncomingMessage {
    /// The message that a JSON value is.
    pub fn from_json(value: &Json) -> (r: Result<Self, IncomingError>)
        ensures
            match incoming_of(value@) {
                Ok(m) => r is Ok && r->Ok_0@ == m,
                Err(e) => r is Err && r->Err_0@ == e,
            },
    {
        let method = value.get("method");
        let result = value.get("result");
        let error = value.get("error");
        match value.get("id") {
            Some(id) => {
                let number: u64 = read_id(id);
                match result {
                    Some(v) => return Ok(
                        IncomingMessage::Response { id: number, result: v.clone() },
                    ),
                    None => {},
                }
                match error {
                    Some(v) => return match JsonRpcError::from_json(v) {
                        Some(e) => Ok(IncomingMessage::ErrorResponse { id: number, error: e }),
                        None => Err(IncomingError::ErrorObject),
                    },
                    None => {},
                }
                match method {
                    Some(v) => return Ok(
                        IncomingMessage::Request {
                            id: number,
                            method: read_text(v),
                            params: read_params(value),
                        },
                    ),
                    None => {},
                }
            },
            None => match method {
                Some(v) => return Ok(
                    IncomingMessage::Notification {
                        method: read_text(v),
                        params: read_params(value),
                    },
                ),
                None => {},
            },
        }
        let empty = String::new();
        assert(empty@ =~= Seq::<char>::empty());
        Ok(IncomingMessage::Notification { method: empty, params: value.clone() })
    }

    /// Parse a JSON string into an IncomingMessage.
    pub fn parse(json: &str) -> (r: Result<Self, IncomingError>)
        ensures
            match parsed(json@) {
                Ok(m) => r is Ok && r->Ok_0@ == m,
                Err(e) => r is Err && r->Err_0@ == e,
            },
    {
        match Json::parse(json) {
            Ok(value) => IncomingMessage::from_json(&value),
            Err(e) => Err(IncomingError::Syntax(e)),
        }
    }
}

// ---------------------------------------------------------------------------
// Building messages
// ---------------------------------------------------------------------------

/// The members of a request, in their order.
pub open spec fn request_members(id: u64, method: Seq<char>, params: Jv) -> Seq<(Seq<char>, Jv)> {
    seq![
        ("jsonrpc"@, Jv::Str("2.0"@)),
        ("id"@, Jv::Number(Jn::PosInt(id))),
        ("method"@, Jv::Str(method)),
        ("params"@, params),
    ]
}

/// The members of a notification, in their order.
pub open spec fn notification_members(method: Seq<char>, params: Jv) -> Seq<(Seq<char>, Jv)> {
    seq![("jsonrpc"@, Jv::Str("2.0"@)), ("method"@, Jv::Str(method)), ("params"@, params)]
}

/// The members of a response, in their order.
pub open spec fn response_members(id: u64, result: Jv) -> Seq<(Seq<char>, Jv)> {
    seq![("jsonrpc"@, Jv::Str("2.0"@)), ("id"@, Jv::Number(Jn::PosInt(id))), ("result"@, result)]
}

/// The members of an error response, in their order.
pub open spec fn error_response_members(id: u64, code: i64, message: Seq<char>) -> Seq<
    (Seq<char>, Jv),
> {
    seq![
        ("jsonrpc"@, Jv::Str("2.0"@)),
        ("id"@, Jv::Number(Jn::PosInt(id))),
        ("error"@, error_json(code, message)),
    ]
}

/// An error object without data.
pub open spec fn error_json(code: i64, message: Seq<char>) -> Jv {
    Jv::Object(
        json::object(
            seq![("code"@, json::int_number(code as int)), ("message"@, Jv::Str(message))],
        ),
    )
}

/// The members with one more at the end, if there is a value for it.
pub open spec fn with_optional(
    members: Seq<(Seq<char>, Jv)>,
    key: Seq<char>,
    value: Option<Jv>,
) -> Seq<(Seq<char>, Jv)> {
    match value {
        Some(v) => members.push((key, v)),
        None => members,
    }
}

impl JsonRpcRequest {
    /// The members of the request, in their order.
    pub open spec fn members(self) -> Seq<(Seq<char>, Jv)> {
        with_optional(
            seq![
                ("jsonrpc"@, Jv::Str(self.jsonrpc@)),
                ("id"@, Jv::Number(Jn::PosInt(self.id))),
                ("method"@, Jv::Str(self.method@)),
            ],
            "params"@,
            opt_view(self.params),
        )
    }

    /// The text of the request; parameters that are not there are left out.
    pub fn to_string(&self) -> (r: String)
        ensures
            r@ == json::json_members_text(self.members()),
            json::readable_members(self.members()) ==> json::reads_as(
                r@,
                Jv::Object(json::object(self.members())),
            ),
    {
        let mut members: Vec<(String, Json)> = Vec::new();
        members.push(json::field("jsonrpc", Json::str(self.jsonrpc.as_str())));
        members.push(json::field("id", Json::unsigned(self.id)));
        members.push(json::field("method", Json::str(self.method.as_str())));
        match &self.params {
            Some(params) => members.push(json::field("params", params.clone())),
            None => {},
        }
        assert(json::entry_models(members@) =~= self.members());
        json::members_to_string(&members)
    }
}

impl JsonRpcNotification {
    /// The members of the notification, in their order.
    pub open spec fn members(self) -> Seq<(Seq<char>, Jv)> {
        with_optional(
            seq![("jsonrpc"@, Jv::Str(self.jsonrpc@)), ("method"@, Jv::Str(self.method@))],
            "params"@,
            opt_view(self.params),
        )
    }

    /// The text of the notification; parameters that are not there are left out.
    pub fn to_string(&self) -> (r: String)
        ensures
            r@ == json::json_members_text(self.members()),
            json::readable_members(self.members()) ==> json::reads_as(
                r@,
                Jv::Object(json::object(self.members())),
            ),
    {
        let mut members: Vec<(String, Json)> = Vec::new();
        members.push(json::field("jsonrpc", Json::str(self.jsonrpc.as_str())));
        members.push(json::field("method", Json::str(self.method.as_str())));
        match &self.params {
            Some(params) => members.push(json::field("params", params.clone())),
            None => {},
        }
        assert(json::entry_models(members@) =~= self.members());
        json::members_to_string(&members)
    }
}

impl JsonRpcResponse {
    /// The members of the response, in their order.
    pub open spec fn members(self) -> Seq<(Seq<char>, Jv)> {
        seq![
            ("jsonrpc"@, Jv::Str(self.jsonrpc@)),
            ("id"@, Jv::Number(Jn::PosInt(self.id))),
            ("result"@, self.result@),
        ]
    }

    /// The text of the response.
    pub fn to_string(&self) -> (r: String)
        ensures
            r@ == json::json_members_text(self.members()),
            json::readable_members(self.members()) ==> json::reads_as(
                r@,
                Jv::Object(json::object(self.members())),
            ),
    {
        let mut members: Vec<(String, Json)> = Vec::new();
        members.push(json::field("jsonrpc", Json::str(self.jsonrpc.as_str())));
        members.push(json::field("id", Json::unsigned(self.id)));
        members.push(json::field("result", self.result.clone()));
        assert(json::entry_models(members@) =~= self.members());
        json::members_to_string(&members)
    }
}

impl JsonRpcError {
    /// The members of the error object, in their order; data that is not there is left out.
    pub open spec fn members(self) -> Seq<(Seq<char>, Jv)> {
        with_optional(
            seq![
                ("code"@, json::int_number(self.code as int)),
                ("message"@, Jv::Str(self.message@)),
            ],
            "data"@,
            opt_view(self.data),
        )
    }

    /// The error object.
    pub open spec fn object(self) -> Jv {
        Jv::Object(json::object(self.members()))
    }

    fn fields(&self) -> (r: Vec<(String, Json)>)
        ensures
            json::entry_models(r@) == self.members(),
    {
        let mut members: Vec<(String, Json)> = Vec::new();
        members.push(json::field("code", Json::integer(self.code)));
        members.push(json::field("message", Json::str(self.message.as_str())));
        match &self.data {
            Some(data) => members.push(json::field("data", data.clone())),
            None => {},
        }
        assert(json::entry_models(members@) =~= self.members());
        members
    }

    /// The error object; data that is not there is left out.
    pub fn to_json(&self) -> (r: Json)
        ensures
            r@ == self.object(),
    {
        Json::from_members(self.fields())
    }
}

impl JsonRpcErrorResponse {
    /// The members of the response, in their order.
    pub open spec fn members(self) -> Seq<(Seq<char>, Jv)> {
        seq![
            ("jsonrpc"@, Jv::Str(self.jsonrpc@)),
            ("id"@, Jv::Number(Jn::PosInt(self.id))),
            ("error"@, self.error.object()),
        ]
    }

    /// The text of the response. The members of the error stand in their order, which is not the
    /// order of an object's keys once there is data.
    pub open spec fn text(self) -> Seq<char> {
        if self.error.data is None {
            json::json_members_text(self.members())
        } else {
            "{\"jsonrpc\":"@ + json::json_text(Jv::Str(self.jsonrpc@)) + ",\"id\":"@ + text::decimal(
                self.id as nat,
            ) + ",\"error\":"@ + json::json_members_text(self.error.members()) + "}"@
        }
    }

    /// The text of the response.
    pub fn to_string(&self) -> (r: String)
        ensures
            r@ == self.text(),
            self.error.data is None && json::readable_members(self.members()) ==> json::reads_as(
                r@,
                Jv::Object(json::object(self.members())),
            ),
    {
        if self.error.data.is_none() {
            let mut members: Vec<(String, Json)> = Vec::new();
            members.push(json::field("jsonrpc", Json::str(self.jsonrpc.as_str())));
            members.push(json::field("id", Json::unsigned(self.id)));
            members.push(json::field("error", self.error.to_json()));
            assert(json::entry_models(members@) =~= self.members());
            return json::members_to_string(&members);
        }
        let version = Json::str(self.jsonrpc.as_str()).to_string();
        let id = text::decimal_string(self.id);
        let fields = self.error.fields();
        let error = json::members_to_string(&fields);
        let mut r = String::from_str("{\"jsonrpc\":");
        r.append(version.as_str());
        r.append(",\"id\":");
        r.append(id.as_str());
        r.append(",\"error\":");
        r.append(error.as_str());
        r.append("}");
        r
    }
}

/// Build a JSON-RPC 2.0 request.
pub fn build_request(id: u64, method: &str, params: Json) -> (r: String)
    ensures
        r@ == json::json_members_text(request_members(id, method@, params@)),
        json::storable(params@, 126) ==> parsed(r@) == Ok::<Incoming, IncomingFault>(
            Incoming::Request { id, method: method@, params: params@ },
        ),
{
    let ghost made = request_members(id, method@, params@);
    let req = JsonRpcRequest {
        jsonrpc: String::from_str("2.0"),
        id,
        method: method.to_string(),
        params: Some(params),
    };
    proof {
        assert(req.members() =~= made);
        lemma_keys();
        assert(json::distinct_keys(made));
        lemma_object_member(made, 1);
        lemma_object_member(made, 2);
        lemma_object_member(made, 3);
        lemma_object_no_member(made, "result"@);
        lemma_object_no_member(made, "error"@);
    }
    req.to_string()
}

/// Build a JSON-RPC 2.0 notification.
pub fn build_notification(method: &str, params: Json) -> (r: String)
    ensures
        r@ == json::json_members_text(notification_members(method@, params@)),
        json::storable(params@, 126) ==> parsed(r@) == Ok::<Incoming, IncomingFault>(
            Incoming::Notification { method: method@, params: params@ },
        ),
{
    let ghost made = notification_members(method@, params@);
    let notif = JsonRpcNotification {
        jsonrpc: String::from_str("2.0"),
        method: method.to_string(),
        params: Some(params),
    };
    proof {
        assert(notif.members() =~= made);
        lemma_keys();
        assert(json::distinct_keys(made));
        lemma_object_member(made, 1);
        lemma_object_member(made, 2);
        lemma_object_no_member(made, "id"@);
        lemma_object_no_member(made, "result"@);
        lemma_object_no_member(made, "error"@);
    }
    notif.to_string()
}

/// Build a JSON-RPC 2.0 success response.
pub fn build_response(id: u64, result: Json) -> (r: String)
    ensures
        r@ == json::json_members_text(response_members(id, result@)),
        json::storable(result@, 126) ==> parsed(r@) == Ok::<Incoming, IncomingFault>(
            Incoming::Response { id, result: result@ },
        ),
{
    let ghost made = response_members(id, result@);
    let resp = JsonRpcResponse { jsonrpc: String::from_str("2.0"), id, result };
    proof {
        assert(resp.members() =~= made);
        lemma_keys();
        assert(json::distinct_keys(made));
        lemma_object_member(made, 1);
        lemma_object_member(made, 2);
    }
    resp.to_string()
}

/// Build a JSON-RPC 2.0 error response.
pub fn build_error_response(id: u64, code: i64, message: &str) -> (r: String)
    ensures
        r@ == json::json_members_text(error_response_members(id, code, message@)),
        parsed(r@) == Ok::<Incoming, IncomingFault>(
            Incoming::ErrorResponse {
                id,
                error: RpcError { code, message: message@, data: None },
            },
        ),
{
    let ghost made = error_response_members(id, code, message@);
    let ghost fields = seq![
        ("code"@, json::int_number(code as int)),
        ("message"@, Jv::Str(message@)),
    ];
    let error = JsonRpcError { code, message: message.to_string(), data: None };
    let resp = JsonRpcErrorResponse { jsonrpc: String::from_str("2.0"), id, error };
    proof {
        assert(resp.members() =~= made);
        lemma_keys();
        assert(json::distinct_keys(made));
        lemma_object_member(made, 1);
        lemma_object_member(made, 2);
        lemma_object_no_member(made, "result"@);
        assert(json::distinct_keys(fields));
        lemma_object_member(fields, 0);
        lemma_object_member(fields, 1);
        lemma_object_no_member(fields, "data"@);
        lemma_object_storable(fields, 125);
    }
    resp.to_string()
}

/// An error object without data.
pub fn error_value(code: i64, message: &str) -> (r: Json)
    ensures
        r@ == error_json(code, message@),
{
    let mut members: Vec<(String, Json)> = Vec::new();
    members.push(json::field("code", Json::integer(code)));
    members.push(json::field("message", Json::str(message)));
    assert(json::entry_models(members@) =~= seq![
        ("code"@, json::int_number(code as int)),
        ("message"@, Jv::Str(message@)),
    ]);
    Json::from_members(members)
}

proof fn lemma_keys()
    ensures
        "jsonrpc"@.len() == 7,
        "id"@.len() == 2,
        "method"@.len() == 6,
        "params"@.len() == 6,
        "result"@.len() == 6,
        "error"@.len() == 5,
        "code"@.len() == 4,
        "message"@.len() == 7,
        "data"@.len() == 4,
        "method"@ != "params"@,
        "method"@ != "result"@,
        "params"@ != "result"@,
        "code"@ != "data"@,
{
    reveal_strlit("jsonrpc");
    reveal_strlit("id");
    reveal_strlit("method");
    reveal_strlit("params");
    reveal_strlit("result");
    reveal_strlit("error");
    reveal_strlit("code");
    reveal_strlit("message");
    reveal_strlit("data");
    assert("method"@[0] == 'm' && "params"@[0] == 'p' && "result"@[0] == 'r');
    assert("code"@[0] == 'c' && "data"@[0] == 'd');
}

/// An object holds each of its members, where no key stands twice.
pub proof fn lemma_object_member(members: Seq<(Seq<char>, Jv)>, i: int)
    requires
        json::distinct_keys(members),
        0 <= i < members.len(),
    ensures
        json::lookup(json::object(members), members[i].0) == Some(members[i].1),
    decreases members.len(),
{
    let front = members.drop_last();
    let last = members.last();
    json::law_lookup_insert(json::object(front), last.0, last.1, members[i].0);
    if i < members.len() - 1 {
        assert(members[i].0 != members[members.len() - 1].0);
        lemma_object_member(front, i);
    }
}

/// An object holds nothing under a key that none of its members has.
pub proof fn lemma_object_no_member(members: Seq<(Seq<char>, Jv)>, key: Seq<char>)
    requires
        forall|i: int| 0 <= i < members.len() ==> (#[trigger] members[i]).0 != key,
    ensures
        json::lookup(json::object(members), key) is None,
    decreases members.len(),
{
    if members.len() > 0 {
        let front = members.drop_last();
        let last = members.last();
        assert(members[members.len() - 1].0 != key);
        json::law_lookup_insert(json::object(front), last.0, last.1, key);
        lemma_object_no_member(front, key);
    }
}

/// Inserting members that a text holds exactly makes an object that a text holds exactly.
pub proof fn lemma_object_storable(members: Seq<(Seq<char>, Jv)>, depth: nat)
    requires
        forall|i: int|
            0 <= i < members.len() ==> json::storable((#[trigger] members[i]).1, depth),
    ensures
        json::storable(Jv::Object(json::object(members)), depth + 1),
    decreases members.len(),
{
    if members.len() == 0 {
        assert(json::object(members) =~= Seq::empty());
    } else {
        let front = members.drop_last();
        let last = members.last();
        lemma_object_storable(front, depth);
        let es = json::object(front);
        json::law_insert_ascending(es, last.0, last.1);
        let made = json::object(members);
        assert(json::storable(Jv::Object(es), depth + 1));
        assert forall|i: int| 0 <= i < made.len() implies json::storable(
            (#[trigger] made[i]).1,
            depth,
        ) by {
            if made[i] != (last.0, last.1) {
                assert(es.contains(made[i]));
                let k = choose|k: int| 0 <= k < es.len() && es[k] == made[i];
                assert(json::storable(es[k].1, depth));
            } else {
                assert(members[members.len() - 1] == last);
            }
        }
    }
}

// ---------------------------------------------------------------------------
// Request ids
// ---------------------------------------------------------------------------

/// Generator of request ids.
pub struct RequestIdGenerator {
    counter: u64,
}

impl View for RequestIdGenerator {
    type V = u64;

    /// The id that comes next.
    closed spec fn view(&self) -> u64 {
        self.counter
    }
}

impl RequestIdGenerator {
    pub fn new() -> (r: Self)
        ensures
            r@ == 1,
    {
        RequestIdGenerator { counter: 1 }
    }

    /// The next id; behind the largest comes zero.
    pub fn next(&mut self) -> (r: u64)
        ensures
            r == old(self)@,
            final(self)@ == (if old(self)@ == u64::MAX {
                0u64
            } else {
                (old(self)@ + 1) as u64
            }),
    {
        let id: u64 = self.counter;
        self.counter = id.wrapping_add(1);
        id
    }
}

impl Default for RequestIdGenerator {
    fn default() -> (r: Self)
        ensures
            r@ == 1,
    {
        RequestIdGenerator::new()
    }
}

pub const PARSE_ERROR: i64 = -32700;

pub const INVALID_REQUEST: i64 = -32600;

pub const METHOD_NOT_FOUND: i64 = -32601;

pub const INVALID_PARAMS: i64 = -32602;

pub const INTERNAL_ERROR: i64 = -32603;

pub const SERVER_NOT_INITIALIZED: i64 = -32002;

} // verus!
