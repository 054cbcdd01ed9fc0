//! Remote file protocol: newline-delimited JSON messages.
//!
//! Each message has a "command" field indicating the operation.

use crate::config;
use crate::config::ConfigError;
use crate::handlers;
use crate::json;
use crate::json::{Json, JsonMap, Jv};
use crate::jsonrpc;
use crate::text;
use vstd::prelude::*;
use vstd::utf8::*;

verus! {

// ---------------------------------------------------------------------------
// Lines
// ---------------------------------------------------------------------------

/// The bytes of a message: its JSON text, and the end of the line.
pub open spec fn message_bytes(v: Jv) -> Seq<u8> {
    encode_utf8(json::json_text(v)).push(10)
}

/// The message that a line holds.
pub open spec fn message_of(line: Seq<char>) -> Option<Jv> {
    match json::json_read(text::trimmed(line)) {
        Ok(v) => Some(v),
        Err(_) => None,
    }
}

/// Encode a JSON message for the remote protocol (newline-delimited).
pub fn encode_message(value: &Json) -> (r: Vec<u8>)
    ensures
        r@ == message_bytes(value@),
        json::storable(value@, 127) ==> valid_utf8(r@) && message_of(decode_utf8(r@)) == Some(
            value@,
        ),
{
    let s = value.to_string();
    let mut data = s.as_bytes_vec();
    data.push(10u8);
    proof {
        let line = s@.push('\n');
        assert(line =~= s@ + seq!['\n']);
        text::lemma_encode_concat(s@, seq!['\n']);
        let end = seq!['\n'];
        assert(is_ascii_chars(end));
        is_ascii_chars_encode_utf8(end);
        assert(encode_utf8(end) =~= seq![10u8]);
        assert(data@ =~= encode_utf8(line));
        encode_utf8_valid_utf8(line);
        encode_utf8_decode_utf8(line);
        lemma_trimmed_line(s@);
    }
    data
}

/// Decode a JSON message from a newline-delimited buffer.
pub fn decode_message(line: &str) -> (r: Option<Json>)
    ensures
        match message_of(line@) {
            Some(v) => r is Some && (r->0)@ == v,
            None => r is None,
        },
{
    let chars = text::to_chars(line);
    let s = text::from_chars(text::trim(chars.as_slice()));
    match Json::parse(s.as_str()) {
        Ok(v) => Some(v),
        Err(_) => None,
    }
}

proof fn lemma_trimmed_line(s: Seq<char>)
    requires
        s.len() > 0,
        !text::is_white(s[0]),
        !text::is_white(s.last()),
    ensures
        text::trimmed(s.push('\n')) == s,
{
    let line = s.push('\n');
    assert(line[0] == s[0]);
    assert(text::trimmed_start(line) == line);
    assert(line.drop_last() =~= s);
    assert(line.last() == '\n');
    assert(text::trimmed_end(s) == s);
    assert(text::trimmed_end(line) == text::trimmed_end(line.drop_last()));
}

// ---------------------------------------------------------------------------
// Reading fields
// ---------------------------------------------------------------------------

/// A field that is a string, empty where it is missing.
pub open spec fn string_or_empty(v: Jv, key: Seq<char>) -> Option<Seq<char>> {
    match json::member(v, key) {
        Some(m) => json::as_str(m),
        None => Some(Seq::empty()),
    }
}

fn get_string_or_empty(v: &Json, key: &str) -> (r: Option<String>)
    ensures
        match string_or_empty(v@, key@) {
            Some(s) => r is Some && (r->0)@ == s,
            None => r is None,
        },
{
    match v.get(key) {
        Some(m) => match m.as_str() {
            Some(s) => Some(s.to_string()),
            None => None,
        },
        None => {
            let r = String::new();
            assert(r@ =~= Seq::<char>::empty());
            Some(r)
        },
    }
}

// ---------------------------------------------------------------------------
// Commands
// ---------------------------------------------------------------------------

/// Remote command server messages.
#[derive(Debug, PartialEq, Eq)]
pub struct RemoteCommand {
    pub command: String,
    pub method: String,
    pub args: Json,
    pub sexp: Json,
}

/// The mathematical value of a [`RemoteCommand`].
pub struct Remote {
    pub command: Seq<char>,
    pub method: Seq<char>,
    pub args: Jv,
    pub sexp: Jv,
}

impl View for RemoteCommand {
    type V = Remote;

    open spec fn view(&self) -> Remote {
        Remote {
            command: self.command@,
            method: self.method@,
            args: self.args@,
            sexp: self.sexp@,
        }
    }
}

/// The command that an object holds, or the first field in the way.
pub open spec fn remote_of(v: Jv) -> Result<Remote, ConfigError> {
    if config::string_field(v, "command"@) is None {
        Err(ConfigError::Field("command"))
    } else if string_or_empty(v, "method"@) is None {
        Err(ConfigError::Field("method"))
    } else {
        Ok(
            Remote {
                command: config::string_field(v, "command"@)->0,
                method: string_or_empty(v, "method"@)->0,
                args: handlers::member_or_null(v, "args"@),
                sexp: handlers::member_or_null(v, "sexp"@),
            },
        )
    }
}

/// The command that a JSON value holds.
pub open spec fn remote_command(v: Jv) -> Result<Remote, ConfigError> {
    match config::with_names(v, seq!["command"@, "method"@, "args"@, "sexp"@]) {
        Some(o) => remote_of(o),
        None => Err(ConfigError::NotAnObject),
    }
}

/// The members of a command's JSON object.
pub open spec fn remote_members(c: Remote) -> Seq<(Seq<char>, Jv)> {
    seq![
        ("command"@, Jv::Str(c.command)),
        ("method"@, Jv::Str(c.method)),
        ("args"@, c.args),
        ("sexp"@, c.sexp),
    ]
}

impl RemoteCommand {
    /// The command that a JSON value holds.
    pub fn from_json(v: &Json) -> (r: Result<RemoteCommand, ConfigError>)
        ensures
            match remote_command(v@) {
                Ok(c) => r is Ok && r->Ok_0@ == c,
                Err(e) => r == Err::<RemoteCommand, ConfigError>(e),
            },
    {
        let mut names: Vec<&'static str> = Vec::new();
        names.push("command");
        names.push("method");
        names.push("args");
        names.push("sexp");
        assert(config::name_texts(names@) =~= seq!["command"@, "method"@, "args"@, "sexp"@]);
        let o = match config::name_fields(v, &names) {
            Some(o) => o,
            None => return Err(ConfigError::NotAnObject),
        };
        let command = match config::get_string(&o, "command") {
            Some(s) => s,
            None => return Err(ConfigError::Field("command")),
        };
        let method = match get_string_or_empty(&o, "method") {
            Some(s) => s,
            None => return Err(ConfigError::Field("method")),
        };
        Ok(
            RemoteCommand {
                command,
                method,
                args: handlers::get_or_null(&o, "args"),
                sexp: handlers::get_or_null(&o, "sexp"),
            },
        )
    }

    /// The command as a JSON object.
    pub fn to_json(&self) -> (r: Json)
        ensures
            r@ == handlers::obj(remote_members(self@)),
    {
        let mut members: Vec<(String, Json)> = Vec::new();
        members.push(json::field("command", Json::str(self.command.as_str())));
        members.push(json::field("method", Json::str(self.method.as_str())));
        members.push(json::field("args", self.args.clone()));
        members.push(json::field("sexp", self.sexp.clone()));
        assert(json::entry_models(members@) =~= remote_members(self@));
        Json::from_members(members)
    }
}

/// Reading the JSON object of a command gives the command back.
pub proof fn law_remote_command_round_trip(c: Remote)
    ensures
        remote_command(handlers::obj(remote_members(c))) == Ok::<Remote, ConfigError>(c),
{
    let m = remote_members(c);
    reveal_strlit("command");
    reveal_strlit("method");
    reveal_strlit("args");
    reveal_strlit("sexp");
    assert("command"@.len() == 7 && "method"@.len() == 6 && "args"@.len() == 4 && "sexp"@.len()
        == 4);
    assert("args"@[0] == 'a' && "sexp"@[0] == 's');
    assert(json::distinct_keys(m));
    jsonrpc::lemma_object_member(m, 0);
    jsonrpc::lemma_object_member(m, 1);
    jsonrpc::lemma_object_member(m, 2);
    jsonrpc::lemma_object_member(m, 3);
}

/// Remote elisp RPC messages.
#[derive(Debug, PartialEq, Eq)]
pub struct ElispRpc {
    pub command: String,
    pub method: String,
    pub args: Json,
    pub timestamp: String,
}

/// The mathematical value of an [`ElispRpc`].
pub struct Elisp {
    pub command: Seq<char>,
    pub method: Seq<char>,
    pub args: Jv,
    pub timestamp: Seq<char>,
}

impl View for ElispRpc {
    type V = Elisp;

    open spec fn view(&self) -> Elisp {
        Elisp {
            command: self.command@,
            method: self.method@,
            args: self.args@,
            timestamp: self.timestamp@,
        }
    }
}

/// The message that an object holds, or the first field in the way.
pub open spec fn elisp_of(v: Jv) -> Result<Elisp, ConfigError> {
    if config::string_field(v, "command"@) is None {
        Err(ConfigError::Field("command"))
    } else if string_or_empty(v, "method"@) is None {
        Err(ConfigError::Field("method"))
    } else if string_or_empty(v, "timestamp"@) is None {
        Err(ConfigError::Field("timestamp"))
    } else {
        Ok(
            Elisp {
                command: config::string_field(v, "command"@)->0,
                method: string_or_empty(v, "method"@)->0,
                args: handlers::member_or_null(v, "args"@),
                timestamp: string_or_empty(v, "timestamp"@)->0,
            },
        )
    }
}

/// The message that a JSON value holds.
pub open spec fn elisp_rpc(v: Jv) -> Result<Elisp, ConfigError> {
    match config::with_names(v, seq!["command"@, "method"@, "args"@, "timestamp"@]) {
        Some(o) => elisp_of(o),
        None => Err(ConfigError::NotAnObject),
    }
}

/// The members of a message's JSON object.
pub open spec fn elisp_members(c: Elisp) -> Seq<(Seq<char>, Jv)> {
    seq![
        ("command"@, Jv::Str(c.command)),
        ("method"@, Jv::Str(c.method)),
        ("args"@, c.args),
        ("timestamp"@, Jv::Str(c.timestamp)),
    ]
}

impl ElispRpc {
    /// The message that a JSON value holds.
    pub fn from_json(v: &Json) -> (r: Result<ElispRpc, ConfigError>)
        ensures
            match elisp_rpc(v@) {
                Ok(c) => r is Ok && r->Ok_0@ == c,
                Err(e) => r == Err::<ElispRpc, ConfigError>(e),
            },
    {
        let mut names: Vec<&'static str> = Vec::new();
        names.push("command");
        names.push("method");
        names.push("args");
        names.push("timestamp");
        assert(config::name_texts(names@) =~= seq![
            "command"@,
            "method"@,
            "args"@,
            "timestamp"@,
        ]);
        let o = match config::name_fields(v, &names) {
            Some(o) => o,
            None => return Err(ConfigError::NotAnObject),
        };
        let command = match config::get_string(&o, "command") {
            Some(s) => s,
            None => return Err(ConfigError::Field("command")),
        };
        let method = match get_string_or_empty(&o, "method") {
            Some(s) => s,
            None => return Err(ConfigError::Field("method")),
        };
        let timestamp = match get_string_or_empty(&o, "timestamp") {
            Some(s) => s,
            None => return Err(ConfigError::Field("timestamp")),
        };
        Ok(ElispRpc { command, method, args: handlers::get_or_null(&o, "args"), timestamp })
    }

    /// The message as a JSON object.
    pub fn to_json(&self) -> (r: Json)
        ensures
            r@ == handlers::obj(elisp_members(self@)),
    {
        let mut members: Vec<(String, Json)> = Vec::new();
        members.push(json::field("command", Json::str(self.command.as_str())));
        members.push(json::field("method", Json::str(self.method.as_str())));
        members.push(json::field("args", self.args.clone()));
        members.push(json::field("timestamp", Json::str(self.timestamp.as_str())));
        assert(json::entry_models(members@) =~= elisp_members(self@));
        Json::from_members(members)
    }
}

/// Reading the JSON object of a message gives the message back.
pub proof fn law_elisp_rpc_round_trip(c: Elisp)
    ensures
        elisp_rpc(handlers::obj(elisp_members(c))) == Ok::<Elisp, ConfigError>(c),
{
    let m = elisp_members(c);
    reveal_strlit("command");
    reveal_strlit("method");
    reveal_strlit("args");
    reveal_strlit("timestamp");
    assert("command"@.len() == 7 && "method"@.len() == 6 && "args"@.len() == 4
        && "timestamp"@.len() == 9);
    assert(json::distinct_keys(m));
    jsonrpc::lemma_object_member(m, 0);
    jsonrpc::lemma_object_member(m, 1);
    jsonrpc::lemma_object_member(m, 2);
    jsonrpc::lemma_object_member(m, 3);
}

// ---------------------------------------------------------------------------
// File sync
// ---------------------------------------------------------------------------

/// Remote file sync commands.
#[derive(Debug, PartialEq, Eq)]
pub enum SyncCommand {
    OpenFile { path: String },
    CloseFile { path: String },
    SaveFile { path: String },
    /// The arguments are the further members of the message.
    ChangeFile { path: String, args: Json },
    UpdateFile { path: String, content: String },
    RemoteSync { info: Json },
}

/// The mathematical value of a [`SyncCommand`].
pub enum Sync {
    OpenFile { path: Seq<char> },
    CloseFile { path: Seq<char> },
    SaveFile { path: Seq<char> },
    ChangeFile { path: Seq<char>, args: Jv },
    UpdateFile { path: Seq<char>, content: Seq<char> },
    RemoteSync { info: Jv },
}

impl View for SyncCommand {
    type V = Sync;

    open spec fn view(&self) -> Sync {
        match *self {
            SyncCommand::OpenFile { path } => Sync::OpenFile { path: path@ },
            SyncCommand::CloseFile { path } => Sync::CloseFile { path: path@ },
            SyncCommand::SaveFile { path } => Sync::SaveFile { path: path@ },
            SyncCommand::ChangeFile { path, args } => Sync::ChangeFile { path: path@, args: args@ },
            SyncCommand::UpdateFile { path, content } => Sync::UpdateFile {
                path: path@,
                content: content@,
            },
            SyncCommand::RemoteSync { info } => Sync::RemoteSync { info: info@ },
        }
    }
}

/// The members without one.
pub open spec fn without(es: Seq<(Seq<char>, Jv)>, key: Seq<char>) -> Seq<(Seq<char>, Jv)>
    decreases es.len(),
{
    if es.len() == 0 {
        es
    } else if es[0].0 == key {
        without(es.skip(1), key)
    } else {
        seq![es[0]] + without(es.skip(1), key)
    }
}

proof fn lemma_without_push(es: Seq<(Seq<char>, Jv)>, last: (Seq<char>, Jv), key: Seq<char>)
    ensures
        without(es.push(last), key) == (if last.0 == key {
            without(es, key)
        } else {
            without(es, key).push(last)
        }),
    decreases es.len(),
{
    let longer = es.push(last);
    if es.len() == 0 {
        assert(longer.skip(1) =~= es);
        assert(seq![last] + es =~= es.push(last));
    } else {
        lemma_without_push(es.skip(1), last, key);
        assert(longer.skip(1) =~= es.skip(1).push(last));
        assert(longer[0] == es[0]);
        let rest = without(es.skip(1), key);
        assert(seq![es[0]] + rest.push(last) =~= (seq![es[0]] + rest).push(last));
    }
}

proof fn lemma_without_concat(
    a: Seq<(Seq<char>, Jv)>,
    b: Seq<(Seq<char>, Jv)>,
    key: Seq<char>,
)
    ensures
        without(a + b, key) == without(a, key) + without(b, key),
    decreases b.len(),
{
    if b.len() == 0 {
        assert(a + b =~= a);
        assert(without(a, key) + b =~= without(a, key));
    } else {
        let front = b.drop_last();
        lemma_without_concat(a, front, key);
        lemma_without_push(a + front, b.last(), key);
        lemma_without_push(front, b.last(), key);
        assert((a + front).push(b.last()) =~= a + b);
        assert(front.push(b.last()) =~= b);
        assert((without(a, key) + without(front, key)).push(b.last()) =~= without(a, key)
            + without(front, key).push(b.last()));
    }
}

proof fn lemma_without_none(es: Seq<(Seq<char>, Jv)>, key: Seq<char>)
    requires
        json::lookup(es, key) is None,
    ensures
        without(es, key) == es,
    decreases es.len(),
{
    if es.len() > 0 {
        lemma_without_none(es.skip(1), key);
        assert(seq![es[0]] + es.skip(1) =~= es);
    }
}

/// What is left are members that were there.
proof fn lemma_without_among(es: Seq<(Seq<char>, Jv)>, key: Seq<char>, i: int) -> (j: int)
    requires
        0 <= i < without(es, key).len(),
    ensures
        0 <= j < es.len(),
        without(es, key)[i] == es[j],
    decreases es.len(),
{
    if es.len() == 0 {
        0
    } else if es[0].0 == key {
        lemma_without_among(es.skip(1), key, i) + 1
    } else if i == 0 {
        0
    } else {
        lemma_without_among(es.skip(1), key, i - 1) + 1
    }
}

proof fn lemma_without_insert(
    es: Seq<(Seq<char>, Jv)>,
    key: Seq<char>,
    other: Seq<char>,
    value: Jv,
)
    requires
        json::ascending(es),
    ensures
        without(json::insert(es, other, value), key) == (if other == key {
            without(es, key)
        } else {
            json::insert(without(es, key), other, value)
        }),
    decreases es.len(),
{
    let after = json::insert(es, other, value);
    if es.len() == 0 {
        assert(after.skip(1) =~= es);
        assert(seq![(other, value)] + es =~= seq![(other, value)]);
    } else {
        let rest = es.skip(1);
        assert(json::ascending(rest)) by {
            assert forall|i: int, j: int| 0 <= i < j < rest.len() implies text::less(
                #[trigger] rest[i].0,
                #[trigger] rest[j].0,
            ) by {
                assert(text::less(es[i + 1].0, es[j + 1].0));
            }
        }
        if es[0].0 == other {
            assert(after.skip(1) =~= rest);
            if other != key {
                assert((seq![es[0]] + without(rest, key)).skip(1) =~= without(rest, key));
            }
        } else if text::less(other, es[0].0) {
            assert(after.skip(1) =~= es);
            if other != key {
                let left = without(es, key);
                if left.len() > 0 {
                    let j = lemma_without_among(es, key, 0);
                    if j > 0 {
                        assert(text::less(es[0].0, es[j].0));
                        text::less_transitive(other, es[0].0, es[j].0);
                    }
                    text::lemma_less_irreflexive(other);
                } else {
                    assert(seq![(other, value)] + left =~= seq![(other, value)]);
                }
            }
        } else {
            lemma_without_insert(rest, key, other, value);
            assert(after.skip(1) =~= json::insert(rest, other, value));
            if other != key && es[0].0 != key {
                assert((seq![es[0]] + without(rest, key)).skip(1) =~= without(rest, key));
            }
        }
    }
}

proof fn lemma_object_ascending(members: Seq<(Seq<char>, Jv)>)
    ensures
        json::ascending(json::object(members)),
    decreases members.len(),
{
    if members.len() > 0 {
        lemma_object_ascending(members.drop_last());
        json::law_insert_ascending(
            json::object(members.drop_last()),
            members.last().0,
            members.last().1,
        );
    }
}

proof fn lemma_without_object(members: Seq<(Seq<char>, Jv)>, key: Seq<char>)
    ensures
        without(json::object(members), key) == json::object(without(members, key)),
    decreases members.len(),
{
    if members.len() > 0 {
        let front = members.drop_last();
        let last = members.last();
        lemma_without_object(front, key);
        lemma_object_ascending(front);
        lemma_without_insert(json::object(front), key, last.0, last.1);
        lemma_without_push(front, last, key);
        assert(front.push(last) =~= members);
        if last.0 != key {
            let left = without(front, key).push(last);
            assert(left.drop_last() =~= without(front, key));
        }
    }
}

/// The command of a message, and the fields behind it.
pub open spec fn tagged(v: Jv) -> Option<(Seq<char>, Jv)> {
    match v {
        Jv::Object(es) => match json::lookup(es, "command"@) {
            Some(Jv::Str(tag)) => Some((tag, Jv::Object(without(es, "command"@)))),
            _ => None,
        },
        Jv::Array(a) => if a.len() > 0 {
            match a[0] {
                Jv::Str(tag) => Some((tag, Jv::Array(a.skip(1)))),
                _ => None,
            }
        } else {
            None
        },
        _ => None,
    }
}

/// The path alone of a message.
pub open spec fn path_alone(fields: Jv) -> Option<Seq<char>> {
    match config::with_names(fields, seq!["path"@]) {
        Some(o) => config::string_field(o, "path"@),
        None => None,
    }
}

/// The command that a JSON value holds.
pub open spec fn sync_of(v: Jv) -> Option<Sync> {
    match tagged(v) {
        None => None,
        Some((tag, fields)) => if tag == "open_file"@ {
            match path_alone(fields) {
                Some(path) => Some(Sync::OpenFile { path }),
                None => None,
            }
        } else if tag == "close_file"@ {
            match path_alone(fields) {
                Some(path) => Some(Sync::CloseFile { path }),
                None => None,
            }
        } else if tag == "save_file"@ {
            match path_alone(fields) {
                Some(path) => Some(Sync::SaveFile { path }),
                None => None,
            }
        } else if tag == "change_file"@ {
            match fields {
                Jv::Object(es) => match config::string_field(fields, "path"@) {
                    Some(path) => Some(
                        Sync::ChangeFile { path, args: Jv::Object(without(es, "path"@)) },
                    ),
                    None => None,
                },
                _ => None,
            }
        } else if tag == "update_file"@ {
            match config::with_names(fields, seq!["path"@, "content"@]) {
                Some(o) => match (
                    config::string_field(o, "path"@),
                    config::string_field(o, "content"@),
                ) {
                    (Some(path), Some(content)) => Some(Sync::UpdateFile { path, content }),
                    _ => None,
                },
                None => None,
            }
        } else if tag == "remote_sync"@ {
            match config::with_names(fields, seq!["info"@]) {
                Some(o) => match json::member(o, "info"@) {
                    Some(info) => Some(Sync::RemoteSync { info }),
                    None => None,
                },
                None => None,
            }
        } else {
            None
        },
    }
}

/// The members of the JSON object of a command about a path.
pub open spec fn path_members(tag: Seq<char>, path: Seq<char>) -> Seq<(Seq<char>, Jv)> {
    seq![("command"@, Jv::Str(tag)), ("path"@, Jv::Str(path))]
}

/// The JSON object of a command; there is none for a change whose arguments are neither members
/// nor nothing.
pub open spec fn sync_json(c: Sync) -> Option<Jv> {
    match c {
        Sync::OpenFile { path } => Some(handlers::obj(path_members("open_file"@, path))),
        Sync::CloseFile { path } => Some(handlers::obj(path_members("close_file"@, path))),
        Sync::SaveFile { path } => Some(handlers::obj(path_members("save_file"@, path))),
        Sync::ChangeFile { path, args } => match args {
            Jv::Object(es) => Some(
                handlers::obj(path_members("change_file"@, path) + es),
            ),
            Jv::Null => Some(handlers::obj(path_members("change_file"@, path))),
            _ => None,
        },
        Sync::UpdateFile { path, content } => Some(
            handlers::obj(
                path_members("update_file"@, path).push(("content"@, Jv::Str(content))),
            ),
        ),
        Sync::RemoteSync { info } => Some(
            handlers::obj(seq![("command"@, Jv::Str("remote_sync"@)), ("info"@, info)]),
        ),
    }
}

fn remove_member(m: &JsonMap, key: &str) -> (r: JsonMap)
    ensures
        r@ == without(m@, key@),
{
    let ghost all = m@;
    let mut entries: Vec<(String, Json)> = Vec::new();
    let mut i: usize = 0;
    assert(all.take(0) =~= Seq::<(Seq<char>, Jv)>::empty());
    assert(json::entry_models(entries@) =~= Seq::<(Seq<char>, Jv)>::empty());
    while i < m.entries.len()
        invariant
            all == m@,
            i <= m.entries@.len(),
            json::entry_models(entries@) == without(all.take(i as int), key@),
        decreases m.entries@.len() - i,
    {
        proof {
            assert(all.take(i + 1) =~= all.take(i as int).push(all[i as int]));
            lemma_without_push(all.take(i as int), all[i as int], key@);
        }
        if !text::str_eq(m.entries[i].0.as_str(), key) {
            let ghost before = json::entry_models(entries@);
            entries.push(json::field(m.entries[i].0.as_str(), m.entries[i].1.clone()));
            assert(json::entry_models(entries@) =~= before.push(all[i as int]));
        }
        i = i + 1;
    }
    assert(all.take(i as int) =~= all);
    JsonMap { entries }
}

fn read_tag(v: &Json) -> (r: Option<(String, Json)>)
    ensures
        match tagged(v@) {
            Some(parts) => r is Some && (r->0).0@ == parts.0 && (r->0).1@ == parts.1,
            None => r is None,
        },
{
    match v {
        Json::Object(m) => {
            proof {
                json::lemma_object_model(*m);
            }
            match m.get("command") {
                Some(tag) => match tag.as_str() {
                    Some(s) => Some((s.to_string(), Json::object(remove_member(m, "command")))),
                    None => None,
                },
                None => None,
            }
        },
        Json::Array(a) => {
            proof {
                json::lemma_array_model(*a);
            }
            let ghost all = json::models(a@);
            if a.len() == 0 {
                return None;
            }
            assert(all[0] == a@[0]@);
            let tag = match a[0].as_str() {
                Some(s) => s.to_string(),
                None => return None,
            };
            let mut rest: Vec<Json> = Vec::new();
            let mut i: usize = 1;
            while i < a.len()
                invariant
                    all == json::models(a@),
                    1 <= i <= a@.len(),
                    rest@.len() == i - 1,
                    forall|j: int| 0 <= j < rest@.len() ==> (#[trigger] rest@[j])@ == all[j + 1],
                decreases a@.len() - i,
            {
                rest.push(a[i].clone());
                i = i + 1;
            }
            assert(json::models(rest@) =~= all.skip(1));
            Some((tag, Json::array(rest)))
        },
        _ => None,
    }
}

fn read_path(fields: &Json) -> (r: Option<String>)
    ensures
        match path_alone(fields@) {
            Some(path) => r is Some && (r->0)@ == path,
            None => r is None,
        },
{
    let mut names: Vec<&'static str> = Vec::new();
    names.push("path");
    assert(config::name_texts(names@) =~= seq!["path"@]);
    match config::name_fields(fields, &names) {
        Some(o) => config::get_string(&o, "path"),
        None => None,
    }
}

fn read_update(fields: &Json) -> (r: Option<(String, String)>)
    ensures
        match config::with_names(fields@, seq!["path"@, "content"@]) {
            Some(o) => match (
                config::string_field(o, "path"@),
                config::string_field(o, "content"@),
            ) {
                (Some(path), Some(content)) => r is Some && (r->0).0@ == path && (r->0).1@
                    == content,
                _ => r is None,
            },
            None => r is None,
        },
{
    let mut names: Vec<&'static str> = Vec::new();
    names.push("path");
    names.push("content");
    assert(config::name_texts(names@) =~= seq!["path"@, "content"@]);
    match config::name_fields(fields, &names) {
        Some(o) => match (config::get_string(&o, "path"), config::get_string(&o, "content")) {
            (Some(path), Some(content)) => Some((path, content)),
            _ => None,
        },
        None => None,
    }
}

fn read_info(fields: &Json) -> (r: Option<Json>)
    ensures
        match config::with_names(fields@, seq!["info"@]) {
            Some(o) => match json::member(o, "info"@) {
                Some(info) => r is Some && (r->0)@ == info,
                None => r is None,
            },
            None => r is None,
        },
{
    let mut names: Vec<&'static str> = Vec::new();
    names.push("info");
    assert(config::name_texts(names@) =~= seq!["info"@]);
    match config::name_fields(fields, &names) {
        Some(o) => match o.get("info") {
            Some(info) => Some(info.clone()),
            None => None,
        },
        None => None,
    }
}

fn read_change(fields: Json) -> (r: Option<(String, Json)>)
    ensures
        match fields@ {
            Jv::Object(es) => match config::string_field(fields@, "path"@) {
                Some(path) => r is Some && (r->0).0@ == path && (r->0).1@ == Jv::Object(
                    without(es, "path"@),
                ),
                None => r is None,
            },
            _ => r is None,
        },
{
    let path = config::get_string(&fields, "path");
    match fields {
        Json::Object(m) => {
            proof {
                json::lemma_object_model(m);
            }
            match path {
                Some(path) => Some((path, Json::object(remove_member(&m, "path")))),
                None => None,
            }
        },
        _ => None,
    }
}

impl SyncCommand {
    /// The command that a JSON value holds.
    pub fn from_json(v: &Json) -> (r: Option<SyncCommand>)
        ensures
            match sync_of(v@) {
                Some(c) => r is Some && (r->0)@ == c,
                None => r is None,
            },
    {
        let (tag, fields) = match read_tag(v) {
            Some(parts) => parts,
            None => return None,
        };
        let name = tag.as_str();
        if text::str_eq(name, "open_file") {
            match read_path(&fields) {
                Some(path) => Some(SyncCommand::OpenFile { path }),
                None => None,
            }
        } else if text::str_eq(name, "close_file") {
            match read_path(&fields) {
                Some(path) => Some(SyncCommand::CloseFile { path }),
                None => None,
            }
        } else if text::str_eq(name, "save_file") {
            match read_path(&fields) {
                Some(path) => Some(SyncCommand::SaveFile { path }),
                None => None,
            }
        } else if text::str_eq(name, "change_file") {
            match read_change(fields) {
                Some((path, args)) => Some(SyncCommand::ChangeFile { path, args }),
                None => None,
            }
        } else if text::str_eq(name, "update_file") {
            match read_update(&fields) {
                Some((path, content)) => Some(SyncCommand::UpdateFile { path, content }),
                None => None,
            }
        } else if text::str_eq(name, "remote_sync") {
            match read_info(&fields) {
                Some(info) => Some(SyncCommand::RemoteSync { info }),
                None => None,
            }
        } else {
            None
        }
    }

    /// The command as a JSON object.
    pub fn to_json(&self) -> (r: Option<Json>)
        ensures
            match sync_json(self@) {
                Some(v) => r is Some && (r->0)@ == v,
                None => r is None,
            },
    {
        match self {
            SyncCommand::OpenFile { path } => Some(path_object("open_file", path.as_str())),
            SyncCommand::CloseFile { path } => Some(path_object("close_file", path.as_str())),
            SyncCommand::SaveFile { path } => Some(path_object("save_file", path.as_str())),
            SyncCommand::ChangeFile { path, args } => match args {
                Json::Object(m) => {
                    proof {
                        json::lemma_object_model(*m);
                    }
                    Some(change_object(path.as_str(), m))
                },
                Json::Null => Some(path_object("change_file", path.as_str())),
                _ => None,
            },
            SyncCommand::UpdateFile { path, content } => {
                let mut members = path_fields("update_file", path.as_str());
                let ghost before = json::entry_models(members@);
                members.push(json::field("content", Json::str(content.as_str())));
                assert(json::entry_models(members@) =~= before.push(
                    ("content"@, Jv::Str(content@)),
                ));
                Some(Json::from_members(members))
            },
            SyncCommand::RemoteSync { info } => Some(
                handlers::object2("command", Json::str("remote_sync"), "info", info.clone()),
            ),
        }
    }
}

fn path_fields(tag: &str, path: &str) -> (r: Vec<(String, Json)>)
    ensures
        json::entry_models(r@) == path_members(tag@, path@),
{
    let mut members: Vec<(String, Json)> = Vec::new();
    members.push(json::field("command", Json::str(tag)));
    members.push(json::field("path", Json::str(path)));
    assert(json::entry_models(members@) =~= path_members(tag@, path@));
    members
}

fn path_object(tag: &str, path: &str) -> (r: Json)
    ensures
        r@ == handlers::obj(path_members(tag@, path@)),
{
    Json::from_members(path_fields(tag, path))
}

fn change_object(path: &str, args: &JsonMap) -> (r: Json)
    ensures
        r@ == handlers::obj(path_members("change_file"@, path@) + args@),
{
    let mut members = path_fields("change_file", path);
    let ghost start = json::entry_models(members@);
    let ghost all = args@;
    let mut i: usize = 0;
    assert(start + all.take(0) =~= start);
    while i < args.entries.len()
        invariant
            all == args@,
            i <= args.entries@.len(),
            json::entry_models(members@) == start + all.take(i as int),
        decreases args.entries@.len() - i,
    {
        let ghost before = json::entry_models(members@);
        members.push(json::field(args.entries[i].0.as_str(), args.entries[i].1.clone()));
        assert(json::entry_models(members@) =~= before.push(all[i as int]));
        assert(start + all.take(i + 1) =~= (start + all.take(i as int)).push(all[i as int]));
        i = i + 1;
    }
    assert(all.take(i as int) =~= all);
    Json::from_members(members)
}

proof fn lemma_tags()
    ensures
        "command"@ != "path"@,
        "command"@ != "content"@,
        "command"@ != "info"@,
        "path"@ != "content"@,
        "open_file"@ != "close_file"@,
        "open_file"@ != "save_file"@,
        "open_file"@ != "change_file"@,
        "open_file"@ != "update_file"@,
        "open_file"@ != "remote_sync"@,
        "close_file"@ != "save_file"@,
        "close_file"@ != "change_file"@,
        "close_file"@ != "update_file"@,
        "close_file"@ != "remote_sync"@,
        "save_file"@ != "change_file"@,
        "save_file"@ != "update_file"@,
        "save_file"@ != "remote_sync"@,
        "change_file"@ != "update_file"@,
        "change_file"@ != "remote_sync"@,
        "update_file"@ != "remote_sync"@,
{
    reveal_strlit("command");
    reveal_strlit("path");
    reveal_strlit("content");
    reveal_strlit("info");
    reveal_strlit("open_file");
    reveal_strlit("close_file");
    reveal_strlit("save_file");
    reveal_strlit("change_file");
    reveal_strlit("update_file");
    reveal_strlit("remote_sync");
    assert("command"@[1] == 'o' && "command"@[2] == 'm' && "content"@[2] == 'n');
    assert("open_file"@[0] == 'o' && "close_file"@[0] == 'c' && "save_file"@[0] == 's');
    assert("change_file"@[1] == 'h' && "close_file"@[1] == 'l' && "update_file"@[0] == 'u');
    assert("remote_sync"@[0] == 'r' && "change_file"@[0] == 'c');
}

/// The members of a message about a path, without its command.
proof fn lemma_path_fields(tag: Seq<char>, path: Seq<char>, more: Seq<(Seq<char>, Jv)>)
    requires
        without(more, "command"@) == more,
    ensures
        without(path_members(tag, path) + more, "command"@) == seq![("path"@, Jv::Str(path))]
            + more,
{
    lemma_tags();
    reveal_with_fuel(without, 3);
    let start = path_members(tag, path);
    lemma_without_concat(start, more, "command"@);
    assert(start.skip(1) =~= seq![("path"@, Jv::Str(path))]);
    assert(start.skip(1).skip(1) =~= Seq::<(Seq<char>, Jv)>::empty());
    assert(seq![("path"@, Jv::Str(path))] + Seq::<(Seq<char>, Jv)>::empty() =~= seq![
        ("path"@, Jv::Str(path)),
    ]);
    assert(without(start, "command"@) =~= seq![("path"@, Jv::Str(path))]);
}

proof fn lemma_path_alone(tag: Seq<char>, path: Seq<char>)
    ensures
        tagged(handlers::obj(path_members(tag, path))) is Some,
        ({
            let (t, fields) = tagged(handlers::obj(path_members(tag, path)))->0;
            t == tag && path_alone(fields) == Some(path)
        }),
{
    lemma_tags();
    let m = path_members(tag, path);
    jsonrpc::lemma_object_member(m, 0);
    let none = Seq::<(Seq<char>, Jv)>::empty();
    assert(m + none =~= m);
    lemma_path_fields(tag, path, none);
    lemma_without_object(m, "command"@);
    let rest = seq![("path"@, Jv::Str(path))] + none;
    assert(rest =~= seq![("path"@, Jv::Str(path))]);
    jsonrpc::lemma_object_member(rest, 0);
}

/// Reading the JSON object of a command gives the command back. The arguments of a change must
/// be an object that holds neither a command nor a path of its own.
pub proof fn law_sync_command_round_trip(c: Sync)
    requires
        c matches Sync::ChangeFile { args, .. } ==> args is Object && json::ascending(
            args->Object_0,
        ) && json::lookup(args->Object_0, "command"@) is None && json::lookup(
            args->Object_0,
            "path"@,
        ) is None,
    ensures
        sync_json(c) is Some,
        sync_of(sync_json(c)->0) == Some(c),
{
    lemma_tags();
    reveal_with_fuel(without, 3);
    match c {
        Sync::OpenFile { path } => lemma_path_alone("open_file"@, path),
        Sync::CloseFile { path } => lemma_path_alone("close_file"@, path),
        Sync::SaveFile { path } => lemma_path_alone("save_file"@, path),
        Sync::ChangeFile { path, args } => {
            let es = args->Object_0;
            let m = path_members("change_file"@, path) + es;
            let rest = seq![("path"@, Jv::Str(path))] + es;
            lemma_without_none(es, "command"@);
            lemma_without_none(es, "path"@);
            lemma_path_fields("change_file"@, path, es);
            lemma_without_object(m, "command"@);
            lemma_front_member(path_members("change_file"@, path), es, 0);
            lemma_front_member(seq![("path"@, Jv::Str(path))], es, 0);
            lemma_without_object(rest, "path"@);
            lemma_without_concat(seq![("path"@, Jv::Str(path))], es, "path"@);
            assert(seq![("path"@, Jv::Str(path))].skip(1) =~= Seq::<(Seq<char>, Jv)>::empty());
            assert(without(rest, "path"@) =~= es);
            crate::convert::law_object_of_ascending(es);
        },
        Sync::UpdateFile { path, content } => {
            let more = seq![("content"@, Jv::Str(content))];
            let m = path_members("update_file"@, path).push(("content"@, Jv::Str(content)));
            assert(m =~= path_members("update_file"@, path) + more);
            assert(more.skip(1) =~= Seq::<(Seq<char>, Jv)>::empty());
            assert(without(more, "command"@) =~= more);
            lemma_path_fields("update_file"@, path, more);
            jsonrpc::lemma_object_member(m, 0);
            lemma_without_object(m, "command"@);
            let rest = seq![("path"@, Jv::Str(path))] + more;
            jsonrpc::lemma_object_member(rest, 0);
            jsonrpc::lemma_object_member(rest, 1);
        },
        Sync::RemoteSync { info } => {
            let m = seq![("command"@, Jv::Str("remote_sync"@)), ("info"@, info)];
            jsonrpc::lemma_object_member(m, 0);
            lemma_without_object(m, "command"@);
            assert(m.skip(1) =~= seq![("info"@, info)]);
            assert(m.skip(1).skip(1) =~= Seq::<(Seq<char>, Jv)>::empty());
            assert(without(m, "command"@) =~= seq![("info"@, info)]);
            jsonrpc::lemma_object_member(seq![("info"@, info)], 0);
        },
    }
}

/// A member that no later one replaces is found in the object.
proof fn lemma_front_member(
    start: Seq<(Seq<char>, Jv)>,
    more: Seq<(Seq<char>, Jv)>,
    i: int,
)
    requires
        0 <= i < start.len(),
        json::distinct_keys(start),
        json::lookup(more, start[i].0) is None,
    ensures
        json::lookup(json::object(start + more), start[i].0) == Some(start[i].1),
    decreases more.len(),
{
    if more.len() == 0 {
        assert(start + more =~= start);
        jsonrpc::lemma_object_member(start, i);
    } else {
        let front = more.drop_last();
        let last = more.last();
        assert(front.push(last) =~= more);
        lemma_lookup_front(front, last, start[i].0);
        lemma_front_member(start, front, i);
        assert((start + more).drop_last() =~= start + front);
        json::law_lookup_insert(json::object(start + front), last.0, last.1, start[i].0);
    }
}

proof fn lemma_lookup_front(es: Seq<(Seq<char>, Jv)>, last: (Seq<char>, Jv), key: Seq<char>)
    requires
        json::lookup(es.push(last), key) is None,
    ensures
        json::lookup(es, key) is None,
        last.0 != key,
    decreases es.len(),
{
    let longer = es.push(last);
    if es.len() > 0 {
        assert(longer[0] == es[0]);
        assert(longer.skip(1) =~= es.skip(1).push(last));
        lemma_lookup_front(es.skip(1), last, key);
    }
}

} // verus!
