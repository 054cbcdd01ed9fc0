//! What a conversation with a language server owes, said of what goes in and what comes out: what
//! follows from each message of the server, and what each message to the server carries.

use crate::capabilities;
use crate::handlers;
use crate::handlers::laws;
use crate::json;
use crate::json::Jv;
use crate::jsonrpc;
use crate::jsonrpc::{Incoming, IncomingFault};
use crate::session;
use crate::session::{Action, Conversation, LaunchError, Outgoing, Queues};
use crate::uri;
use vstd::prelude::*;

verus! {

// ---------------------------------------------------------------------------
// Messages of the server
// ---------------------------------------------------------------------------

/// A value with an id and a result is a response, whatever else it holds.
pub proof fn law_result_is_response(v: Jv, id: u64, result: Jv)
    requires
        json::member(v, "id"@) == Some(laws::whole(id)),
        json::member(v, "result"@) == Some(result),
    ensures
        jsonrpc::incoming_of(v) == Ok::<Incoming, IncomingFault>(Incoming::Response { id, result }),
{
}

/// A value with an id, an error object and no result is an error response.
pub proof fn law_error_is_error_response(v: Jv, id: u64, error: Jv, code: i64, message: Seq<char>)
    requires
        json::member(v, "id"@) == Some(laws::whole(id)),
        json::member(v, "result"@) is None,
        json::member(v, "error"@) == Some(error),
        json::member(error, "code"@) == Some(json::int_number(code as int)),
        json::member(error, "message"@) == Some(Jv::Str(message)),
    ensures
        jsonrpc::incoming_of(v) is Ok,
        ({
            let read = jsonrpc::incoming_of(v)->Ok_0;
            &&& read is ErrorResponse
            &&& read->ErrorResponse_id == id
            &&& read->error.code == code
            &&& read->error.message == message
            &&& json::member(error, "data"@) is None ==> read->error.data is None
            &&& json::member(error, "data"@) is Some && !(laws::under(error, "data"@) is Null)
                ==> read->error.data == json::member(error, "data"@)
        }),
{
}

/// A value with a method and without a result or an error is a request where it has an id, and a
/// notification where it has none.
pub proof fn law_method_is_request_or_notification(v: Jv, method: Seq<char>)
    requires
        json::member(v, "method"@) == Some(Jv::Str(method)),
        json::member(v, "result"@) is None,
        json::member(v, "error"@) is None,
    ensures
        forall|id: u64|
            json::member(v, "id"@) == Some(#[trigger] laws::whole(id)) ==> jsonrpc::incoming_of(v)
                == Ok::<Incoming, IncomingFault>(
                Incoming::Request { id, method, params: laws::under(v, "params"@) },
            ),
        json::member(v, "id"@) is None ==> jsonrpc::incoming_of(v) == Ok::<
            Incoming,
            IncomingFault,
        >(Incoming::Notification { method, params: laws::under(v, "params"@) }),
{
}

// ---------------------------------------------------------------------------
// What follows from them
// ---------------------------------------------------------------------------

/// Every notification is handed on, once, with its own method and parameters, and changes nothing.
pub proof fn law_notification_handed_on(c: Conversation, method: Seq<char>, params: Jv)
    ensures
        session::handled(c, Incoming::Notification { method, params }) == (
            seq![Action::Notify { method, params }],
            c,
        ),
{
}

/// A response to an awaited request hands its own result to whoever awaits it, and no longer is
/// that request awaited, nor is any other touched.
pub proof fn law_result_delivered(c: Conversation, id: u64, result: Jv)
    requires
        id != c.initialize_id,
    ensures
        ({
            let (out, after) = session::handled(c, Incoming::Response { id, result });
            &&& c.pending.contains(id) ==> out == seq![Action::Resolve { id, result }]
            &&& !c.pending.contains(id) ==> out.len() == 0
            &&& after == (Conversation { pending: after.pending, ..c })
            &&& forall|other: u64| #[trigger]
                after.pending.contains(other) <==> c.pending.contains(other) && other != id
        }),
{
    if !c.pending.contains(id) {
        assert(session::handled(c, Incoming::Response { id, result }).1 == c);
    }
}

/// An error response to an awaited request hands the code and the message to whoever awaits it.
pub proof fn law_error_delivered(c: Conversation, id: u64, error: jsonrpc::RpcError)
    ensures
        ({
            let (out, after) = session::handled(c, Incoming::ErrorResponse { id, error });
            &&& !c.pending.contains(id) ==> out.len() == 0
            &&& c.pending.contains(id) ==> ({
                &&& out.len() == 1
                &&& out[0] is Resolve
                &&& out[0]->Resolve_id == id
                &&& handlers::made_of(
                    out[0]->result,
                    seq![("error"@, laws::under(out[0]->result, "error"@))],
                )
                &&& handlers::made_of(
                    laws::under(out[0]->result, "error"@),
                    seq![
                        ("code"@, json::int_number(error.code as int)),
                        ("message"@, Jv::Str(error.message)),
                    ],
                )
            })
            &&& after == (Conversation { pending: after.pending, ..c })
            &&& forall|other: u64| #[trigger]
                after.pending.contains(other) <==> c.pending.contains(other) && other != id
        }),
{
    reveal_strlit("code");
    reveal_strlit("message");
    assert("code"@.len() != "message"@.len());
    handlers::lemma_made_of_two(
        "code"@,
        json::int_number(error.code as int),
        "message"@,
        Jv::Str(error.message),
    );
    handlers::lemma_made_of_one("error"@, jsonrpc::error_json(error.code, error.message));
    if !c.pending.contains(id) {
        assert(session::handled(c, Incoming::ErrorResponse { id, error }).1 == c);
    }
}

/// The members of a response to the server.
pub open spec fn response_carries(s: Seq<char>, id: u64, result: Jv) -> bool {
    s == json::json_members_text(
        seq![("jsonrpc"@, Jv::Str("2.0"@)), ("id"@, laws::whole(id)), ("result"@, result)],
    )
}

/// Whether a request is answered with a result, at once, and then handed on.
pub open spec fn answered_with(out: Seq<Action>, id: u64, request: Action, result: Jv) -> bool {
    &&& out.len() == 2
    &&& out[0] is Send
    &&& out[0]->Send_0 is Normal
    &&& response_carries(out[0]->Send_0->Normal_0, id, result)
    &&& out[1] == request
}

/// The methods that are answered without further ado.
pub open spec fn answered_methods() -> Seq<Seq<char>> {
    seq![
        "workspace/configuration"@,
        "window/workDoneProgress/create"@,
        "client/registerCapability"@,
        "workspace/applyEdit"@,
        "workspace/diagnostic/refresh"@,
    ]
}

/// Every request of the server is handed on with its own id, method and parameters. Before that,
/// a request for configurations is answered with as many empty ones as were asked for, one for a
/// request without items; an edit is answered as applied; and the three that need no more than an
/// answer are answered with null. No other is answered.
pub proof fn law_server_requests(c: Conversation, id: u64, method: Seq<char>, params: Jv)
    ensures
        ({
            let (out, after) = session::handled(c, Incoming::Request { id, method, params });
            let request = Action::ServerRequest { id, method, params };
            &&& after == c
            &&& !answered_methods().contains(method) ==> out == seq![request]
            &&& method == "window/workDoneProgress/create"@ || method
                == "client/registerCapability"@ || method == "workspace/diagnostic/refresh"@
                ==> answered_with(out, id, request, Jv::Null)
            &&& method == "workspace/applyEdit"@ ==> exists|result: Jv|
                {
                    &&& #[trigger] answered_with(out, id, request, result)
                    &&& handlers::made_of(result, seq![("applied"@, Jv::Bool(true))])
                }
            &&& method == "workspace/configuration"@ ==> exists|answers: Seq<Jv>|
                {
                    &&& #[trigger] answered_with(out, id, request, Jv::Array(answers))
                    &&& laws::under(params, "items"@) is Array ==> answers.len() == laws::under(
                        params,
                        "items"@,
                    )->Array_0.len()
                    &&& !(laws::under(params, "items"@) is Array) ==> answers.len() == 1
                    &&& forall|i: int|
                        0 <= i < answers.len() ==> handlers::made_of(
                            #[trigger] answers[i],
                            seq![],
                        )
                }
        }),
{
    lemma_answered_methods();
    let (out, after) = session::handled(c, Incoming::Request { id, method, params });
    let request = Action::ServerRequest { id, method, params };
    let all = answered_methods();
    if !all.contains(method) {
        assert(all[0] != method && all[1] != method && all[2] != method && all[3] != method
            && all[4] != method);
        assert(out =~= seq![request]);
    }
    handlers::lemma_made_of_none();
    handlers::lemma_made_of_one("applied"@, Jv::Bool(true));
    if method == "workspace/applyEdit"@ {
        assert(answered_with(
            out,
            id,
            request,
            handlers::obj(seq![("applied"@, Jv::Bool(true))]),
        ));
    }
    if method == "workspace/configuration"@ {
        let n: nat = match json::member(params, "items"@) {
            Some(Jv::Array(items)) => items.len(),
            _ => 1,
        };
        let answers = Seq::new(n, |i: int| handlers::obj(seq![]));
        assert(answered_with(out, id, request, Jv::Array(answers)));
    }
}

proof fn lemma_answered_methods()
    ensures
        "workspace/configuration"@.len() == 23,
        "window/workDoneProgress/create"@.len() == 30,
        "client/registerCapability"@.len() == 25,
        "workspace/applyEdit"@.len() == 19,
        "workspace/diagnostic/refresh"@.len() == 28,
{
    reveal_strlit("workspace/configuration");
    reveal_strlit("window/workDoneProgress/create");
    reveal_strlit("client/registerCapability");
    reveal_strlit("workspace/applyEdit");
    reveal_strlit("workspace/diagnostic/refresh");
}

/// Whether a text is a notification with that method and those parameters.
pub open spec fn notification_carries(s: Seq<char>, method: Seq<char>, params: Jv) -> bool {
    s == json::json_members_text(
        seq![("jsonrpc"@, Jv::Str("2.0"@)), ("method"@, Jv::Str(method)), ("params"@, params)],
    )
}

/// The initialize result is followed by `initialized`, then by the settings of the config, both in
/// the init queue, and then normal messages flow. What the result says of the server is kept.
pub proof fn law_initialize_result(c: Conversation, result: Jv)
    ensures
        ({
            let (out, after) = session::handled(
                c,
                Incoming::Response { id: c.initialize_id, result },
            );
            &&& out.len() == 3
            &&& exists|empty: Jv, sent: Jv|
                {
                    &&& #[trigger] handlers::made_of(empty, seq![])
                    &&& #[trigger] handlers::made_of(
                        sent,
                        seq![("settings"@, laws::under(sent, "settings"@))],
                    )
                    &&& match json::member(c.info, "settings"@) {
                        Some(settings) => laws::under(sent, "settings"@) == settings,
                        None => handlers::made_of(laws::under(sent, "settings"@), seq![]),
                    }
                    &&& out[0] is Send && out[0]->Send_0 is Init && notification_carries(
                        out[0]->Send_0->Init_0,
                        "initialized"@,
                        empty,
                    )
                    &&& out[1] is Send && out[1]->Send_0 is Init && notification_carries(
                        out[1]->Send_0->Init_0,
                        "workspace/didChangeConfiguration"@,
                        sent,
                    )
                }
            &&& out[2] is Initialized
            &&& after == (Conversation { caps: after.caps, flags: after.flags, ..c })
            &&& match json::member(result, "capabilities"@) {
                Some(told) => match capabilities::lsp_capabilities(told) {
                    Some(read) => after.caps == Some(capabilities::caps_of(read)) && after.flags
                        == capabilities::flags_of(capabilities::caps_of(read)),
                    None => after == c,
                },
                None => after == c,
            }
        }),
{
    let (out, after) = session::handled(c, Incoming::Response { id: c.initialize_id, result });
    let empty = handlers::obj(seq![]);
    handlers::lemma_made_of_none();
    let settings = session::member_or_empty(c.info, "settings"@);
    handlers::lemma_made_of_one("settings"@, settings);
    let sent = handlers::obj(seq![("settings"@, settings)]);
    assert(laws::under(sent, "settings"@) == settings);
    assert(handlers::made_of(empty, seq![]));
    assert(handlers::made_of(sent, seq![("settings"@, laws::under(sent, "settings"@))]));
}

// ---------------------------------------------------------------------------
// Messages to the server
// ---------------------------------------------------------------------------

/// A request carries its id, its method and its parameters; a notification its method and its
/// parameters; a response its id and its result.
pub proof fn law_message_members(id: u64, method: Seq<char>, v: Jv)
    ensures
        session::request_text(id, method, v) == json::json_members_text(
            seq![
                ("jsonrpc"@, Jv::Str("2.0"@)),
                ("id"@, laws::whole(id)),
                ("method"@, Jv::Str(method)),
                ("params"@, v),
            ],
        ),
        notification_carries(session::notification_text(method, v), method, v),
        response_carries(session::response_text(id, v), id, v),
{
}

/// An opened document goes to the server with its URI, its language, its version and its text.
pub proof fn law_did_open_params(
    uri: Seq<char>,
    language_id: Seq<char>,
    version: i32,
    content: Seq<char>,
)
    ensures
        ({
            let params = session::did_open_params(uri, language_id, version, content);
            let opened = laws::under(params, "textDocument"@);
            &&& handlers::made_of(params, seq![("textDocument"@, opened)])
            &&& handlers::made_of(
                opened,
                seq![
                    ("uri"@, Jv::Str(uri)),
                    ("languageId"@, Jv::Str(language_id)),
                    ("version"@, json::int_number(version as int)),
                    ("text"@, Jv::Str(content)),
                ],
            )
        }),
{
    reveal_strlit("uri");
    reveal_strlit("languageId");
    reveal_strlit("version");
    reveal_strlit("text");
    assert("uri"@.len() == 3 && "languageId"@.len() == 10 && "version"@.len() == 7
        && "text"@.len() == 4);
    let members = seq![
        ("uri"@, Jv::Str(uri)),
        ("languageId"@, Jv::Str(language_id)),
        ("version"@, json::int_number(version as int)),
        ("text"@, Jv::Str(content)),
    ];
    handlers::lemma_made_of(members);
    handlers::lemma_made_of_one("textDocument"@, handlers::obj(members));
}

/// A closed document goes to the server with its URI.
pub proof fn law_did_close_params(uri: Seq<char>)
    ensures
        ({
            let params = session::did_close_params(uri);
            let closed = laws::under(params, "textDocument"@);
            &&& handlers::made_of(params, seq![("textDocument"@, closed)])
            &&& handlers::made_of(closed, seq![("uri"@, Jv::Str(uri))])
        }),
{
    handlers::lemma_made_of_one("uri"@, Jv::Str(uri));
    handlers::lemma_made_of_one("textDocument"@, handlers::obj(seq![("uri"@, Jv::Str(uri))]));
}

/// A change goes to the server with the URI, the new version and the one change.
pub proof fn law_did_change_params(uri: Seq<char>, version: i32, change: Jv)
    ensures
        ({
            let params = session::did_change_params(uri, version, change);
            let changed = laws::under(params, "textDocument"@);
            &&& handlers::made_of(
                params,
                seq![("textDocument"@, changed), ("contentChanges"@, Jv::Array(seq![change]))],
            )
            &&& handlers::made_of(
                changed,
                seq![("uri"@, Jv::Str(uri)), ("version"@, json::int_number(version as int))],
            )
        }),
{
    reveal_strlit("uri");
    reveal_strlit("version");
    reveal_strlit("textDocument");
    reveal_strlit("contentChanges");
    assert("uri"@.len() != "version"@.len());
    assert("textDocument"@.len() != "contentChanges"@.len());
    let number = json::int_number(version as int);
    handlers::lemma_made_of_two("uri"@, Jv::Str(uri), "version"@, number);
    handlers::lemma_made_of_two(
        "textDocument"@,
        handlers::obj(seq![("uri"@, Jv::Str(uri)), ("version"@, number)]),
        "contentChanges"@,
        Jv::Array(seq![change]),
    );
}

/// A change of a range names the range, its length and the text that replaces it; a change of the
/// whole document names the text alone.
pub proof fn law_changes(start: Jv, end: Jv, length: u64, content: Seq<char>)
    ensures
        ({
            let change = session::range_change(start, end, length, content);
            let range = laws::under(change, "range"@);
            &&& handlers::made_of(
                change,
                seq![
                    ("range"@, range),
                    ("rangeLength"@, laws::whole(length)),
                    ("text"@, Jv::Str(content)),
                ],
            )
            &&& handlers::made_of(range, seq![("start"@, start), ("end"@, end)])
        }),
        handlers::made_of(session::full_change(content), seq![("text"@, Jv::Str(content))]),
{
    reveal_strlit("start");
    reveal_strlit("end");
    reveal_strlit("range");
    reveal_strlit("rangeLength");
    reveal_strlit("text");
    assert("start"@.len() != "end"@.len());
    assert("range"@.len() == 5 && "rangeLength"@.len() == 11 && "text"@.len() == 4);
    handlers::lemma_made_of_two("start"@, start, "end"@, end);
    let members = seq![
        ("range"@, handlers::obj(seq![("start"@, start), ("end"@, end)])),
        ("rangeLength"@, laws::whole(length)),
        ("text"@, Jv::Str(content)),
    ];
    handlers::lemma_made_of(members);
    assert(members[0].0 == "range"@);
    handlers::lemma_made_of_one("text"@, Jv::Str(content));
}

/// A saved document goes to the server with its URI, and with its text where that is wanted.
pub proof fn law_did_save_params(uri: Seq<char>, content: Seq<char>)
    ensures
        ({
            let params = session::did_save_params(uri, Some(content));
            let saved = laws::under(params, "textDocument"@);
            &&& handlers::made_of(
                params,
                seq![("textDocument"@, saved), ("text"@, Jv::Str(content))],
            )
            &&& handlers::made_of(saved, seq![("uri"@, Jv::Str(uri))])
        }),
        ({
            let params = session::did_save_params(uri, None);
            let saved = laws::under(params, "textDocument"@);
            &&& handlers::made_of(params, seq![("textDocument"@, saved)])
            &&& handlers::made_of(saved, seq![("uri"@, Jv::Str(uri))])
        }),
{
    reveal_strlit("textDocument");
    reveal_strlit("text");
    assert("textDocument"@.len() != "text"@.len());
    let saved = handlers::obj(seq![("uri"@, Jv::Str(uri))]);
    handlers::lemma_made_of_one("uri"@, Jv::Str(uri));
    handlers::lemma_made_of_one("textDocument"@, saved);
    handlers::lemma_made_of_two("textDocument"@, saved, "text"@, Jv::Str(content));
}

/// The first request tells the server who asks, where the project is, what the client can do and
/// which options the config has.
pub proof fn law_initialize_params(
    info: Jv,
    project_path: Seq<char>,
    root: Seq<char>,
    process_id: u32,
    folders: Jv,
)
    ensures
        ({
            let params = session::initialize_params(info, project_path, root, process_id, folders);
            let client = laws::under(params, "clientInfo"@);
            let options = laws::under(params, "initializationOptions"@);
            &&& handlers::made_of(
                params,
                seq![
                    ("processId"@, laws::whole(process_id as u64)),
                    ("rootPath"@, Jv::Str(project_path)),
                    ("rootUri"@, Jv::Str(uri::uri_of(root))),
                    ("clientInfo"@, client),
                    (
                        "capabilities"@,
                        capabilities::overridden(
                            capabilities::client_json(true),
                            laws::under(info, "capabilities"@),
                        ),
                    ),
                    ("initializationOptions"@, options),
                    ("workspaceFolders"@, folders),
                ],
            )
            &&& handlers::made_of(
                client,
                seq![("name"@, Jv::Str("emacs"@)), ("version"@, Jv::Str("lsp-bridge"@))],
            )
            &&& match json::member(info, "initializationOptions"@) {
                Some(given) => options == given,
                None => handlers::made_of(options, seq![]),
            }
        }),
{
    reveal_strlit("processId");
    reveal_strlit("rootPath");
    reveal_strlit("rootUri");
    reveal_strlit("clientInfo");
    reveal_strlit("capabilities");
    reveal_strlit("initializationOptions");
    reveal_strlit("workspaceFolders");
    reveal_strlit("name");
    reveal_strlit("version");
    assert("name"@.len() != "version"@.len());
    assert("processId"@.len() == 9 && "rootPath"@.len() == 8 && "rootUri"@.len() == 7
        && "clientInfo"@.len() == 10 && "capabilities"@.len() == 12
        && "initializationOptions"@.len() == 21 && "workspaceFolders"@.len() == 16);
    handlers::lemma_made_of_two(
        "name"@,
        Jv::Str("emacs"@),
        "version"@,
        Jv::Str("lsp-bridge"@),
    );
    handlers::lemma_made_of_none();
    let client = handlers::obj(
        seq![("name"@, Jv::Str("emacs"@)), ("version"@, Jv::Str("lsp-bridge"@))],
    );
    let options = session::member_or_empty(info, "initializationOptions"@);
    let members = seq![
        ("processId"@, laws::whole(process_id as u64)),
        ("rootPath"@, Jv::Str(project_path)),
        ("rootUri"@, Jv::Str(uri::uri_of(root))),
        ("clientInfo"@, client),
        (
            "capabilities"@,
            capabilities::overridden(
                capabilities::client_json(true),
                laws::under(info, "capabilities"@),
            ),
        ),
        ("initializationOptions"@, options),
        ("workspaceFolders"@, folders),
    ];
    handlers::lemma_made_of(members);
    assert(members[3].0 == "clientInfo"@);
    assert(members[5].0 == "initializationOptions"@);
}

/// The strings of two lists together are those of the first and then those of the second; a list
/// of one string holds that string, and a list of one other value holds none.
pub proof fn law_strings_concat(a: Seq<Jv>, b: Seq<Jv>)
    ensures
        capabilities::strings_of(a + b) == capabilities::strings_of(a) + capabilities::strings_of(
            b,
        ),
        forall|s: Seq<char>| #[trigger]
            capabilities::strings_of(seq![Jv::Str(s)]) == seq![s],
        forall|v: Jv|
            !(v is Str) ==> (#[trigger] capabilities::strings_of(seq![v])).len() == 0,
    decreases b.len(),
{
    if b.len() == 0 {
        assert(a + b =~= a);
    } else {
        assert((a + b).drop_last() =~= a + b.drop_last());
        assert((a + b).last() == b.last());
        law_strings_concat(a, b.drop_last());
    }
    assert(capabilities::strings_of(a + b) =~= capabilities::strings_of(a)
        + capabilities::strings_of(b));
    assert forall|v: Jv| (#[trigger] capabilities::strings_of(seq![v])) == (if v is Str {
        seq![v->Str_0]
    } else {
        seq![]
    }) by {
        assert(seq![v].drop_last() =~= Seq::<Jv>::empty());
        assert(capabilities::strings_of(seq![v].drop_last()) =~= Seq::<Seq<char>>::empty());
    }
}

/// A command is its first string, with the strings behind it as the arguments.
pub proof fn law_launch_command(info: Jv, program: Seq<char>, rest: Seq<Jv>)
    ensures
        json::member(info, "command"@) == Some(Jv::Array(seq![Jv::Str(program)] + rest))
            ==> session::command_of(info) == Ok::<(Seq<char>, Seq<Seq<char>>), LaunchError>(
            (program, capabilities::strings_of(rest)),
        ),
        !(laws::under(info, "command"@) is Array) ==> session::command_of(info) == Err::<
            (Seq<char>, Seq<Seq<char>>),
            LaunchError,
        >(LaunchError::MissingCommand),
        json::member(info, "command"@) == Some(Jv::Array(Seq::<Jv>::empty()))
            ==> session::command_of(info) == Err::<(Seq<char>, Seq<Seq<char>>), LaunchError>(
            LaunchError::ProgramNotString,
        ),
{
    assert((seq![Jv::Str(program)] + rest).skip(1) =~= rest);
}

// ---------------------------------------------------------------------------
// Their order
// ---------------------------------------------------------------------------

/// The first init message goes out at once. What comes before the server is initialized waits
/// behind what waits already, in its own queue, and what comes after goes out at once.
pub proof fn law_messages_in_order(q: Queues, s: Seq<char>)
    requires
        session::queues_inv(q),
    ensures
        q.started && !q.initialized ==> session::accepted(q, Outgoing::Init(s)) == (
            Seq::<Seq<char>>::empty(),
            Queues { init: q.init.push(s), ..q },
        ),
        !q.started && !q.initialized ==> session::accepted(q, Outgoing::Init(s)) == (
            seq![s],
            Queues { started: true, ..q },
        ),
        !(q.started && q.initialized) ==> session::accepted(q, Outgoing::Normal(s)) == (
            Seq::<Seq<char>>::empty(),
            Queues { normal: q.normal.push(s), ..q },
        ),
        q.started && q.initialized ==> session::accepted(q, Outgoing::Normal(s)) == (seq![s], q)
            && session::accepted(q, Outgoing::Init(s)) == (seq![s], q),
        q.started ==> session::released(q).0 == q.init + q.normal && session::released(q).1.init
            == Seq::<Seq<char>>::empty() && session::released(q).1.normal == Seq::<
            Seq<char>,
        >::empty(),
        session::released(q).1.initialized,
        session::released(q).1.started == q.started,
        !q.started ==> session::released(q).0.len() == 0 && session::released(q).1.normal
            == q.normal,
{
}

} // verus!
