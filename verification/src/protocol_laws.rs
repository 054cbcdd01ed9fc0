//! What is said on the wires: the form of each message to and from Emacs, how values cross between
//! the two notations, and the form of what goes to a remote machine.

use crate::concurrent;
use crate::config::ConfigError;
use crate::convert;
use crate::epc;
use crate::epc::{Action, Connection};
use crate::float;
use crate::handlers;
use crate::handlers::laws;
use crate::json;
use crate::json::{Jn, Jv};
use crate::jsonrpc;
use crate::jsonrpc::{Incoming, IncomingFault};
use crate::members;
use crate::message;
use crate::message::{EvalArg, Message, MessageFault};
use crate::remote::docker;
use crate::remote::protocol;
use crate::remote::protocol::{Elisp, Remote, Sync};
use crate::sexp;
use crate::sexp::Sexp;
use crate::text;
use crate::transport;
use crate::uri;
use crate::wire;
use vstd::prelude::*;
use vstd::utf8::*;

verus! {

// ---------------------------------------------------------------------------
// Values
// ---------------------------------------------------------------------------

/// What the simple values of Emacs are in JSON: nothing and false are null, a name is a text.
pub proof fn law_json_of_simple(s: Seq<char>, n: i64, a: Sexp, b: Sexp)
    ensures
        convert::json_of(Sexp::Nil) == Jv::Null,
        convert::json_of(Sexp::Bool(true)) == Jv::Bool(true),
        convert::json_of(Sexp::Bool(false)) == Jv::Null,
        n >= 0 ==> convert::json_of(Sexp::Integer(n)) == laws::whole(n as u64),
        n < 0 ==> convert::json_of(Sexp::Integer(n)) == Jv::Number(Jn::NegInt(n)),
        convert::json_of(Sexp::String(s)) == Jv::Str(s),
        convert::json_of(Sexp::Keyword(s)) == Jv::Str(s),
        s != "t"@ && s != "nil"@ ==> convert::json_of(Sexp::Symbol(s)) == Jv::Str(s),
        convert::json_of(Sexp::Symbol("t"@)) == Jv::Bool(true),
        convert::json_of(Sexp::Symbol("nil"@)) == Jv::Null,
        convert::json_of(Sexp::Cons(Box::new(a), Box::new(b))) == Jv::Array(
            seq![convert::json_of(a), convert::json_of(b)],
        ),
        convert::json_of(Sexp::Quoted(Box::new(a))) == convert::json_of(a),
        convert::json_of(Sexp::Float(s)) == (match float::number_text(s) {
            Some(t) => Jv::Number(Jn::Float(t)),
            None => Jv::Null,
        }),
{
    reveal_strlit("t");
    reveal_strlit("nil");
    assert("t"@.len() != "nil"@.len());
}

/// A list of keywords and values is an object: under each keyword, without its colon, stands the
/// value behind it.
pub proof fn law_json_of_plist(keys: Seq<Seq<char>>, values: Seq<Sexp>, items: Seq<Sexp>, i: int)
    requires
        keys.len() > 0,
        values.len() == keys.len(),
        items.len() == 2 * keys.len(),
        forall|k: int| 0 <= k < keys.len() ==> items[2 * k] == Sexp::Keyword(seq![':'] + #[trigger] keys[k]),
        forall|k: int| 0 <= k < keys.len() ==> items[2 * k + 1] == #[trigger] values[k],
        forall|k: int, l: int| 0 <= k < l < keys.len() ==> #[trigger] keys[k] != #[trigger] keys[l],
        0 <= i < keys.len(),
    ensures
        json::member(convert::json_of(Sexp::List(items)), keys[i]) == Some(
            convert::json_of(values[i]),
        ),
        forall|key: Seq<char>|
            !keys.contains(key) ==> (#[trigger] json::member(
                convert::json_of(Sexp::List(items)),
                key,
            )) is None,
{
    convert::lemma_json_of_list(items);
    assert forall|j: int| 0 <= j < items.len() && j % 2 == 0 implies (#[trigger] items[j])
        is Keyword by {
        let k = j / 2;
        assert(j == 2 * k);
        assert(0 <= k < keys.len());
        assert(items[2 * k] == Sexp::Keyword(seq![':'] + keys[k]));
    }
    let members = convert::plist_members(items);
    assert(items.len() / 2 == keys.len());
    assert forall|k: int| 0 <= k < keys.len() implies #[trigger] members[k] == (
        keys[k],
        convert::json_of(values[k]),
    ) by {
        assert(items[2 * k] == Sexp::Keyword(seq![':'] + keys[k]));
        assert(items[2 * k + 1] == values[k]);
        assert((seq![':'] + keys[k]).skip(1) =~= keys[k]);
    }
    assert(members.len() == keys.len());
    assert forall|k: int, l: int| 0 <= k < l < members.len() implies (#[trigger] members[k]).0 != (
    #[trigger] members[l]).0 by {
        assert(keys[k] != keys[l]);
    }
    handlers::lemma_made_of(members);
    let v = convert::json_of(Sexp::List(items));
    assert(v == handlers::obj(members));
    assert(members[i].0 == keys[i]);
    assert forall|key: Seq<char>| !keys.contains(key) implies (#[trigger] json::member(v, key))
        is None by {
        if json::member(v, key) is Some {
            let k = choose|k: int| 0 <= k < members.len() && (#[trigger] members[k]).0 == key;
            assert(keys[k] == key);
        }
    }
}

/// Any other list is an array of its items' values, in order: an empty one, one of odd length, and
/// one with something else than a keyword in front of a value.
pub proof fn law_json_of_list(items: Seq<Sexp>, i: int, k: int)
    requires
        items.len() == 0 || items.len() % 2 != 0 || (0 <= k < items.len() && k % 2 == 0
            && !(items[k] is Keyword)),
    ensures
        ({
            let v = convert::json_of(Sexp::List(items));
            &&& v is Array
            &&& v->Array_0.len() == items.len()
            &&& 0 <= i < items.len() ==> v->Array_0[i] == convert::json_of(items[i])
        }),
{
    convert::lemma_json_of_list(items);
}

/// What the simple values of JSON are in Emacs: null and false are nothing.
pub proof fn law_sexp_of_simple(s: Seq<char>, u: u64)
    ensures
        convert::sexp_of(Jv::Null) == Sexp::Nil,
        convert::sexp_of(Jv::Bool(true)) == Sexp::Bool(true),
        convert::sexp_of(Jv::Bool(false)) == Sexp::Nil,
        convert::sexp_of(Jv::Str(s)) == Sexp::String(s),
        u <= i64::MAX ==> convert::sexp_of(laws::whole(u)) == Sexp::Integer(u as i64),
        u > i64::MAX ==> convert::sexp_of(laws::whole(u)) == Sexp::Float(
            sexp::numeral_of(text::decimal(u as nat)),
        ),
        convert::sexp_of(Jv::Number(Jn::Float(s))) == Sexp::Float(sexp::numeral_of(s)),
        forall|i: i64| #[trigger]
            convert::sexp_of(Jv::Number(Jn::NegInt(i))) == Sexp::Integer(i),
{
}

/// An array is the list of its values, and an object is the list of its keys as keywords, each with
/// its value behind it, in order.
pub proof fn law_sexp_of_compound(a: Seq<Jv>, es: Seq<(Seq<char>, Jv)>, i: int)
    ensures
        ({
            let v = convert::sexp_of(Jv::Array(a));
            &&& v is List
            &&& v->List_0.len() == a.len()
            &&& 0 <= i < a.len() ==> v->List_0[i] == convert::sexp_of(a[i])
        }),
        ({
            let v = convert::sexp_of(Jv::Object(es));
            &&& v is List
            &&& v->List_0.len() == 2 * es.len()
            &&& 0 <= i < es.len() ==> v->List_0[2 * i] == Sexp::Keyword(seq![':'] + es[i].0)
                && v->List_0[2 * i + 1] == convert::sexp_of(es[i].1)
        }),
{
    convert::lemma_sexp_of_array(a);
    convert::lemma_sexp_of_object(es);
    assert((2 * i) / 2 == i && (2 * i + 1) / 2 == i && (2 * i) % 2 == 0 && (2 * i + 1) % 2 == 1);
}

// ---------------------------------------------------------------------------
// Messages to and from Emacs
// ---------------------------------------------------------------------------

/// Each message is a list: its kind, its uid, and what it carries.
pub proof fn law_message_form(uid: u64, method: Seq<char>, args: Seq<Sexp>, v: Sexp, s: Seq<char>)
    ensures
        ({
            let number = Sexp::Integer(uid as i64);
            &&& message::message_sexp(Message::Call { uid, method, args }) == Sexp::List(
                seq![Sexp::Symbol("call"@), number, Sexp::Symbol(method), Sexp::List(args)],
            )
            &&& message::message_sexp(Message::Return { uid, result: v }) == Sexp::List(
                seq![Sexp::Symbol("return"@), number, v],
            )
            &&& message::message_sexp(Message::ReturnError { uid, error: v }) == Sexp::List(
                seq![Sexp::Symbol("return-error"@), number, v],
            )
            &&& message::message_sexp(Message::EpcError { uid, message: s }) == Sexp::List(
                seq![Sexp::Symbol("epc-error"@), number, Sexp::String(s)],
            )
            &&& message::message_sexp(Message::Methods { uid }) == Sexp::List(
                seq![Sexp::Symbol("methods"@), number],
            )
        }),
{
}

proof fn lemma_message_kinds()
    ensures
        "call"@.len() == 4,
        "return"@.len() == 6,
        "return-error"@.len() == 12,
        "epc-error"@.len() == 9,
        "methods"@.len() == 7,
{
    reveal_strlit("call");
    reveal_strlit("return");
    reveal_strlit("return-error");
    reveal_strlit("epc-error");
    reveal_strlit("methods");
}

/// What the arguments of a call are: the items of a list, none for nothing, and any other value
/// alone.
pub open spec fn arguments(v: Sexp) -> Seq<Sexp> {
    if v is List {
        v->List_0
    } else if v is Nil {
        Seq::empty()
    } else {
        seq![v]
    }
}

/// A call is read from its kind, its uid, its method as a name or a text, and its arguments;
/// what stands behind them does not matter.
pub proof fn law_call_read(n: i64, method: Seq<char>, args: Sexp, rest: Seq<Sexp>)
    ensures
        message::message_of(
            Sexp::List(
                seq![Sexp::Symbol("call"@), Sexp::Integer(n), Sexp::Symbol(method), args] + rest,
            ),
        ) == Ok::<Message, MessageFault>(
            Message::Call { uid: n as u64, method, args: arguments(args) },
        ),
        message::message_of(
            Sexp::List(
                seq![Sexp::Symbol("call"@), Sexp::Integer(n), Sexp::String(method), args] + rest,
            ),
        ) == Ok::<Message, MessageFault>(
            Message::Call { uid: n as u64, method, args: arguments(args) },
        ),
{
    let a = seq![Sexp::Symbol("call"@), Sexp::Integer(n), Sexp::Symbol(method), args] + rest;
    let b = seq![Sexp::Symbol("call"@), Sexp::Integer(n), Sexp::String(method), args] + rest;
    assert(a[0] == Sexp::Symbol("call"@) && a[1] == Sexp::Integer(n) && a[2] == Sexp::Symbol(method)
        && a[3] == args);
    assert(b[0] == Sexp::Symbol("call"@) && b[1] == Sexp::Integer(n) && b[2] == Sexp::String(method)
        && b[3] == args);
}

/// Answers are read from their kind, their uid and the value behind it; an error of the protocol
/// that is no text is read as the text of its value.
pub proof fn law_answers_read(n: i64, v: Sexp, rest: Seq<Sexp>)
    ensures
        message::message_of(
            Sexp::List(seq![Sexp::Symbol("return"@), Sexp::Integer(n), v] + rest),
        ) == Ok::<Message, MessageFault>(Message::Return { uid: n as u64, result: v }),
        message::message_of(
            Sexp::List(seq![Sexp::Symbol("return-error"@), Sexp::Integer(n), v] + rest),
        ) == Ok::<Message, MessageFault>(Message::ReturnError { uid: n as u64, error: v }),
        message::message_of(
            Sexp::List(seq![Sexp::Symbol("epc-error"@), Sexp::Integer(n), v] + rest),
        ) == Ok::<Message, MessageFault>(
            Message::EpcError {
                uid: n as u64,
                message: if v is String {
                    v->String_0
                } else {
                    sexp::written(v)
                },
            },
        ),
        message::message_of(
            Sexp::List(seq![Sexp::Symbol("methods"@), Sexp::Integer(n)] + rest),
        ) == Ok::<Message, MessageFault>(Message::Methods { uid: n as u64 }),
{
    lemma_message_kinds();
    let a = seq![Sexp::Symbol("return"@), Sexp::Integer(n), v] + rest;
    let b = seq![Sexp::Symbol("return-error"@), Sexp::Integer(n), v] + rest;
    let c = seq![Sexp::Symbol("epc-error"@), Sexp::Integer(n), v] + rest;
    let d = seq![Sexp::Symbol("methods"@), Sexp::Integer(n)] + rest;
    assert(a[0] == Sexp::Symbol("return"@) && a[1] == Sexp::Integer(n) && a[2] == v);
    assert(b[0] == Sexp::Symbol("return-error"@) && b[1] == Sexp::Integer(n) && b[2] == v);
    assert(c[0] == Sexp::Symbol("epc-error"@) && c[1] == Sexp::Integer(n) && c[2] == v);
    assert(d[0] == Sexp::Symbol("methods"@) && d[1] == Sexp::Integer(n));
}

/// What is no list, is empty, starts with no name or with a name of no message is refused.
pub proof fn law_no_message(v: Sexp)
    ensures
        !(v is List) || v->List_0.len() == 0 || !(v->List_0[0] is Symbol)
            ==> message::message_of(v) is Err && message::message_of(v)->Err_0 is InvalidFormat,
        v is List && v->List_0.len() > 0 && v->List_0[0] is Symbol && ({
            let kind = v->List_0[0]->Symbol_0;
            kind != "call"@ && kind != "return"@ && kind != "return-error"@ && kind != "epc-error"@
                && kind != "methods"@
        }) ==> message::message_of(v) == Err::<Message, MessageFault>(
            MessageFault::UnknownType(v->List_0[0]->Symbol_0),
        ),
{
}

/// Every value that Emacs evaluates stands under a quote mark; a text that starts with one is the
/// name behind it.
pub proof fn law_eval_args(arg: EvalArg)
    ensures
        message::arg_value(arg) is Quoted,
        ({
            let v = *message::arg_value(arg)->Quoted_0;
            match arg {
                EvalArg::String(s) => {
                    &&& s@.len() > 0 && s@[0] == '\'' ==> v is Symbol && seq!['\''] + v->Symbol_0
                        == s@
                    &&& s@.len() == 0 || s@[0] != '\'' ==> v == Sexp::String(s@)
                },
                EvalArg::Integer(n) => v == Sexp::Integer(n),
                EvalArg::Float(s) => v == Sexp::Float(sexp::numeral_of(s@)),
                EvalArg::Bool(b) => (b ==> v == Sexp::Bool(true)) && (!b ==> v == Sexp::Nil),
                EvalArg::Nil => v == Sexp::Nil,
                EvalArg::QuotedSymbol(s) => v == Sexp::Symbol(s@),
                EvalArg::List(items) => v == Sexp::List(sexp::models(items@)),
                EvalArg::Raw(raw) => v == raw@,
            }
        }),
{
    match arg {
        EvalArg::String(s) => {
            if s@.len() > 0 && s@[0] == '\'' {
                assert(seq!['\''] + s@.skip(1) =~= s@);
            }
        },
        _ => {},
    }
}

/// Emacs evaluates the text of one expression: the function's name and then the arguments in
/// order.
pub proof fn law_eval_expression(method: Seq<char>, values: Seq<Sexp>)
    ensures
        epc::eval_args(method, values) == seq![
            Sexp::List(
                seq![
                    Sexp::String(
                        sexp::written(Sexp::List(seq![Sexp::Symbol(method)] + values)),
                    ),
                ],
            ),
        ],
{
}

/// The list of methods is answered with the name of each registered method, once, under the uid
/// of the request.
pub proof fn law_methods_listed(c: Connection, uid: u64, action: Action, after: Connection)
    requires
        epc::follows(c, Message::Methods { uid }, action, after),
    ensures
        after == c,
        exists|listed: Seq<Seq<char>>|
            {
                &&& #[trigger] concurrent::lists(listed, c.methods)
                &&& action == Action::Reply(
                    epc::frame_of(
                        Message::Return {
                            uid,
                            result: Sexp::List(
                                Seq::new(listed.len(), |i: int| Sexp::Symbol(listed[i])),
                            ),
                        },
                    ),
                )
            },
{
    let listed = choose|listed: Seq<Seq<char>>|
        concurrent::lists(listed, c.methods) && #[trigger] epc::handled(
            c,
            Message::Methods { uid },
            listed,
        ) == (action, after);
    assert(concurrent::lists(listed, c.methods));
}

/// An awaited call gets what Emacs returned, the error that it returned, or the text of an error of
/// the protocol.
pub proof fn law_call_outcomes(
    c: Connection,
    uid: u64,
    v: Sexp,
    s: Seq<char>,
    action: Action,
    after: Connection,
)
    requires
        c.pending.contains(uid),
    ensures
        epc::follows(c, Message::Return { uid, result: v }, action, after) ==> action == (
        Action::Resolve { uid, result: v }),
        epc::follows(c, Message::ReturnError { uid, error: v }, action, after) ==> action == (
        Action::Resolve { uid, result: v }),
        epc::follows(c, Message::EpcError { uid, message: s }, action, after) ==> action == (
        Action::Resolve { uid, result: Sexp::String("epc-error: "@ + s) }),
{
}

/// The values of variables come one for one. A pair says in its second part whether its first is
/// a boolean; an empty list is false; anything else is the value that it is.
pub proof fn law_variables(items: Seq<Sexp>, i: int, value: Sexp, flag: Sexp)
    ensures
        epc::variable_values(Sexp::List(items)).len() == items.len(),
        0 <= i < items.len() ==> epc::variable_values(Sexp::List(items))[i] == epc::variable_value(
            items[i],
        ),
        !(value is List) ==> epc::variable_values(value) == seq![convert::json_of(value)]
            && epc::variable_value(value) == convert::json_of(value),
        ({
            let pair = Sexp::List(seq![value, flag]);
            &&& flag == Sexp::Bool(true) || flag == Sexp::Symbol("t"@) ==> epc::variable_value(pair)
                == Jv::Bool(value == Sexp::Bool(true))
            &&& flag != Sexp::Bool(true) && flag != Sexp::Symbol("t"@) ==> epc::variable_value(pair)
                == convert::json_of(value)
        }),
        epc::variable_value(Sexp::List(Seq::empty())) == Jv::Bool(false),
{
}

// ---------------------------------------------------------------------------
// Frames
// ---------------------------------------------------------------------------

/// A message to Emacs is framed by the number of its bytes and a newline, as six hexadecimal
/// digits where that is enough; a message to a server by a header that says how many bytes follow.
pub proof fn law_frame_forms(s: Seq<char>)
    ensures
        wire::frame(s) == encode_utf8(
            text::zero_padded(text::hex(encode_utf8(s).len() + 1), 6) + s + seq!['\n'],
        ),
        transport::frame(s) == encode_utf8(
            "Content-Length: "@ + text::decimal(encode_utf8(s).len()) + seq!['\r', '\n', '\r', '\n']
                + s,
        ),
{
}

/// A numeral that is padded has the width, and keeps its digits at its end behind zeros.
pub proof fn law_zero_padded(s: Seq<char>, width: nat, i: int)
    ensures
        s.len() >= width ==> text::zero_padded(s, width) == s,
        s.len() < width ==> text::zero_padded(s, width).len() == width && text::zero_padded(
            s,
            width,
        ).skip(width - s.len()) == s && (0 <= i < width - s.len() ==> text::zero_padded(
            s,
            width,
        )[i] == '0'),
{
    if s.len() < width {
        assert(text::zero_padded(s, width).skip(width - s.len()) =~= s);
    }
}

/// The URI of an absolute path is `file://` and the bytes of the path, encoded one by one; another
/// path gets one more slash, and slashes in place of its backslashes.
pub proof fn law_uri_form(path: Seq<char>, a: Seq<u8>, b: Seq<u8>, i: int)
    ensures
        path.len() > 0 && path[0] == '/' ==> uri::uri_of(path) == "file://"@ + uri::encoded(
            encode_utf8(path),
        ),
        path.len() == 0 || path[0] != '/' ==> uri::uri_of(path) == "file:///"@ + uri::encoded(
            encode_utf8(uri::slashed(path)),
        ),
        uri::encoded(a + b) == uri::encoded(a) + uri::encoded(b),
        uri::slashed(path).len() == path.len(),
        0 <= i < path.len() ==> uri::slashed(path)[i] == (if path[i] == '\\' {
            '/'
        } else {
            path[i]
        }),
{
    lemma_encoded_concat(a, b);
}

proof fn lemma_encoded_concat(a: Seq<u8>, b: Seq<u8>)
    ensures
        uri::encoded(a + b) == uri::encoded(a) + uri::encoded(b),
    decreases a.len(),
{
    if a.len() == 0 {
        assert(a + b =~= b);
    } else {
        assert((a + b)[0] == a[0]);
        assert((a + b).skip(1) =~= a.skip(1) + b);
        lemma_encoded_concat(a.skip(1), b);
    }
    assert(uri::encoded(a + b) =~= uri::encoded(a) + uri::encoded(b));
}

/// A URI of another scheme is left as it is.
pub proof fn law_other_uri(uri: Seq<char>)
    requires
        forall|rest: Seq<char>| uri != "file://"@ + rest,
    ensures
        uri::path_of(uri) == uri,
{
    if text::starts_with(uri, "file://"@) {
        assert(uri =~= "file://"@ + uri.skip("file://"@.len() as int));
    }
}

// ---------------------------------------------------------------------------
// Remote machines
// ---------------------------------------------------------------------------

/// A message to a remote machine is the text of its value on a line of its own.
pub proof fn law_remote_line(v: Jv)
    ensures
        protocol::message_bytes(v) == encode_utf8(json::json_text(v)) + seq![10u8],
{
}

/// A line says what its text says without the white space around it; a line that cannot be read,
/// and the end of the connection, say nothing.
pub proof fn law_remote_received(line: Seq<char>, v: Jv)
    ensures
        line.len() > 0 && json::json_read(text::trimmed(line)) == Ok::<Jv, Seq<char>>(v)
            ==> docker::received(line) == Some(v),
        json::json_read(text::trimmed(line)) is Err ==> docker::received(line) is None,
        docker::received(Seq::empty()) is None,
{
}

/// An address is the host and the port, with a colon between.
pub proof fn law_remote_address(host: Seq<char>, port: u16)
    ensures
        docker::address_of(host, port) == host + seq![':'] + text::decimal(port as nat),
{
    reveal_strlit(":");
    assert(":"@ =~= seq![':']);
}

/// A command to a remote machine carries its four fields under their names.
pub proof fn law_remote_command_form(c: Remote, e: Elisp)
    ensures
        handlers::made_of(
            handlers::obj(protocol::remote_members(c)),
            seq![
                ("command"@, Jv::Str(c.command)),
                ("method"@, Jv::Str(c.method)),
                ("args"@, c.args),
                ("sexp"@, c.sexp),
            ],
        ),
        handlers::made_of(
            handlers::obj(protocol::elisp_members(e)),
            seq![
                ("command"@, Jv::Str(e.command)),
                ("method"@, Jv::Str(e.method)),
                ("args"@, e.args),
                ("timestamp"@, Jv::Str(e.timestamp)),
            ],
        ),
{
    reveal_strlit("command");
    reveal_strlit("method");
    reveal_strlit("args");
    reveal_strlit("sexp");
    reveal_strlit("timestamp");
    assert("command"@.len() == 7 && "method"@.len() == 6 && "args"@.len() == 4 && "sexp"@.len() == 4
        && "timestamp"@.len() == 9);
    assert("args"@[0] == 'a' && "sexp"@[0] == 's');
    handlers::lemma_made_of(protocol::remote_members(c));
    handlers::lemma_made_of(protocol::elisp_members(e));
}

/// What is read from the fields of a remote command is what stands in them; only the command must
/// be there.
pub proof fn law_remote_fields(v: Jv)
    requires
        v is Object,
    ensures
        laws::under(v, "command"@) is Str && (json::member(v, "method"@) is None || laws::under(
            v,
            "method"@,
        ) is Str) ==> protocol::remote_command(v) == Ok::<Remote, ConfigError>(
            Remote {
                command: laws::under(v, "command"@)->Str_0,
                method: if json::member(v, "method"@) is Some {
                    laws::under(v, "method"@)->Str_0
                } else {
                    Seq::empty()
                },
                args: laws::under(v, "args"@),
                sexp: laws::under(v, "sexp"@),
            },
        ),
        !(laws::under(v, "command"@) is Str) ==> protocol::remote_command(v) == Err::<
            Remote,
            ConfigError,
        >(ConfigError::Field("command")) && protocol::elisp_rpc(v) == Err::<Elisp, ConfigError>(
            ConfigError::Field("command"),
        ),
        protocol::elisp_rpc(v) is Ok ==> ({
            let e = protocol::elisp_rpc(v)->Ok_0;
            &&& json::member(v, "command"@) == Some(Jv::Str(e.command))
            &&& json::member(v, "method"@) is Some ==> json::member(v, "method"@) == Some(
                Jv::Str(e.method),
            )
            &&& json::member(v, "method"@) is None ==> e.method.len() == 0
            &&& e.args == laws::under(v, "args"@)
            &&& json::member(v, "timestamp"@) is Some ==> json::member(v, "timestamp"@) == Some(
                Jv::Str(e.timestamp),
            )
            &&& json::member(v, "timestamp"@) is None ==> e.timestamp.len() == 0
        }),
{
}

/// A command about a file names what is to be done and the path; an update carries the text, and
/// a synchronisation its information.
pub proof fn law_sync_form(path: Seq<char>, content: Seq<char>, info: Jv)
    ensures
        names_path(protocol::sync_json(Sync::OpenFile { path }), "open_file"@, path),
        names_path(protocol::sync_json(Sync::CloseFile { path }), "close_file"@, path),
        names_path(protocol::sync_json(Sync::SaveFile { path }), "save_file"@, path),
        names_path(
            protocol::sync_json(Sync::ChangeFile { path, args: Jv::Null }),
            "change_file"@,
            path,
        ),
        protocol::sync_json(Sync::UpdateFile { path, content }) is Some,
        handlers::made_of(
            protocol::sync_json(Sync::UpdateFile { path, content })->0,
            seq![
                ("command"@, Jv::Str("update_file"@)),
                ("path"@, Jv::Str(path)),
                ("content"@, Jv::Str(content)),
            ],
        ),
        protocol::sync_json(Sync::RemoteSync { info }) is Some,
        handlers::made_of(
            protocol::sync_json(Sync::RemoteSync { info })->0,
            seq![("command"@, Jv::Str("remote_sync"@)), ("info"@, info)],
        ),
{
    reveal_strlit("command");
    reveal_strlit("path");
    reveal_strlit("content");
    reveal_strlit("info");
    assert("command"@.len() == 7 && "path"@.len() == 4 && "content"@.len() == 7 && "info"@.len()
        == 4);
    assert("command"@[2] == 'm' && "content"@[2] == 'n');
    handlers::lemma_made_of_two("command"@, Jv::Str("open_file"@), "path"@, Jv::Str(path));
    handlers::lemma_made_of_two("command"@, Jv::Str("close_file"@), "path"@, Jv::Str(path));
    handlers::lemma_made_of_two("command"@, Jv::Str("save_file"@), "path"@, Jv::Str(path));
    handlers::lemma_made_of_two("command"@, Jv::Str("change_file"@), "path"@, Jv::Str(path));
    handlers::lemma_made_of_two("command"@, Jv::Str("remote_sync"@), "info"@, info);
    let members = seq![
        ("command"@, Jv::Str("update_file"@)),
        ("path"@, Jv::Str(path)),
        ("content"@, Jv::Str(content)),
    ];
    assert(protocol::path_members("update_file"@, path).push(("content"@, Jv::Str(content)))
        =~= members);
    handlers::lemma_made_of(members);
}

/// Whether a value is a command with that name about a path.
pub open spec fn names_path(v: Option<Jv>, command: Seq<char>, path: Seq<char>) -> bool {
    &&& v is Some
    &&& handlers::made_of(
        v->0,
        seq![("command"@, Jv::Str(command)), ("path"@, Jv::Str(path))],
    )
}

/// A command about a file is read from the name of what is to be done and the path.
pub proof fn law_sync_read(v: Jv, path: Seq<char>, content: Seq<char>)
    requires
        v is Object,
        json::ascending(v->Object_0),
        json::member(v, "path"@) == Some(Jv::Str(path)),
    ensures
        json::member(v, "command"@) == Some(Jv::Str("open_file"@)) ==> protocol::sync_of(v) == Some(
            Sync::OpenFile { path },
        ),
        json::member(v, "command"@) == Some(Jv::Str("close_file"@)) ==> protocol::sync_of(v)
            == Some(Sync::CloseFile { path }),
        json::member(v, "command"@) == Some(Jv::Str("save_file"@)) ==> protocol::sync_of(v) == Some(
            Sync::SaveFile { path },
        ),
        json::member(v, "command"@) == Some(Jv::Str("update_file"@)) && json::member(
            v,
            "content"@,
        ) == Some(Jv::Str(content)) ==> protocol::sync_of(v) == Some(
            Sync::UpdateFile { path, content },
        ),
{
    reveal_strlit("command");
    reveal_strlit("path");
    reveal_strlit("content");
    reveal_strlit("open_file");
    reveal_strlit("close_file");
    reveal_strlit("save_file");
    reveal_strlit("change_file");
    reveal_strlit("update_file");
    assert("command"@.len() == 7 && "path"@.len() == 4 && "content"@.len() == 7);
    assert("command"@[2] == 'm' && "content"@[2] == 'n');
    assert("open_file"@.len() == 9 && "close_file"@.len() == 10 && "save_file"@.len() == 9
        && "change_file"@.len() == 11 && "update_file"@.len() == 11);
    assert("open_file"@[0] == 'o' && "save_file"@[0] == 's' && "change_file"@[0] == 'c'
        && "update_file"@[0] == 'u');
    lemma_without(v->Object_0, "command"@, "path"@);
    lemma_without(v->Object_0, "command"@, "content"@);
}

proof fn lemma_without(es: Seq<(Seq<char>, Jv)>, key: Seq<char>, other: Seq<char>)
    ensures
        other != key ==> json::lookup(protocol::without(es, key), other) == json::lookup(es, other),
        json::lookup(protocol::without(es, key), key) is None,
    decreases es.len(),
{
    if es.len() > 0 {
        let rest = es.skip(1);
        lemma_without(rest, key, other);
        if es[0].0 != key {
            let after = protocol::without(es, key);
            assert(after[0] == es[0]);
            assert(after.skip(1) =~= protocol::without(rest, key));
        }
    }
}

// ---------------------------------------------------------------------------
// The notation of Emacs
// ---------------------------------------------------------------------------

/// How each value is written.
pub proof fn law_written_forms(s: Seq<char>, n: i64, a: Sexp, b: Sexp, items: Seq<Sexp>)
    ensures
        sexp::written(Sexp::Nil) == "nil"@,
        sexp::written(Sexp::Bool(false)) == "nil"@,
        sexp::written(Sexp::Bool(true)) == seq!['t'],
        sexp::written(Sexp::Integer(n)) == text::signed_decimal(n as int),
        sexp::written(Sexp::String(s)) == seq!['"'] + sexp::escape(s) + seq!['"'],
        sexp::written(Sexp::Symbol(s)) == s,
        sexp::written(Sexp::Keyword(s)) == s,
        sexp::written(Sexp::Quoted(Box::new(a))) == seq!['\''] + sexp::written(a),
        sexp::written(Sexp::Cons(Box::new(a), Box::new(b))) == seq!['('] + sexp::written(a) + seq![
            ' ',
            '.',
            ' ',
        ] + sexp::written(b) + seq![')'],
        sexp::written(Sexp::List(Seq::empty())) == seq!['(', ')'],
        sexp::written(Sexp::List(seq![a])) == seq!['('] + sexp::written(a) + seq![')'],
        items.len() > 0 ==> sexp::written_items(seq![a] + items) == sexp::written(a) + seq![' ']
            + sexp::written_items(items),
{
    assert(sexp::written_items(Seq::empty()) =~= Seq::<char>::empty());
    assert(sexp::written(Sexp::List(Seq::empty())) =~= seq!['(', ')']);
    assert(sexp::written_items(seq![a]) =~= sexp::written(a));
    assert((seq![a] + items).drop_first() =~= items);
}

/// A text is written character by character: a quotation mark, a backslash and the control
/// characters that have a letter with a backslash in front, and every other as it is.
pub proof fn law_escapes(a: Seq<char>, b: Seq<char>, c: char)
    ensures
        sexp::escape(a + b) == sexp::escape(a) + sexp::escape(b),
        ({
            let special = c == '"' || c == '\\' || c == '\n' || c == '\t' || c == '\r' || c
                == '\x07' || c == '\x08' || c == '\x0C' || c == '\0';
            let out = sexp::escape(seq![c]);
            &&& !special ==> out == seq![c]
            &&& special ==> out.len() == 2 && out[0] == '\\' && sexp::unescape(out[1]) == seq![c]
        }),
{
    lemma_escape_concat(a, b);
    assert(seq![c].skip(1) =~= Seq::<char>::empty());
    assert(sexp::escape(Seq::empty()) =~= Seq::<char>::empty());
    assert(sexp::escape(seq![c]) =~= sexp::escape_char(c));
}

proof fn lemma_escape_concat(a: Seq<char>, b: Seq<char>)
    ensures
        sexp::escape(a + b) == sexp::escape(a) + sexp::escape(b),
    decreases a.len(),
{
    if a.len() == 0 {
        assert(a + b =~= b);
    } else {
        assert((a + b)[0] == a[0]);
        assert((a + b).skip(1) =~= a.skip(1) + b);
        lemma_escape_concat(a.skip(1), b);
    }
    assert(sexp::escape(a + b) =~= sexp::escape(a) + sexp::escape(b));
}

/// The letters that stand for control characters behind a backslash; every other character stands
/// for itself there.
pub proof fn law_unescapes(c: char)
    ensures
        sexp::unescape('n') == seq!['\n'],
        sexp::unescape('t') == seq!['\t'],
        sexp::unescape('r') == seq!['\r'],
        sexp::unescape('a') == seq!['\x07'],
        sexp::unescape('b') == seq!['\x08'],
        sexp::unescape('f') == seq!['\x0C'],
        sexp::unescape('0') == seq!['\0'],
        c != 'n' && c != 't' && c != 'r' && c != 'a' && c != 'b' && c != 'f' && c != '0'
            ==> sexp::unescape(c) == seq![c],
{
}

/// What a word is: nothing, true, a keyword, a whole number that fits, a number with a point or an
/// exponent, or else a name.
pub proof fn law_words_read(token: Seq<char>, n: i64)
    ensures
        sexp::atom_value("nil"@) == Sexp::Nil,
        sexp::atom_value("t"@) == Sexp::Bool(true),
        token.len() > 0 && token[0] == ':' ==> sexp::atom_value(token) == Sexp::Keyword(token),
        sexp::atom_value(text::signed_decimal(n as int)) == Sexp::Integer(n),
        sexp::is_decimal(token) && token.contains('.') ==> sexp::atom_value(token) == Sexp::Float(
            sexp::numeral_of(token),
        ),
        token != "nil"@ && token != "t"@ && !(token.len() > 0 && token[0] == ':')
            && text::i64_value(token) is None && !sexp::is_decimal(token) ==> sexp::atom_value(
            token,
        ) == Sexp::Symbol(token),
{
    reveal_strlit("nil");
    reveal_strlit("t");
    assert("nil"@.len() == 3 && "t"@.len() == 1 && "nil"@[0] == 'n' && "t"@[0] == 't');
    text::lemma_signed_decimal(n as int);
    let d = text::signed_decimal(n as int);
    if n >= 0 {
        text::lemma_decimal(n as nat);
        assert(text::is_digit(d[0]));
    } else {
        assert(d[0] == '-');
    }
    if sexp::is_decimal(token) && token.contains('.') {
        let k = choose|k: int| 0 <= k < token.len() && token[k] == '.';
        lemma_point_is_no_integer(token, k);
        lemma_decimal_start(token);
    }
}

proof fn lemma_point_is_no_integer(token: Seq<char>, k: int)
    requires
        0 <= k < token.len(),
        token[k] == '.',
    ensures
        text::i64_value(token) is None,
{
    let signed = token[0] == '+' || token[0] == '-';
    let digits = if signed {
        token.skip(1)
    } else {
        token
    };
    let j = if signed {
        k - 1
    } else {
        k
    };
    if text::all_digits(digits) {
        assert(digits[j] == '.');
        assert(text::is_digit(digits[j]));
    }
}

proof fn lemma_decimal_start(token: Seq<char>)
    requires
        sexp::is_decimal(token),
    ensures
        token.len() > 0,
        token[0] != ':' && token[0] != 'n' && token[0] != 't',
{
    if token.len() > 0 && (token[0] == '+' || token[0] == '-') {
    } else {
        let whole = sexp::digit_run(token);
        assert(token.skip(0) =~= token);
        if whole == 0 {
            let rest = token.skip(whole as int);
            assert(rest =~= token);
        }
    }
}

// ---------------------------------------------------------------------------
// Reading frames
// ---------------------------------------------------------------------------

/// A frame of Emacs is a numeral of six characters and as many bytes as it says, without the
/// newline at their end; until they are there, the number of missing bytes is known; and a numeral
/// or bytes that cannot be read are refused.
pub proof fn law_emacs_frame_read(buf: Seq<u8>, digits: Seq<char>, n: nat)
    ensures
        buf.len() < 6 ==> wire::decoded(buf) == Ok::<wire::Decoded, wire::WireFault>(
            wire::Decoded::Incomplete { needed: (6 - buf.len()) as nat },
        ),
        buf.len() >= 6 && encode_utf8(digits) == buf.take(6) ==> ({
            &&& text::hex_value(digits) is None ==> wire::decoded(buf) == Err::<
                wire::Decoded,
                wire::WireFault,
            >(wire::WireFault::InvalidHexLength(digits))
            &&& text::hex_value(digits) == Some(n) && buf.len() < 6 + n ==> wire::decoded(buf)
                == Ok::<wire::Decoded, wire::WireFault>(
                wire::Decoded::Incomplete { needed: (6 + n - buf.len()) as nat },
            )
            &&& text::hex_value(digits) == Some(n) && buf.len() >= 6 + n && !valid_utf8(
                buf.subrange(6, 6 + n as int),
            ) ==> wire::decoded(buf) == Err::<wire::Decoded, wire::WireFault>(
                wire::WireFault::InvalidUtf8,
            )
        }),
        forall|s: Seq<char>|
            #![trigger encode_utf8(s)]
            buf.len() >= 6 && encode_utf8(digits) == buf.take(6) && text::hex_value(digits) == Some(
                n,
            ) && buf.len() >= 6 + n && buf.subrange(6, 6 + n as int) == encode_utf8(s)
                ==> wire::decoded(buf) == Ok::<wire::Decoded, wire::WireFault>(
                wire::Decoded::Complete {
                    message: if s.len() > 0 && s.last() == '\n' {
                        s.drop_last()
                    } else {
                        s
                    },
                    consumed: 6 + n,
                },
            ),
{
    encode_utf8_valid_utf8(digits);
    encode_utf8_decode_utf8(digits);
    assert forall|s: Seq<char>|
        #![trigger encode_utf8(s)]
        buf.len() >= 6 && encode_utf8(digits) == buf.take(6) && text::hex_value(digits) == Some(n)
            && buf.len() >= 6 + n && buf.subrange(6, 6 + n as int) == encode_utf8(
            s,
        ) implies wire::decoded(buf) == Ok::<wire::Decoded, wire::WireFault>(
        wire::Decoded::Complete {
            message: if s.len() > 0 && s.last() == '\n' {
                s.drop_last()
            } else {
                s
            },
            consumed: 6 + n,
        },
    ) by {
        encode_utf8_valid_utf8(s);
        encode_utf8_decode_utf8(s);
    }
}

/// The length of a server's message stands in the first header that names it, wherever that
/// header stands: a header of another name is passed over.
pub proof fn law_length_header(line: Seq<char>, rest: Seq<char>, value: Seq<char>)
    requires
        !line.contains('\r'),
        !value.contains('\r'),
        value.len() > 0 ==> !text::is_white(value.last()) && !text::is_white(value[0]),
    ensures
        (forall|tail: Seq<char>| text::trimmed(line) != "Content-Length:"@ + tail)
            ==> transport::content_length(line + seq!['\r', '\n'] + rest)
            == transport::content_length(rest),
        (forall|tail: Seq<char>| text::trimmed(line) != "Content-Length:"@ + tail)
            ==> transport::content_length(line) is Err,
        value.len() > 0 ==> transport::content_length("Content-Length: "@ + value) == (
        match text::usize_value(value) {
            Some(n) => Ok::<nat, transport::TransportFault>(n),
            None => Err::<nat, transport::TransportFault>(
                transport::TransportFault::InvalidHeader("invalid Content-Length: "@ + value),
            ),
        }),
        value.len() > 0 ==> transport::content_length(
            "Content-Length: "@ + value + seq!['\r', '\n'] + rest,
        ) == transport::content_length("Content-Length: "@ + value),
{
    let whole = line + seq!['\r', '\n'] + rest;
    lemma_line(line, rest);
    assert(whole.take(line.len() as int) =~= line);
    assert(whole.skip(line.len() as int + 2) =~= rest);
    assert(line.take(line.len() as int) =~= line);
    lemma_starts_with(text::trimmed(line), "Content-Length:"@);
    if value.len() > 0 {
        reveal_strlit("Content-Length: ");
        reveal_strlit("Content-Length:");
        let head = "Content-Length: "@ + value;
        assert("Content-Length: "@ =~= "Content-Length:"@ + seq![' ']);
        assert(head[0] == 'C');
        assert(head.last() == value.last());
        text::lemma_trimmed_same(head);
        assert(head.take(15) =~= "Content-Length:"@);
        assert(head.skip(15) =~= seq![' '] + value);
        text::lemma_trimmed_blank(value);
        text::lemma_trimmed_same(value);
        assert(!head.contains('\r')) by {
            if head.contains('\r') {
                let k = choose|k: int| 0 <= k < head.len() && head[k] == '\r';
                if k >= 16 {
                    assert(value[k - 16] == '\r');
                }
            }
        }
        lemma_line(head, rest);
        let both = head + seq!['\r', '\n'] + rest;
        assert(both.take(head.len() as int) =~= head);
        assert(head.take(head.len() as int) =~= head);
    }
}

proof fn lemma_line(line: Seq<char>, rest: Seq<char>)
    requires
        !line.contains('\r'),
    ensures
        transport::line_len(line) == line.len(),
        transport::line_len(line + seq!['\r', '\n'] + rest) == line.len(),
    decreases line.len(),
{
    let whole = line + seq!['\r', '\n'] + rest;
    if line.len() > 0 {
        let shorter = line.skip(1);
        assert(whole[0] == line[0]);
        assert(line[0] != '\r');
        assert(whole.skip(1) =~= shorter + seq!['\r', '\n'] + rest);
        assert(!shorter.contains('\r')) by {
            if shorter.contains('\r') {
                let k = choose|k: int| 0 <= k < shorter.len() && shorter[k] == '\r';
                assert(line[k + 1] == '\r');
            }
        }
        lemma_line(shorter, rest);
    } else {
        assert(whole[0] == '\r' && whole[1] == '\n');
    }
}

proof fn lemma_starts_with(s: Seq<char>, prefix: Seq<char>)
    ensures
        text::starts_with(s, prefix) <==> exists|rest: Seq<char>| s == prefix + rest,
{
    if text::starts_with(s, prefix) {
        assert(s =~= prefix + s.skip(prefix.len() as int));
    }
    if exists|rest: Seq<char>| s == prefix + rest {
        let rest = choose|rest: Seq<char>| s == prefix + rest;
        assert(s.take(prefix.len() as int) =~= prefix);
    }
}

/// A server's message is what its headers say behind the blank line: until all bytes are there it
/// is incomplete, and a length beyond a hundred megabytes is refused.
pub proof fn law_server_frame_read(headers: Seq<char>, body: Seq<u8>, n: nat)
    requires
        transport::header_end(encode_utf8(headers) + seq![13u8, 10, 13, 10] + body, 0) == Some(
            encode_utf8(headers).len() as int,
        ),
        transport::content_length(headers) == Ok::<nat, transport::TransportFault>(n),
    ensures
        ({
            let buf = encode_utf8(headers) + seq![13u8, 10, 13, 10] + body;
            &&& n > 100 * 1024 * 1024 ==> transport::decoded(buf) == Err::<
                transport::Decoded,
                transport::TransportFault,
            >(transport::TransportFault::PayloadTooLarge(n))
            &&& n <= 100 * 1024 * 1024 && body.len() < n ==> transport::decoded(buf) == Ok::<
                transport::Decoded,
                transport::TransportFault,
            >(transport::Decoded::Incomplete)
            &&& n <= 100 * 1024 * 1024 && body.len() >= n && valid_utf8(body.take(n as int))
                ==> transport::decoded(buf) == Ok::<
                transport::Decoded,
                transport::TransportFault,
            >(
                transport::Decoded::Complete {
                    json: decode_utf8(body.take(n as int)),
                    consumed: encode_utf8(headers).len() + 4 + n,
                },
            )
            &&& n <= 100 * 1024 * 1024 && body.len() >= n && !valid_utf8(body.take(n as int))
                ==> transport::decoded(buf) == Err::<
                transport::Decoded,
                transport::TransportFault,
            >(transport::TransportFault::InvalidUtf8)
        }),
{
    let head = encode_utf8(headers);
    let buf = head + seq![13u8, 10, 13, 10] + body;
    let end = head.len() as int;
    encode_utf8_valid_utf8(headers);
    encode_utf8_decode_utf8(headers);
    assert(buf.take(end) =~= head);
    if body.len() >= n {
        assert(buf.subrange(end + 4, end + 4 + n) =~= body.take(n as int));
    }
}

/// The blank line that ends the headers is the first one.
pub proof fn law_header_end(buf: Seq<u8>, end: int)
    requires
        0 <= end,
    ensures
        transport::header_end(buf, 0) == Some(end) <==> ({
            &&& end + 4 <= buf.len()
            &&& buf.subrange(end, end + 4) == seq![13u8, 10, 13, 10]
            &&& forall|i: int|
                0 <= i < end ==> #[trigger] buf.subrange(i, i + 4) != seq![13u8, 10, 13, 10]
        }),
{
    lemma_header_end_from(buf, 0, end);
}

proof fn lemma_header_end_from(buf: Seq<u8>, from: int, end: int)
    requires
        0 <= from <= end,
    ensures
        transport::header_end(buf, from) == Some(end) <==> ({
            &&& end + 4 <= buf.len()
            &&& buf.subrange(end, end + 4) == seq![13u8, 10, 13, 10]
            &&& forall|i: int|
                from <= i < end ==> #[trigger] buf.subrange(i, i + 4) != seq![13u8, 10, 13, 10]
        }),
    decreases buf.len() - from,
{
    if from + 4 <= buf.len() {
        let here = buf.subrange(from, from + 4);
        if transport::blank_line_at(buf, from) {
            assert(here =~= seq![13u8, 10, 13, 10]);
        } else {
            if here == seq![13u8, 10, 13, 10] {
                assert(here[0] == 13 && here[1] == 10 && here[2] == 13 && here[3] == 10);
                assert(buf[from] == 13 && buf[from + 1] == 10 && buf[from + 2] == 13 && buf[from
                    + 3] == 10);
            }
            if from < end {
                lemma_header_end_from(buf, from + 1, end);
                if transport::header_end(buf, from) == Some(end) {
                    assert forall|i: int| from <= i < end implies #[trigger] buf.subrange(i, i + 4)
                        != seq![13u8, 10, 13, 10] by {
                        if i == from {
                            assert(buf.subrange(i, i + 4) == here);
                        }
                    }
                }
            } else {
                transport::lemma_header_end(buf, from + 1);
            }
        }
    }
}

// ---------------------------------------------------------------------------
// Numbers and texts of JSON
// ---------------------------------------------------------------------------

/// A whole number is read back from the number that stands for it, and only from that.
pub proof fn law_whole_numbers(i: i64, u: u64, s: Seq<char>)
    ensures
        json::as_i64(json::int_number(i as int)) == Some(i),
        json::as_u64(json::int_number(u as int)) == Some(u),
        i < 0 ==> json::as_u64(json::int_number(i as int)) is None,
        u > i64::MAX ==> json::as_i64(laws::whole(u)) is None,
        json::as_i64(Jv::Number(Jn::Float(s))) is None,
        json::as_u64(Jv::Number(Jn::Float(s))) is None,
        json::as_i64(Jv::Str(s)) is None,
        json::as_str(Jv::Str(s)) == Some(s),
        json::as_str(Jv::Null) is None,
{
}

/// Every value equals itself, and two texts, two whole numbers or two booleans are equal only where
/// they are the same; two arrays are equal only where their values are, one by one.
pub proof fn law_equal(v: Jv, a: Seq<char>, b: Seq<char>, m: u64, n: u64, x: Seq<Jv>, y: Seq<Jv>)
    ensures
        json::equal(v, v),
        json::equal(Jv::Str(a), Jv::Str(b)) <==> a == b,
        json::equal(laws::whole(m), laws::whole(n)) <==> m == n,
        !json::equal(Jv::Bool(true), Jv::Bool(false)),
        !json::equal(Jv::Null, Jv::Str(a)),
        json::equal(Jv::Array(x), Jv::Array(y)) <==> x.len() == y.len() && forall|i: int|
            0 <= i < x.len() ==> json::equal(#[trigger] x[i], y[i]),
    decreases v,
{
    match v {
        Jv::Array(items) => {
            assert forall|i: int| 0 <= i < items.len() implies json::equal(
                #[trigger] items[i],
                items[i],
            ) by {
                law_equal(items[i], a, b, m, n, x, y);
            }
        },
        Jv::Object(es) => {
            assert forall|i: int| 0 <= i < es.len() implies (#[trigger] es[i]).0 == es[i].0
                && json::equal(es[i].1, es[i].1) by {
                law_equal(es[i].1, a, b, m, n, x, y);
            }
        },
        _ => {},
    }
}

/// The id behind an id is one more, for requests to servers and for calls to Emacs, and starts
/// again at zero behind the largest.
pub proof fn law_ids_ascend(id: u64)
    ensures
        id < u64::MAX ==> crate::session::id_after(id) == id + 1 && epc::uid_after(id) == id + 1,
        crate::session::id_after(u64::MAX) == 0,
        epc::uid_after(u64::MAX) == 0,
{
}

/// The members of a JSON text: of a text that is an object, each key with its quotes and the text
/// of its value, in order; a value ends at its comma.
pub proof fn law_member_texts(key: Seq<char>, value: Seq<char>, rest: Seq<char>)
    requires
        !key.contains('"'),
        !key.contains('\\'),
        is_plain(value),
    ensures
        members::members_from(
            seq!['"'] + key + seq!['"', ':'] + value + seq![','] + rest,
        ) == seq![(seq!['"'] + key + seq!['"'], value)] + members::members_from(rest),
        members::members_from(seq!['"'] + key + seq!['"', ':'] + value + seq!['}']) == seq![
            (seq!['"'] + key + seq!['"'], value),
        ],
        members::members_of(seq!['{'] + rest) == Some(members::members_from(rest)),
        members::members_of(seq![' ', '{'] + rest) == Some(members::members_from(rest)),
        members::members_of(seq!['['] + rest) is None,
{
    lemma_member(key, value, seq![','] + rest);
    let a = seq!['"'] + key + seq!['"', ':'] + value + (seq![','] + rest);
    assert(a =~= seq!['"'] + key + seq!['"', ':'] + value + seq![','] + rest);
    assert((seq![','] + rest).skip(1) =~= rest);
    lemma_member(key, value, seq!['}']);
    assert((seq!['{'] + rest).skip(1) =~= rest);
    let b = seq![' ', '{'] + rest;
    assert(b.skip(1) =~= seq!['{'] + rest);
    assert(members::past_blanks(seq!['{'] + rest) == seq!['{'] + rest);
}

/// Whether a text holds no quotation mark, bracket or comma.
pub open spec fn is_plain(s: Seq<char>) -> bool {
    forall|i: int|
        0 <= i < s.len() ==> (#[trigger] s[i]) != '"' && s[i] != '{' && s[i] != '[' && s[i] != '}'
            && s[i] != ']' && s[i] != ','
}

proof fn lemma_member(key: Seq<char>, value: Seq<char>, rest: Seq<char>)
    requires
        !key.contains('"'),
        !key.contains('\\'),
        is_plain(value),
        rest.len() > 0,
        rest[0] == ',' || rest[0] == '}',
    ensures
        ({
            let s = seq!['"'] + key + seq!['"', ':'] + value + rest;
            let member = (seq!['"'] + key + seq!['"'], value);
            members::members_from(s) == (if rest[0] == ',' {
                seq![member] + members::members_from(rest.skip(1))
            } else {
                seq![member]
            })
        }),
{
    let s = seq!['"'] + key + seq!['"', ':'] + value + rest;
    let after = seq![':'] + value + rest;
    assert(s[0] == '"');
    assert(members::past_blanks(s) == s);
    assert(s.skip(1) =~= key + seq!['"'] + after);
    lemma_string_ends(key, after);
    let n = (1 + members::string_len(s.skip(1))) as int;
    assert(n == key.len() + 2);
    assert(s.skip(n) =~= after);
    assert(after[0] == ':');
    assert(members::past_blanks(after) == after);
    let v = after.skip(1);
    assert(v =~= value + rest);
    lemma_value_ends(value, rest);
    let m = members::value_len(v, 0) as int;
    assert(v.skip(m) =~= rest);
    assert(v.take(m) =~= value);
    assert(s.take(n) =~= seq!['"'] + key + seq!['"']);
}

proof fn lemma_string_ends(key: Seq<char>, rest: Seq<char>)
    requires
        !key.contains('"'),
        !key.contains('\\'),
    ensures
        members::string_len(key + seq!['"'] + rest) == key.len() + 1,
    decreases key.len(),
{
    let s = key + seq!['"'] + rest;
    if key.len() > 0 {
        let shorter = key.skip(1);
        assert(s[0] == key[0]);
        assert(key[0] != '"' && key[0] != '\\');
        assert(s.skip(1) =~= shorter + seq!['"'] + rest);
        assert(!shorter.contains('"') && !shorter.contains('\\')) by {
            if shorter.contains('"') {
                let k = choose|k: int| 0 <= k < shorter.len() && shorter[k] == '"';
                assert(key[k + 1] == '"');
            }
            if shorter.contains('\\') {
                let k = choose|k: int| 0 <= k < shorter.len() && shorter[k] == '\\';
                assert(key[k + 1] == '\\');
            }
        }
        lemma_string_ends(shorter, rest);
    } else {
        assert(s[0] == '"');
    }
}

proof fn lemma_value_ends(value: Seq<char>, rest: Seq<char>)
    requires
        is_plain(value),
        rest.len() > 0,
        rest[0] == ',' || rest[0] == '}',
    ensures
        members::value_len(value + rest, 0) == value.len(),
    decreases value.len(),
{
    let s = value + rest;
    if value.len() > 0 {
        let shorter = value.skip(1);
        assert(s[0] == value[0]);
        assert(s.skip(1) =~= shorter + rest);
        assert(is_plain(shorter)) by {
            assert forall|i: int| 0 <= i < shorter.len() implies (#[trigger] shorter[i]) != '"'
                && shorter[i] != '{' && shorter[i] != '[' && shorter[i] != '}' && shorter[i] != ']'
                && shorter[i] != ',' by {
                assert(shorter[i] == value[i + 1]);
            }
        }
        lemma_value_ends(shorter, rest);
    } else {
        assert(s =~= rest);
    }
}

/// What stands between values, and what ends a word.
pub proof fn law_delimiters(c: char, rest: Seq<char>)
    ensures
        sexp::is_space(c) <==> c == ' ' || c == '\n' || c == '\t' || c == '\r',
        sexp::is_delimiter(c) <==> sexp::is_space(c) || c == '(' || c == ')' || c == '"',
        sexp::is_space(c) ==> sexp::read_value(seq![c] + rest) == sexp::read_value(rest),
        sexp::read_value(seq![')'] + rest) == Err::<(Sexp, Seq<char>), sexp::SexpError>(
            sexp::SexpError::UnmatchedClose,
        ),
        sexp::read_value(Seq::empty()) == Err::<(Sexp, Seq<char>), sexp::SexpError>(
            sexp::SexpError::UnexpectedEof,
        ),
{
    let s = seq![c] + rest;
    assert(s.skip(1) =~= rest);
    if sexp::is_space(c) {
        assert(sexp::skip_space(s) == sexp::skip_space(rest));
    }
    assert(sexp::skip_space(seq![')'] + rest) == seq![')'] + rest);
}

// ---------------------------------------------------------------------------
// JSON-RPC
// ---------------------------------------------------------------------------

/// A text is the message of the value that it holds, and no message where it holds none.
pub proof fn law_text_is_message(s: Seq<char>, v: Jv)
    ensures
        json::json_read(s) == Ok::<Jv, Seq<char>>(v) ==> jsonrpc::parsed(s) == jsonrpc::incoming_of(
            v,
        ),
        json::json_read(s) is Err ==> jsonrpc::parsed(s) == Err::<Incoming, IncomingFault>(
            IncomingFault::Syntax(json::json_read(s)->Err_0),
        ),
{
}

/// Each message holds its members in their order, and no parameters or data where there are none.
pub proof fn law_rpc_members(
    request: jsonrpc::JsonRpcRequest,
    notification: jsonrpc::JsonRpcNotification,
    response: jsonrpc::JsonRpcResponse,
    error: jsonrpc::JsonRpcError,
)
    ensures
        ({
            let all = request.members();
            let head = seq![
                ("jsonrpc"@, Jv::Str(request.jsonrpc@)),
                ("id"@, laws::whole(request.id)),
                ("method"@, Jv::Str(request.method@)),
            ];
            &&& request.params is Some ==> all == head + seq![("params"@, request.params->0@)]
            &&& request.params is None ==> all == head
        }),
        ({
            let all = notification.members();
            let head = seq![
                ("jsonrpc"@, Jv::Str(notification.jsonrpc@)),
                ("method"@, Jv::Str(notification.method@)),
            ];
            &&& notification.params is Some ==> all == head + seq![
                ("params"@, notification.params->0@),
            ]
            &&& notification.params is None ==> all == head
        }),
        response.members() == seq![
            ("jsonrpc"@, Jv::Str(response.jsonrpc@)),
            ("id"@, laws::whole(response.id)),
            ("result"@, response.result@),
        ],
        ({
            let all = error.members();
            let head = seq![
                ("code"@, json::int_number(error.code as int)),
                ("message"@, Jv::Str(error.message@)),
            ];
            &&& error.data is Some ==> all == head + seq![("data"@, error.data->0@)]
            &&& error.data is None ==> all == head
        }),
{
}

/// The codes of the errors that the protocol names.
pub proof fn law_error_codes()
    ensures
        jsonrpc::PARSE_ERROR == -32700,
        jsonrpc::INVALID_REQUEST == -32600,
        jsonrpc::METHOD_NOT_FOUND == -32601,
        jsonrpc::INVALID_PARAMS == -32602,
        jsonrpc::INTERNAL_ERROR == -32603,
        jsonrpc::SERVER_NOT_INITIALIZED == -32002,
{
}

/// What is said of each fault: what went wrong, and with what.
pub proof fn law_fault_texts(s: Seq<char>, n: nat, c: char, e: sexp::SexpError)
    ensures
        message::fault_text(MessageFault::InvalidFormat(s)) == "invalid message format: "@ + s,
        message::fault_text(MessageFault::UnknownType(s)) == "unknown message type: "@ + s,
        message::fault_text(MessageFault::SexpError(e)) == "sexp parse error: "@ + sexp::error_text(
            e,
        ),
        sexp::error_text(sexp::SexpError::UnexpectedEof) == "unexpected end of input"@,
        sexp::error_text(sexp::SexpError::UnterminatedString) == "unterminated string"@,
        sexp::error_text(sexp::SexpError::InvalidEscape(c)) == "invalid escape sequence: \\"@
            + seq![c],
        sexp::error_text(sexp::SexpError::UnmatchedClose) == "unmatched closing parenthesis"@,
        wire::fault_text(wire::WireFault::Incomplete { needed: n }) == "incomplete frame: need "@
            + text::decimal(n) + " more bytes"@,
        wire::fault_text(wire::WireFault::InvalidHexLength(s)) == "invalid hex length: "@ + s,
        wire::fault_text(wire::WireFault::FrameTooLarge(n)) == "frame too large: "@ + text::decimal(
            n,
        ) + " bytes"@,
        wire::fault_text(wire::WireFault::InvalidUtf8) == "invalid UTF-8 in frame"@,
        transport::fault_text(transport::TransportFault::Incomplete)
            == "incomplete message: need more data"@,
        transport::fault_text(transport::TransportFault::InvalidHeader(s)) == "invalid header: "@
            + s,
        transport::fault_text(transport::TransportFault::InvalidJson(s)) == "invalid JSON: "@ + s,
        transport::fault_text(transport::TransportFault::PayloadTooLarge(n))
            == "payload too large: "@ + text::decimal(n) + " bytes"@,
        transport::fault_text(transport::TransportFault::InvalidUtf8) == "invalid UTF-8"@,
{
}

/// A message whose uid is no whole number, or that ends before it is complete, is refused.
pub proof fn law_broken_message(items: Seq<Sexp>)
    requires
        items.len() > 0,
        ({
            let call = items[0] == Sexp::Symbol("call"@);
            let answer = items[0] == Sexp::Symbol("return"@) || items[0] == Sexp::Symbol(
                "return-error"@,
            ) || items[0] == Sexp::Symbol("epc-error"@);
            let methods = items[0] == Sexp::Symbol("methods"@);
            ||| call && (items.len() < 4 || !(items[1] is Integer) || !(items[2] is Symbol
                || items[2] is String))
            ||| answer && (items.len() < 3 || !(items[1] is Integer))
            ||| methods && (items.len() < 2 || !(items[1] is Integer))
        }),
    ensures
        message::message_of(Sexp::List(items)) is Err,
        message::message_of(Sexp::List(items))->Err_0 is InvalidFormat,
{
    lemma_message_kinds();
}

/// A synchronisation is read from its information.
pub proof fn law_remote_sync_read(v: Jv, info: Jv)
    requires
        v is Object,
        json::member(v, "command"@) == Some(Jv::Str("remote_sync"@)),
        json::member(v, "info"@) == Some(info),
    ensures
        protocol::sync_of(v) == Some(Sync::RemoteSync { info }),
{
    reveal_strlit("command");
    reveal_strlit("info");
    reveal_strlit("remote_sync");
    reveal_strlit("open_file");
    reveal_strlit("close_file");
    reveal_strlit("save_file");
    reveal_strlit("change_file");
    reveal_strlit("update_file");
    assert("command"@.len() == 7 && "info"@.len() == 4);
    assert("remote_sync"@.len() == 11 && "open_file"@.len() == 9 && "close_file"@.len() == 10
        && "save_file"@.len() == 9 && "change_file"@.len() == 11 && "update_file"@.len() == 11);
    assert("remote_sync"@[0] == 'r' && "change_file"@[0] == 'c' && "update_file"@[0] == 'u');
    lemma_without(v->Object_0, "command"@, "info"@);
}

} // verus!
