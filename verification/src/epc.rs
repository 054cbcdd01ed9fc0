//! The conversation with Emacs: calls in both directions, and what follows from what comes in.

use crate::concurrent;
use crate::convert;
use crate::json;
use crate::json::{Json, Jv};
use crate::message;
use crate::message::{EpcMessage, EvalArg, Message, MessageError};
use crate::sexp;
use crate::sexp::{Sexp, SexpValue};
use crate::text;
use crate::wire;
use crate::wire::{FrameDecoder, WireError, WireFault};
use dashmap::DashMap;
use vstd::prelude::*;

verus! {

/// What follows from a message of Emacs.
#[derive(Debug, PartialEq, Eq)]
pub enum EpcAction {
    /// Run the method and answer with [`call_response`].
    Dispatch { uid: u64, method: String, args: Vec<SexpValue> },
    /// Write these bytes.
    Reply(Vec<u8>),
    /// Hand the result to whoever awaits the call.
    Resolve { uid: u64, result: SexpValue },
    /// Nobody awaits this call.
    Unawaited { uid: u64 },
}

/// The mathematical value of an [`EpcAction`].
#[verifier::ext_equal]
pub enum Action {
    Dispatch { uid: u64, method: Seq<char>, args: Seq<Sexp> },
    Reply(Seq<u8>),
    Resolve { uid: u64, result: Sexp },
    Unawaited { uid: u64 },
}

impl View for EpcAction {
    type V = Action;

    open spec fn view(&self) -> Action {
        match *self {
            EpcAction::Dispatch { uid, method, args } => Action::Dispatch {
                uid,
                method: method@,
                args: sexp::models(args@),
            },
            EpcAction::Reply(bytes) => Action::Reply(bytes@),
            EpcAction::Resolve { uid, result } => Action::Resolve { uid, result: result@ },
            EpcAction::Unawaited { uid } => Action::Unawaited { uid },
        }
    }
}

/// The bytes of a message on the wire.
pub open spec fn frame_of(m: Message) -> Seq<u8> {
    wire::frame(sexp::written(message::message_sexp(m)))
}

/// The bytes of a message on the wire.
pub fn message_frame(msg: &EpcMessage) -> (r: Vec<u8>)
    ensures
        r@ == frame_of(msg@),
{
    let text = msg.encode();
    wire::encode(text.as_str())
}

/// The answer to a call: what the method returned, or its error as a text.
pub fn call_response(uid: u64, outcome: Result<SexpValue, String>) -> (r: EpcMessage)
    ensures
        r@ == (match outcome {
            Ok(result) => Message::Return { uid, result: result@ },
            Err(e) => Message::ReturnError { uid, error: Sexp::String(e@) },
        }),
{
    match outcome {
        Ok(result) => EpcMessage::Return { uid, result },
        Err(e) => EpcMessage::ReturnError { uid, error: SexpValue::String(e) },
    }
}

/// The reply to the request for the methods.
pub fn methods_reply(uid: u64, listed: &Vec<String>) -> (r: EpcMessage)
    ensures
        r@ == (Message::Return {
            uid,
            result: Sexp::List(method_symbols(text::texts(listed@))),
        }),
{
    let mut names: Vec<SexpValue> = Vec::new();
    let mut i: usize = 0;
    while i < listed.len()
        invariant
            i <= listed@.len(),
            names@.len() == i,
            forall|j: int| 0 <= j < i ==> (#[trigger] names@[j])@ == Sexp::Symbol(listed@[j]@),
        decreases listed@.len() - i,
    {
        names.push(SexpValue::symbol(listed[i].as_str()));
        i = i + 1;
    }
    proof {
        sexp::lemma_list_model(names);
        assert(sexp::models(names@) =~= method_symbols(text::texts(listed@)));
    }
    EpcMessage::Return { uid, result: SexpValue::List(names) }
}

/// A connection to Emacs.
pub struct EpcConnection {
    /// The methods that Emacs can call.
    methods: DashMap<String, ()>,
    /// Uids of the calls that await their return.
    pending: DashMap<u64, ()>,
    /// The uid of the next call.
    uid_counter: u64,
}

/// The mathematical value of an [`EpcConnection`].
#[verifier::ext_equal]
pub struct Connection {
    pub methods: Set<Seq<char>>,
    pub pending: Set<u64>,
    pub next_uid: u64,
}

impl View for EpcConnection {
    type V = Connection;

    closed spec fn view(&self) -> Connection {
        Connection {
            methods: concurrent::names(self.methods),
            pending: concurrent::ids(self.pending),
            next_uid: self.uid_counter,
        }
    }
}

/// The uid behind a uid; behind the largest comes zero.
pub open spec fn uid_after(uid: u64) -> u64 {
    if uid == u64::MAX {
        0
    } else {
        (uid + 1) as u64
    }
}

/// The methods' names as symbols.
pub open spec fn method_symbols(methods: Seq<Seq<char>>) -> Seq<Sexp> {
    Seq::new(methods.len(), |i: int| Sexp::Symbol(methods[i]))
}

/// The end of a call: it is resolved if somebody awaits it.
pub open spec fn returned(c: Connection, uid: u64, result: Sexp) -> (Action, Connection) {
    if c.pending.contains(uid) {
        (
            Action::Resolve { uid, result },
            Connection { pending: c.pending.remove(uid), ..c },
        )
    } else {
        (Action::Unawaited { uid }, c)
    }
}

/// What follows from a message, and the connection after it. `listed` are the methods in the order
/// in which they are listed.
pub open spec fn handled(c: Connection, m: Message, listed: Seq<Seq<char>>) -> (
    Action,
    Connection,
) {
    match m {
        Message::Call { uid, method, args } => if c.methods.contains(method) {
            (Action::Dispatch { uid, method, args }, c)
        } else {
            (
                Action::Reply(
                    frame_of(Message::EpcError { uid, message: "method not found: "@ + method }),
                ),
                c,
            )
        },
        Message::Return { uid, result } => returned(c, uid, result),
        Message::ReturnError { uid, error } => returned(c, uid, error),
        Message::EpcError { uid, message } => returned(
            c,
            uid,
            Sexp::String("epc-error: "@ + message),
        ),
        Message::Methods { uid } => (
            Action::Reply(
                frame_of(
                    Message::Return { uid, result: Sexp::List(method_symbols(listed)) },
                ),
            ),
            c,
        ),
    }
}

/// Whether an action and a connection are what follows from a message. The order in which the
/// methods are listed is left open.
pub open spec fn follows(c: Connection, m: Message, action: Action, after: Connection) -> bool {
    exists|listed: Seq<Seq<char>>|
        (m is Methods ==> concurrent::lists(listed, c.methods)) && #[trigger] handled(c, m, listed)
            == (action, after)
}

impl EpcConnection {
    pub fn new() -> (r: Self)
        ensures
            r@ == (Connection { methods: Set::empty(), pending: Set::empty(), next_uid: 1 }),
    {
        EpcConnection {
            methods: concurrent::no_names(),
            pending: concurrent::no_ids(),
            uid_counter: 1,
        }
    }

    /// Let Emacs call a method.
    pub fn register(&mut self, name: &str)
        ensures
            final(self)@ == (Connection {
                methods: old(self)@.methods.insert(name@),
                ..old(self)@
            }),
    {
        let _ = concurrent::insert_name(&mut self.methods, name.to_string());
    }

    fn next_uid(&mut self) -> (r: u64)
        ensures
            r == old(self)@.next_uid,
            final(self)@ == (Connection { next_uid: uid_after(old(self)@.next_uid), ..old(self)@ }),
    {
        let uid: u64 = self.uid_counter;
        self.uid_counter = uid.wrapping_add(1);
        uid
    }

    /// A call of a method of Emacs whose return is awaited: its uid and its bytes.
    pub fn call_sync(&mut self, method: &str, args: Vec<SexpValue>) -> (r: (u64, Vec<u8>))
        ensures
            r.0 == old(self)@.next_uid,
            r.1@ == frame_of(
                Message::Call {
                    uid: old(self)@.next_uid,
                    method: method@,
                    args: sexp::models(args@),
                },
            ),
            final(self)@ == (Connection {
                next_uid: uid_after(old(self)@.next_uid),
                pending: old(self)@.pending.insert(old(self)@.next_uid),
                ..old(self)@
            }),
    {
        let uid: u64 = self.next_uid();
        let _ = concurrent::insert_id(&mut self.pending, uid);
        let msg = EpcMessage::Call { uid, method: method.to_string(), args };
        (uid, message_frame(&msg))
    }

    /// A call of a method of Emacs whose return nobody awaits: its bytes.
    pub fn call_async(&mut self, method: &str, args: Vec<SexpValue>) -> (r: Vec<u8>)
        ensures
            r@ == frame_of(
                Message::Call {
                    uid: old(self)@.next_uid,
                    method: method@,
                    args: sexp::models(args@),
                },
            ),
            final(self)@ == (Connection { next_uid: uid_after(old(self)@.next_uid), ..old(self)@ }),
    {
        let uid: u64 = self.next_uid();
        let msg = EpcMessage::Call { uid, method: method.to_string(), args };
        message_frame(&msg)
    }

    /// The bytes of a message.
    pub fn send_message(&self, msg: &EpcMessage) -> (r: Vec<u8>)
        ensures
            r@ == frame_of(msg@),
    {
        message_frame(msg)
    }

    /// The return of a call.
    pub fn send_return(&self, uid: u64, result: SexpValue) -> (r: Vec<u8>)
        ensures
            r@ == frame_of(Message::Return { uid, result: result@ }),
    {
        message_frame(&EpcMessage::Return { uid, result })
    }

    /// The error of a call.
    pub fn send_error(&self, uid: u64, error: SexpValue) -> (r: Vec<u8>)
        ensures
            r@ == frame_of(Message::ReturnError { uid, error: error@ }),
    {
        message_frame(&EpcMessage::ReturnError { uid, error })
    }

    fn finish(&mut self, uid: u64, result: SexpValue) -> (r: EpcAction)
        ensures
            r@ == returned(old(self)@, uid, result@).0,
            final(self)@ == returned(old(self)@, uid, result@).1,
    {
        if concurrent::remove_id(&mut self.pending, uid) {
            EpcAction::Resolve { uid, result }
        } else {
            assert(self@.pending =~= old(self)@.pending);
            EpcAction::Unawaited { uid }
        }
    }

    /// Handle a message that was read.
    pub fn handle_message(&mut self, msg: EpcMessage) -> (r: EpcAction)
        ensures
            follows(old(self)@, msg@, r@, final(self)@),
    {
        let listed: Vec<String> = match &msg {
            EpcMessage::Methods { .. } => concurrent::list_names(&self.methods),
            _ => Vec::new(),
        };
        let ghost order = text::texts(listed@);
        let r = match msg {
            EpcMessage::Call { uid, method, args } => if concurrent::contains_name(
                &self.methods,
                method.as_str(),
            ) {
                EpcAction::Dispatch { uid, method, args }
            } else {
                let message = text::concat("method not found: ", method.as_str());
                EpcAction::Reply(message_frame(&EpcMessage::EpcError { uid, message }))
            },
            EpcMessage::Return { uid, result } => self.finish(uid, result),
            EpcMessage::ReturnError { uid, error } => self.finish(uid, error),
            EpcMessage::EpcError { uid, message } => {
                let shown = text::concat("epc-error: ", message.as_str());
                self.finish(uid, SexpValue::String(shown))
            },
            EpcMessage::Methods { uid } => EpcAction::Reply(
                message_frame(&methods_reply(uid, &listed)),
            ),
        };
        assert(handled(old(self)@, msg@, order) == (r@, self@));
        r
    }

    /// Handle the text of a message; a text that holds none changes nothing.
    pub fn handle_incoming_message(&mut self, sexp_str: &str) -> (r: Result<
        EpcAction,
        MessageError,
    >)
        ensures
            match message::decoded(sexp_str@) {
                Ok(m) => r is Ok && follows(old(self)@, m, r->Ok_0@, final(self)@),
                Err(e) => r is Err && r->Err_0@ == e && final(self)@ == old(self)@,
            },
    {
        match EpcMessage::decode(sexp_str) {
            Ok(msg) => Ok(self.handle_message(msg)),
            Err(e) => Err(e),
        }
    }
}

impl Default for EpcConnection {
    fn default() -> (r: Self)
        ensures
            r@ == (Connection { methods: Set::empty(), pending: Set::empty(), next_uid: 1 }),
    {
        EpcConnection::new()
    }
}

/// Whether a message ends the call with that uid: with a result or with an error.
pub open spec fn ends_call(m: Message, uid: u64) -> bool {
    match m {
        Message::Return { uid: ended, .. } => ended == uid,
        Message::ReturnError { uid: ended, .. } => ended == uid,
        Message::EpcError { uid: ended, .. } => ended == uid,
        _ => false,
    }
}

/// What a message that ends a call hands to whoever awaits it.
pub open spec fn outcome(m: Message) -> Sexp {
    match m {
        Message::Return { result, .. } => result,
        Message::ReturnError { error, .. } => error,
        Message::EpcError { message, .. } => Sexp::String("epc-error: "@ + message),
        _ => Sexp::Nil,
    }
}

/// A call that is awaited is resolved by the first message that ends it, and only by that one:
/// another message with its uid finds nobody waiting.
pub proof fn law_resolved_once(
    c: Connection,
    uid: u64,
    m: Message,
    action: Action,
    after: Connection,
    again: Message,
    later: Action,
    last: Connection,
)
    requires
        c.pending.contains(uid),
        ends_call(m, uid),
        follows(c, m, action, after),
        ends_call(again, uid),
        follows(after, again, later, last),
    ensures
        action == (Action::Resolve { uid, result: outcome(m) }),
        later == (Action::Unawaited { uid }),
        last == after,
{
}

/// A call that is awaited stays so, whatever comes, until a message ends it.
pub proof fn law_awaited_until_ended(
    c: Connection,
    uid: u64,
    m: Message,
    action: Action,
    after: Connection,
)
    requires
        follows(c, m, action, after),
        !ends_call(m, uid),
    ensures
        after.pending.contains(uid) == c.pending.contains(uid),
        after.methods == c.methods,
        after.next_uid == c.next_uid,
{
}

/// Whether the next uid is larger than that of every call that is awaited.
pub open spec fn uids_below_next(c: Connection) -> bool {
    forall|uid: u64| c.pending.contains(uid) ==> uid < c.next_uid
}

/// The uid of the next call belongs to no call that is awaited, and it stays so from call to call
/// until the uids run out, whatever Emacs sends.
pub proof fn law_uid_fresh(c: Connection, m: Message, action: Action, after: Connection)
    requires
        uids_below_next(c),
        follows(c, m, action, after),
    ensures
        !c.pending.contains(c.next_uid),
        uids_below_next(after),
        c.next_uid < u64::MAX ==> uids_below_next(
            Connection {
                next_uid: uid_after(c.next_uid),
                pending: c.pending.insert(c.next_uid),
                ..c
            },
        ),
{
}

/// Calls and the request for the methods leave the connection as it is.
pub proof fn law_calls_change_nothing(c: Connection, m: Message, action: Action, after: Connection)
    requires
        m is Call || m is Methods,
        follows(c, m, action, after),
    ensures
        after == c,
{
}

/// Every call of Emacs is answered: a method that is registered runs, and for any other the reply
/// says that there is none.
pub proof fn law_call_answered(
    c: Connection,
    uid: u64,
    method: Seq<char>,
    args: Seq<Sexp>,
    action: Action,
    after: Connection,
)
    requires
        follows(c, Message::Call { uid, method, args }, action, after),
    ensures
        c.methods.contains(method) ==> action == (Action::Dispatch { uid, method, args }),
        !c.methods.contains(method) ==> action == Action::Reply(
            frame_of(Message::EpcError { uid, message: "method not found: "@ + method }),
        ),
{
}

// ---------------------------------------------------------------------------
// Reading
// ---------------------------------------------------------------------------

/// What a batch of bytes brings: the texts of the messages in order, and the fault that stops
/// the reading, if there is one.
pub struct Batch {
    pub messages: Vec<String>,
    pub fault: Option<WireError>,
}

/// The fault at the front of a buffer.
pub open spec fn fault_of(buf: Seq<u8>) -> Option<WireFault> {
    match wire::decoded(buf) {
        Err(e) => Some(e),
        Ok(_) => None,
    }
}

/// Take bytes of Emacs in, and the texts of the messages that they complete out.
pub fn read_messages(decoder: &mut FrameDecoder, data: &[u8]) -> (r: Batch)
    requires
        old(decoder)@.len() + data@.len() <= isize::MAX,
    ensures
        ({
            let (texts, left) = wire::taken(old(decoder)@ + data@);
            &&& final(decoder)@ == left
            &&& text::texts(r.messages@) == texts
            &&& match fault_of(left) {
                Some(e) => r.fault is Some && r.fault->0@ == e,
                None => r.fault is None,
            }
        }),
{
    decoder.push(data);
    let ghost all = decoder@;
    let ghost (texts, left) = wire::taken(all);
    let mut messages: Vec<String> = Vec::new();
    assert(texts.skip(0) =~= texts);
    assert(texts.take(0) =~= text::texts(messages@));
    loop
        invariant
            all == old(decoder)@ + data@,
            wire::taken(all) == (texts, left),
            messages@.len() <= texts.len(),
            text::texts(messages@) == texts.take(messages@.len() as int),
            wire::taken(decoder@).0 == texts.skip(messages@.len() as int),
            wire::taken(decoder@).1 == left,
        decreases decoder@.len(),
    {
        let ghost before = decoder@;
        proof {
            wire::lemma_decoded_len(before);
        }
        match decoder.next_message() {
            Ok(Some(s)) => {
                let ghost rest = wire::taken(decoder@).0;
                let ghost n = messages@.len() as int;
                assert(wire::taken(before).0 =~= seq![s@] + rest);
                assert(texts.skip(n)[0] == s@);
                let ghost earlier = text::texts(messages@);
                messages.push(s);
                assert(text::texts(messages@) =~= earlier.push(s@));
                assert(texts.take(n + 1) =~= texts.take(n).push(s@));
                assert(texts.skip(n).skip(1) =~= texts.skip(n + 1));
                assert((seq![s@] + rest).skip(1) =~= rest);
            },
            Ok(None) => {
                assert(texts.skip(messages@.len() as int).len() == 0);
                assert(texts.take(messages@.len() as int) =~= texts);
                return Batch { messages, fault: None };
            },
            Err(e) => {
                assert(texts.skip(messages@.len() as int).len() == 0);
                assert(texts.take(messages@.len() as int) =~= texts);
                return Batch { messages, fault: Some(e) };
            },
        }
    }
}

/// A message that was framed comes out of the bytes again, whatever follows it, and reads as what
/// was sent; the frame must not exceed the largest size.
pub proof fn law_message_over_wire(m: Message, rest: Seq<u8>)
    requires
        message::encodable(m),
        wire::fits(sexp::written(message::message_sexp(m))),
    ensures
        ({
            let (texts, left) = wire::taken(frame_of(m) + rest);
            &&& texts.len() > 0
            &&& message::decoded(texts[0]) == Ok::<Message, message::MessageFault>(
                message::settled(m),
            )
            &&& texts.skip(1) == wire::taken(rest).0
            &&& left == wire::taken(rest).1
        }),
{
    let line = sexp::written(message::message_sexp(m));
    message::law_decode_encode(m);
    wire::law_decode_frame(line, rest);
    wire::lemma_decoded_len(frame_of(m) + rest);
    assert((frame_of(m) + rest).skip(frame_of(m).len() as int) =~= rest);
    assert((seq![line] + wire::taken(rest).0).skip(1) =~= wire::taken(rest).0);
}

// ---------------------------------------------------------------------------
// Calling Emacs
// ---------------------------------------------------------------------------

/// The arguments of the call that has Emacs evaluate an expression.
pub open spec fn eval_args(method: Seq<char>, values: Seq<Sexp>) -> Seq<Sexp> {
    let expression = sexp::written(message::eval_call(method, values));
    seq![Sexp::List(seq![Sexp::String(expression)])]
}

/// A string under a quote mark.
pub open spec fn quoted_text(s: Seq<char>) -> Sexp {
    Sexp::Quoted(Box::new(Sexp::String(s)))
}

/// Emacs' way of saying that a value is a boolean.
pub open spec fn says_boolean(v: Sexp) -> bool {
    v == Sexp::Bool(true) || v == Sexp::Symbol("t"@)
}

/// The value of a variable: a pair of the value and whether it is a boolean.
pub open spec fn variable_value(item: Sexp) -> Jv {
    match item {
        Sexp::List(pair) => if pair.len() == 2 {
            if says_boolean(pair[1]) {
                Jv::Bool(pair[0] == Sexp::Bool(true))
            } else {
                convert::json_of(pair[0])
            }
        } else if pair.len() == 0 {
            Jv::Bool(false)
        } else {
            convert::json_of(item)
        },
        _ => convert::json_of(item),
    }
}

/// The values of variables that Emacs returned.
pub open spec fn variable_values(result: Sexp) -> Seq<Jv> {
    match result {
        Sexp::List(items) => Seq::new(items.len(), |i: int| variable_value(items[i])),
        _ => seq![convert::json_of(result)],
    }
}

fn read_variable(item: &SexpValue) -> (r: Json)
    ensures
        r@ == variable_value(item@),
{
    match item {
        SexpValue::List(pair) => {
            proof {
                sexp::lemma_list_model(*pair);
            }
            let ghost all = sexp::models(pair@);
            if pair.len() == 2 {
                assert(all[0] == pair@[0]@ && all[1] == pair@[1]@);
                let boolean = match &pair[1] {
                    SexpValue::Bool(b) => *b,
                    SexpValue::Symbol(s) => text::str_eq(s.as_str(), "t"),
                    _ => false,
                };
                message::convert_emacs_bool(&pair[0], boolean)
            } else if pair.len() == 0 {
                Json::Bool(false)
            } else {
                item.to_json()
            }
        },
        _ => item.to_json(),
    }
}

/// The values of the variables that Emacs returned, booleans converted.
pub fn emacs_vars(result: &SexpValue) -> (r: Vec<Json>)
    ensures
        json::models(r@) == variable_values(result@),
{
    let mut values: Vec<Json> = Vec::new();
    match result {
        SexpValue::List(items) => {
            let ghost all = sexp::models(items@);
            let mut i: usize = 0;
            while i < items.len()
                invariant
                    all == sexp::models(items@),
                    i <= items@.len(),
                    values@.len() == i,
                    forall|j: int|
                        0 <= j < i ==> (#[trigger] values@[j])@ == variable_value(all[j]),
                decreases items@.len() - i,
            {
                values.push(read_variable(&items[i]));
                i = i + 1;
            }
            proof {
                sexp::lemma_list_model(*items);
            }
        },
        _ => {
            values.push(result.to_json());
        },
    }
    assert(json::models(values@) =~= variable_values(result@));
    values
}

fn one_list(s: String) -> (r: Vec<SexpValue>)
    ensures
        sexp::models(r@) == seq![Sexp::List(seq![Sexp::String(s@)])],
{
    let mut inner: Vec<SexpValue> = Vec::new();
    inner.push(SexpValue::String(s));
    proof {
        sexp::lemma_list_model(inner);
        assert(sexp::models(inner@) =~= seq![Sexp::String(s@)]);
    }
    let mut r: Vec<SexpValue> = Vec::new();
    r.push(SexpValue::List(inner));
    assert(sexp::models(r@) =~= seq![Sexp::List(seq![Sexp::String(s@)])]);
    r
}

/// High-level EPC client for communicating with Emacs.
pub struct EpcClient {
    conn: EpcConnection,
}

impl View for EpcClient {
    type V = Connection;

    closed spec fn view(&self) -> Connection {
        self.conn@
    }
}

impl EpcClient {
    /// Create a new EPC client from an existing connection.
    pub fn new(conn: EpcConnection) -> (r: Self)
        ensures
            r@ == conn@,
    {
        EpcClient { conn }
    }

    /// The underlying connection.
    pub fn connection(&mut self) -> (r: &mut EpcConnection)
        ensures
            r@ == old(self)@,
            final(self)@ == final(r)@,
    {
        &mut self.conn
    }

    /// Have Emacs evaluate a call, without awaiting its value: the bytes to send.
    pub fn eval_in_emacs(&mut self, method_name: &str, args: &[EvalArg]) -> (r: Vec<u8>)
        ensures
            r@ == frame_of(
                Message::Call {
                    uid: old(self)@.next_uid,
                    method: "eval-in-emacs"@,
                    args: eval_args(method_name@, message::arg_values(args@)),
                },
            ),
            final(self)@ == (Connection { next_uid: uid_after(old(self)@.next_uid), ..old(self)@ }),
    {
        let text = message::build_eval_in_emacs(method_name, args);
        self.conn.call_async("eval-in-emacs", one_list(text))
    }

    /// Call an Emacs function whose return is awaited: the uid of the call and the bytes to send.
    pub fn get_emacs_func_result(&mut self, method_name: &str, args: Vec<SexpValue>) -> (r: (
        u64,
        Vec<u8>,
    ))
        ensures
            r.0 == old(self)@.next_uid,
            r.1@ == frame_of(
                Message::Call {
                    uid: old(self)@.next_uid,
                    method: method_name@,
                    args: sexp::models(args@),
                },
            ),
            final(self)@ == (Connection {
                next_uid: uid_after(old(self)@.next_uid),
                pending: old(self)@.pending.insert(old(self)@.next_uid),
                ..old(self)@
            }),
    {
        self.conn.call_sync(method_name, args)
    }

    /// Ask for the values of Emacs variables: the uid of the call and the bytes to send. Its
    /// return is read with [`emacs_vars`].
    pub fn get_emacs_vars(&mut self, var_specs: Vec<SexpValue>) -> (r: (u64, Vec<u8>))
        ensures
            r.0 == old(self)@.next_uid,
            r.1@ == frame_of(
                Message::Call {
                    uid: old(self)@.next_uid,
                    method: "get-emacs-vars"@,
                    args: sexp::models(var_specs@),
                },
            ),
            final(self)@ == (Connection {
                next_uid: uid_after(old(self)@.next_uid),
                pending: old(self)@.pending.insert(old(self)@.next_uid),
                ..old(self)@
            }),
    {
        self.conn.call_sync("get-emacs-vars", var_specs)
    }

    /// Have Emacs show a message: the bytes to send.
    pub fn message_emacs(&mut self, shown: &str) -> (r: Vec<u8>)
        ensures
            r@ == frame_of(
                Message::Call {
                    uid: old(self)@.next_uid,
                    method: "eval-in-emacs"@,
                    args: eval_args("message"@, seq![quoted_text("[LSP-Bridge] "@ + shown@)]),
                },
            ),
            final(self)@ == (Connection { next_uid: uid_after(old(self)@.next_uid), ..old(self)@ }),
    {
        let mut args: Vec<EvalArg> = Vec::new();
        let full = text::concat("[LSP-Bridge] ", shown);
        proof {
            reveal_strlit("[LSP-Bridge] ");
            assert(full@[0] == '[');
        }
        args.push(EvalArg::String(full));
        assert(message::arg_values(args@) =~= seq![quoted_text("[LSP-Bridge] "@ + shown@)]);
        self.eval_in_emacs("message", args.as_slice())
    }
}

} // verus!
