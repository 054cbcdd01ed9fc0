//! Messages between Emacs and this process, and the calls that Emacs is asked to evaluate.
//!
//! There are five kinds of message, each an S-expression:
//! - `call`: remote procedure call (uid method args)
//! - `return`: successful response (uid result)
//! - `return-error`: error response (uid error-info)
//! - `epc-error`: protocol error (uid error-message)
//! - `methods`: request for the available methods (uid)

use crate::convert;
use crate::float;
use crate::json::{Json, Jv};
use crate::sexp;
use crate::sexp::{Sexp, SexpError, SexpValue};
use crate::sexp_laws;
use crate::text;
use vstd::prelude::*;

verus! {

/// Errors in message handling.
#[derive(Debug, PartialEq, Eq)]
pub enum MessageError {
    InvalidFormat(String),
    UnknownType(String),
    SexpError(SexpError),
}

/// The mathematical value of a [`MessageError`].
pub enum MessageFault {
    InvalidFormat(Seq<char>),
    UnknownType(Seq<char>),
    SexpError(SexpError),
}

impl View for MessageError {
    type V = MessageFault;

    open spec fn view(&self) -> MessageFault {
        match *self {
            MessageError::InvalidFormat(s) => MessageFault::InvalidFormat(s@),
            MessageError::UnknownType(s) => MessageFault::UnknownType(s@),
            MessageError::SexpError(e) => MessageFault::SexpError(e),
        }
    }
}

/// The message of a fault.
pub open spec fn fault_text(e: MessageFault) -> Seq<char> {
    match e {
        MessageFault::InvalidFormat(s) => "invalid message format: "@ + s,
        MessageFault::UnknownType(s) => "unknown message type: "@ + s,
        MessageFault::SexpError(e) => "sexp parse error: "@ + sexp::error_text(e),
    }
}

impl MessageError {
    /// The message of the error.
    pub fn to_string(&self) -> (r: String)
        ensures
            r@ == fault_text(self@),
    {
        match self {
            MessageError::InvalidFormat(s) => text::concat("invalid message format: ", s.as_str()),
            MessageError::UnknownType(s) => text::concat("unknown message type: ", s.as_str()),
            MessageError::SexpError(e) => {
                let inner = e.to_string();
                text::concat("sexp parse error: ", inner.as_str())
            },
        }
    }
}

/// A protocol message.
#[derive(Debug, PartialEq, Eq)]
pub enum EpcMessage {
    /// Remote procedure call: `(call uid method-name args)`
    Call { uid: u64, method: String, args: Vec<SexpValue> },
    /// Successful return: `(return uid result)`
    Return { uid: u64, result: SexpValue },
    /// Error return: `(return-error uid error-info)`
    ReturnError { uid: u64, error: SexpValue },
    /// Protocol error: `(epc-error uid error-message)`
    EpcError { uid: u64, message: String },
    /// Request for available methods: `(methods uid)`
    Methods { uid: u64 },
}

/// The mathematical value of an [`EpcMessage`].
#[verifier::ext_equal]
pub enum Message {
    Call { uid: u64, method: Seq<char>, args: Seq<Sexp> },
    Return { uid: u64, result: Sexp },
    ReturnError { uid: u64, error: Sexp },
    EpcError { uid: u64, message: Seq<char> },
    Methods { uid: u64 },
}

impl View for EpcMessage {
    type V = Message;

    open spec fn view(&self) -> Message {
        match *self {
            EpcMessage::Call { uid, method, args } => Message::Call {
                uid,
                method: method@,
                args: sexp::models(args@),
            },
            EpcMessage::Return { uid, result } => Message::Return { uid, result: result@ },
            EpcMessage::ReturnError { uid, error } => Message::ReturnError { uid, error: error@ },
            EpcMessage::EpcError { uid, message } => Message::EpcError { uid, message: message@ },
            EpcMessage::Methods { uid } => Message::Methods { uid },
        }
    }
}

/// The integer that carries a uid: the same 64 bits, read with a sign.
pub open spec fn uid_number(uid: u64) -> Sexp {
    Sexp::Integer(uid as i64)
}

/// The S-expression of a message.
pub open spec fn message_sexp(m: Message) -> Sexp {
    Sexp::List(
        match m {
            Message::Call { uid, method, args } => seq![
                Sexp::Symbol("call"@),
                uid_number(uid),
                Sexp::Symbol(method),
                Sexp::List(args),
            ],
            Message::Return { uid, result } => seq![
                Sexp::Symbol("return"@),
                uid_number(uid),
                result,
            ],
            Message::ReturnError { uid, error } => seq![
                Sexp::Symbol("return-error"@),
                uid_number(uid),
                error,
            ],
            Message::EpcError { uid, message } => seq![
                Sexp::Symbol("epc-error"@),
                uid_number(uid),
                Sexp::String(message),
            ],
            Message::Methods { uid } => seq![Sexp::Symbol("methods"@), uid_number(uid)],
        },
    )
}

/// The text that `{:?}` gives for a string.
pub uninterp spec fn str_debug(s: Seq<char>) -> Seq<char>;

/// `format!("{:?}", s)`: the string in double quotes, escaped where it is not printable. Its
/// text is named, not described.
#[verifier::external_body]
fn str_debug_string(s: &str) -> (r: String)
    ensures
        r@ == str_debug(s@),
{
    format!("{:?}", s)
}

/// How a float is shown in an error message: what `Debug` writes of it, or its numeral as it
/// stands if it is not finite.
pub open spec fn float_debug(s: Seq<char>) -> Seq<char> {
    match float::debug_text(s) {
        Some(t) => t,
        None => s,
    }
}

/// How a value is shown in an error message: its kind, and what it holds in brackets.
pub open spec fn shown(v: Sexp) -> Seq<char>
    decreases v,
{
    match v {
        Sexp::Nil => "Nil"@,
        Sexp::Bool(b) => if b {
            "Bool(true)"@
        } else {
            "Bool(false)"@
        },
        Sexp::Integer(n) => "Integer("@ + text::signed_decimal(n as int) + ")"@,
        Sexp::Float(s) => "Float("@ + float_debug(s) + ")"@,
        Sexp::String(s) => "String("@ + str_debug(s) + ")"@,
        Sexp::Symbol(s) => "Symbol("@ + str_debug(s) + ")"@,
        Sexp::Keyword(s) => "Keyword("@ + str_debug(s) + ")"@,
        Sexp::Cons(a, b) => "Cons("@ + shown(*a) + ", "@ + shown(*b) + ")"@,
        Sexp::List(items) => "List(["@ + shown_items(items) + "])"@,
        Sexp::Quoted(a) => "Quoted("@ + shown(*a) + ")"@,
    }
}

/// The items as they are shown, with commas between.
pub open spec fn shown_items(items: Seq<Sexp>) -> Seq<char>
    decreases items,
{
    if items.len() == 0 {
        Seq::empty()
    } else if items.len() == 1 {
        shown(items[0])
    } else {
        shown_items(items.drop_last()) + ", "@ + shown(items.last())
    }
}

fn show_text(kind: &str, s: &str, out: &mut String)
    ensures
        final(out)@ == old(out)@ + (kind@ + str_debug(s@) + ")"@),
{
    let quoted = str_debug_string(s);
    out.append(kind);
    out.append(quoted.as_str());
    out.append(")");
    assert(out@ =~= old(out)@ + (kind@ + str_debug(s@) + ")"@));
}

fn show(v: &SexpValue, out: &mut String)
    ensures
        final(out)@ == old(out)@ + shown(v@),
    decreases v,
{
    match v {
        SexpValue::Nil => out.append("Nil"),
        SexpValue::Bool(b) => if *b {
            out.append("Bool(true)");
        } else {
            out.append("Bool(false)");
        },
        SexpValue::Integer(n) => {
            let numeral = text::signed_decimal_string(*n);
            out.append("Integer(");
            out.append(numeral.as_str());
            out.append(")");
        },
        SexpValue::Float(s) => {
            let numeral = match float::debug(s.as_str()) {
                Some(t) => t,
                None => s.clone(),
            };
            out.append("Float(");
            out.append(numeral.as_str());
            out.append(")");
        },
        SexpValue::String(s) => show_text("String(", s.as_str(), out),
        SexpValue::Symbol(s) => show_text("Symbol(", s.as_str(), out),
        SexpValue::Keyword(s) => show_text("Keyword(", s.as_str(), out),
        SexpValue::Cons(a, b) => {
            out.append("Cons(");
            show(a, out);
            out.append(", ");
            show(b, out);
            out.append(")");
        },
        SexpValue::List(items) => {
            out.append("List([");
            let ghost all = sexp::models(items@);
            let ghost start = out@;
            let mut i: usize = 0;
            assert(all.take(0) =~= Seq::<Sexp>::empty());
            while i < items.len()
                invariant
                    *v == SexpValue::List(*items),
                    all == sexp::models(items@),
                    i <= items@.len(),
                    out@ == start + shown_items(all.take(i as int)),
                decreases items@.len() - i,
            {
                if i > 0 {
                    out.append(", ");
                }
                assert(decreases_to!(*v => v->List_0));
                assert(decreases_to!(items => items[i as int]));
                show(&items[i], out);
                assert(all.take(i + 1).drop_last() =~= all.take(i as int));
                assert(out@ =~= start + shown_items(all.take(i + 1)));
                i = i + 1;
            }
            assert(all.take(i as int) =~= all);
            out.append("])");
            proof {
                sexp::lemma_list_model(*items);
            }
        },
        SexpValue::Quoted(a) => {
            out.append("Quoted(");
            show(a, out);
            out.append(")");
        },
    }
    assert(out@ =~= old(out)@ + shown(v@));
}

/// The uid that a value carries.
pub open spec fn uid_of(v: Sexp) -> Result<u64, MessageFault> {
    match v {
        Sexp::Integer(n) => Ok(n as u64),
        _ => Err(MessageFault::InvalidFormat("uid must be an integer, got: "@ + shown(v))),
    }
}

/// The message that an S-expression is, or the fault in it.
pub open spec fn message_of(v: Sexp) -> Result<Message, MessageFault> {
    if !(v is List) {
        Err(MessageFault::InvalidFormat("message must be a list"@))
    } else {
        let items = v->List_0;
        if items.len() == 0 {
            Err(MessageFault::InvalidFormat("empty message"@))
        } else if !(items[0] is Symbol) {
            Err(MessageFault::InvalidFormat("first element must be a symbol"@))
        } else {
            let kind = items[0]->Symbol_0;
            if kind == "call"@ {
                if items.len() < 4 {
                    Err(MessageFault::InvalidFormat("call requires (call uid method args)"@))
                } else {
                    match uid_of(items[1]) {
                        Err(e) => Err(e),
                        Ok(uid) => match items[2] {
                            Sexp::Symbol(s) => Ok(
                                Message::Call { uid, method: s, args: call_args(items[3]) },
                            ),
                            Sexp::String(s) => Ok(
                                Message::Call { uid, method: s, args: call_args(items[3]) },
                            ),
                            _ => Err(
                                MessageFault::InvalidFormat("method must be a symbol or string"@),
                            ),
                        },
                    }
                }
            } else if kind == "return"@ {
                if items.len() < 3 {
                    Err(MessageFault::InvalidFormat("return requires (return uid result)"@))
                } else {
                    match uid_of(items[1]) {
                        Err(e) => Err(e),
                        Ok(uid) => Ok(Message::Return { uid, result: items[2] }),
                    }
                }
            } else if kind == "return-error"@ {
                if items.len() < 3 {
                    Err(
                        MessageFault::InvalidFormat(
                            "return-error requires (return-error uid error)"@,
                        ),
                    )
                } else {
                    match uid_of(items[1]) {
                        Err(e) => Err(e),
                        Ok(uid) => Ok(Message::ReturnError { uid, error: items[2] }),
                    }
                }
            } else if kind == "epc-error"@ {
                if items.len() < 3 {
                    Err(MessageFault::InvalidFormat("epc-error requires (epc-error uid message)"@))
                } else {
                    match uid_of(items[1]) {
                        Err(e) => Err(e),
                        Ok(uid) => Ok(
                            Message::EpcError {
                                uid,
                                message: match items[2] {
                                    Sexp::String(s) => s,
                                    other => sexp::written(other),
                                },
                            },
                        ),
                    }
                }
            } else if kind == "methods"@ {
                if items.len() < 2 {
                    Err(MessageFault::InvalidFormat("methods requires (methods uid)"@))
                } else {
                    match uid_of(items[1]) {
                        Err(e) => Err(e),
                        Ok(uid) => Ok(Message::Methods { uid }),
                    }
                }
            } else {
                Err(MessageFault::UnknownType(kind))
            }
        }
    }
}

/// The arguments of a call: a list's items, nothing for `nil`, else the one value.
pub open spec fn call_args(v: Sexp) -> Seq<Sexp> {
    match v {
        Sexp::List(args) => args,
        Sexp::Nil => Seq::empty(),
        _ => seq![v],
    }
}

/// The message that a text holds, or the fault in it.
pub open spec fn decoded(s: Seq<char>) -> Result<Message, MessageFault> {
    match sexp::read_value(s) {
        Ok((v, rest)) => message_of(v),
        Err(e) => Err(MessageFault::SexpError(e)),
    }
}

fn extract_uid(value: &SexpValue) -> (r: Result<u64, MessageError>)
    ensures
        match uid_of(value@) {
            Ok(uid) => r == Ok::<u64, MessageError>(uid),
            Err(e) => r is Err && r->Err_0@ == e,
        },
{
    match value {
        SexpValue::Integer(n) => Ok(*n as u64),
        _ => {
            let mut s = String::from_str("uid must be an integer, got: ");
            show(value, &mut s);
            Err(MessageError::InvalidFormat(s))
        },
    }
}

fn invalid(s: &str) -> (r: MessageError)
    ensures
        r@ == MessageFault::InvalidFormat(s@),
{
    MessageError::InvalidFormat(s.to_string())
}

/// A copy of the values.
fn clone_values(v: &Vec<SexpValue>) -> (r: Vec<SexpValue>)
    ensures
        sexp::models(r@) == sexp::models(v@),
{
    let mut r: Vec<SexpValue> = Vec::new();
    let mut i: usize = 0;
    while i < v.len()
        invariant
            i <= v@.len(),
            r@.len() == i,
            forall|j: int| 0 <= j < i ==> (#[trigger] r@[j])@ == v@[j]@,
        decreases v@.len() - i,
    {
        r.push(v[i].clone());
        i = i + 1;
    }
    assert(sexp::models(r@) =~= sexp::models(v@));
    r
}

fn list_of(items: Vec<SexpValue>) -> (r: SexpValue)
    ensures
        r@ == Sexp::List(sexp::models(items@)),
{
    proof {
        sexp::lemma_list_model(items);
    }
    SexpValue::List(items)
}

impl Clone for EpcMessage {
    fn clone(&self) -> (r: Self)
        ensures
            r@ == self@,
    {
        match self {
            EpcMessage::Call { uid, method, args } => EpcMessage::Call {
                uid: *uid,
                method: method.clone(),
                args: clone_values(args),
            },
            EpcMessage::Return { uid, result } => EpcMessage::Return {
                uid: *uid,
                result: result.clone(),
            },
            EpcMessage::ReturnError { uid, error } => EpcMessage::ReturnError {
                uid: *uid,
                error: error.clone(),
            },
            EpcMessage::EpcError { uid, message } => EpcMessage::EpcError {
                uid: *uid,
                message: message.clone(),
            },
            EpcMessage::Methods { uid } => EpcMessage::Methods { uid: *uid },
        }
    }
}

impl EpcMessage {
    /// Encode this message as an S-expression string.
    pub fn encode(&self) -> (r: String)
        ensures
            r@ == sexp::written(message_sexp(self@)),
    {
        let value = self.to_sexp();
        sexp::serialize(&value)
    }

    /// Convert to SexpValue for serialization.
    pub fn to_sexp(&self) -> (r: SexpValue)
        ensures
            r@ == message_sexp(self@),
    {
        let mut items: Vec<SexpValue> = Vec::new();
        match self {
            EpcMessage::Call { uid, method, args } => {
                items.push(SexpValue::symbol("call"));
                items.push(SexpValue::Integer(*uid as i64));
                items.push(SexpValue::symbol(method.as_str()));
                items.push(list_of(clone_values(args)));
            },
            EpcMessage::Return { uid, result } => {
                items.push(SexpValue::symbol("return"));
                items.push(SexpValue::Integer(*uid as i64));
                items.push(result.clone());
            },
            EpcMessage::ReturnError { uid, error } => {
                items.push(SexpValue::symbol("return-error"));
                items.push(SexpValue::Integer(*uid as i64));
                items.push(error.clone());
            },
            EpcMessage::EpcError { uid, message } => {
                items.push(SexpValue::symbol("epc-error"));
                items.push(SexpValue::Integer(*uid as i64));
                items.push(SexpValue::String(message.clone()));
            },
            EpcMessage::Methods { uid } => {
                items.push(SexpValue::symbol("methods"));
                items.push(SexpValue::Integer(*uid as i64));
            },
        }
        assert(sexp::models(items@) =~= message_sexp(self@)->List_0);
        list_of(items)
    }

    /// Decode a message from an S-expression string.
    pub fn decode(sexp_str: &str) -> (r: Result<Self, MessageError>)
        ensures
            match decoded(sexp_str@) {
                Ok(m) => r is Ok && r->Ok_0@ == m,
                Err(e) => r is Err && r->Err_0@ == e,
            },
    {
        match sexp::parse(sexp_str) {
            Ok(value) => EpcMessage::from_sexp(&value),
            Err(e) => Err(MessageError::SexpError(e)),
        }
    }

    /// Parse from a SexpValue.
    pub fn from_sexp(value: &SexpValue) -> (r: Result<Self, MessageError>)
        ensures
            match message_of(value@) {
                Ok(m) => r is Ok && r->Ok_0@ == m,
                Err(e) => r is Err && r->Err_0@ == e,
            },
    {
        let items = match value {
            SexpValue::List(items) => items,
            _ => return Err(invalid("message must be a list")),
        };
        let ghost all = sexp::models(items@);
        proof {
            sexp::lemma_list_model(*items);
        }
        if items.len() == 0 {
            return Err(invalid("empty message"));
        }
        assert(all[0] == items@[0]@);
        let kind = match &items[0] {
            SexpValue::Symbol(s) => s.as_str(),
            _ => return Err(invalid("first element must be a symbol")),
        };
        if text::str_eq(kind, "call") {
            if items.len() < 4 {
                return Err(invalid("call requires (call uid method args)"));
            }
            assert(all[1] == items@[1]@ && all[2] == items@[2]@ && all[3] == items@[3]@);
            let uid = extract_uid(&items[1])?;
            let method = match &items[2] {
                SexpValue::Symbol(s) => s.clone(),
                SexpValue::String(s) => s.clone(),
                _ => return Err(invalid("method must be a symbol or string")),
            };
            let args = match &items[3] {
                SexpValue::List(args) => {
                    proof {
                        sexp::lemma_list_model(*args);
                    }
                    clone_values(args)
                },
                SexpValue::Nil => Vec::new(),
                other => {
                    let mut one: Vec<SexpValue> = Vec::new();
                    one.push(other.clone());
                    one
                },
            };
            assert(sexp::models(args@) =~= call_args(all[3]));
            Ok(EpcMessage::Call { uid, method, args })
        } else if text::str_eq(kind, "return") {
            if items.len() < 3 {
                return Err(invalid("return requires (return uid result)"));
            }
            assert(all[1] == items@[1]@ && all[2] == items@[2]@);
            let uid = extract_uid(&items[1])?;
            Ok(EpcMessage::Return { uid, result: items[2].clone() })
        } else if text::str_eq(kind, "return-error") {
            if items.len() < 3 {
                return Err(invalid("return-error requires (return-error uid error)"));
            }
            assert(all[1] == items@[1]@ && all[2] == items@[2]@);
            let uid = extract_uid(&items[1])?;
            Ok(EpcMessage::ReturnError { uid, error: items[2].clone() })
        } else if text::str_eq(kind, "epc-error") {
            if items.len() < 3 {
                return Err(invalid("epc-error requires (epc-error uid message)"));
            }
            assert(all[1] == items@[1]@ && all[2] == items@[2]@);
            let uid = extract_uid(&items[1])?;
            let message = match &items[2] {
                SexpValue::String(s) => s.clone(),
                other => sexp::serialize(other),
            };
            Ok(EpcMessage::EpcError { uid, message })
        } else if text::str_eq(kind, "methods") {
            if items.len() < 2 {
                return Err(invalid("methods requires (methods uid)"));
            }
            assert(all[1] == items@[1]@);
            let uid = extract_uid(&items[1])?;
            Ok(EpcMessage::Methods { uid })
        } else {
            Err(MessageError::UnknownType(kind.to_string()))
        }
    }
}

// ---------------------------------------------------------------------------
// Arguments
// ---------------------------------------------------------------------------

/// Transform an S-expression value from Emacs into a JSON-compatible structure:
/// a keyword plist becomes an object, a regular list an array, and so on down.
pub fn epc_arg_transformer(arg: &SexpValue) -> (r: Json)
    ensures
        r@ == convert::json_of(arg@),
{
    arg.to_json()
}

/// An argument of a call that Emacs evaluates.
#[derive(Debug)]
pub enum EvalArg {
    /// A string value
    String(String),
    /// An integer value
    Integer(i64),
    /// A float value, held as its decimal numeral
    Float(String),
    /// A boolean (true becomes t, false nil)
    Bool(bool),
    /// Nil
    Nil,
    /// A symbol
    QuotedSymbol(String),
    /// A list of S-expression values
    List(Vec<SexpValue>),
    /// A raw S-expression value
    Raw(SexpValue),
}

/// The value of an argument, under a quote mark: a string that starts with `'` names a symbol.
pub open spec fn arg_value(arg: EvalArg) -> Sexp {
    Sexp::Quoted(
        Box::new(
            match arg {
                EvalArg::String(s) => if s@.len() > 0 && s@[0] == '\'' {
                    Sexp::Symbol(s@.skip(1))
                } else {
                    Sexp::String(s@)
                },
                EvalArg::Integer(n) => Sexp::Integer(n),
                EvalArg::Float(s) => Sexp::Float(sexp::numeral_of(s@)),
                EvalArg::Bool(b) => if b {
                    Sexp::Bool(true)
                } else {
                    Sexp::Nil
                },
                EvalArg::Nil => Sexp::Nil,
                EvalArg::QuotedSymbol(s) => Sexp::Symbol(s@),
                EvalArg::List(items) => Sexp::List(sexp::models(items@)),
                EvalArg::Raw(v) => v@,
            },
        ),
    )
}

/// The values of arguments.
pub open spec fn arg_values(args: Seq<EvalArg>) -> Seq<Sexp> {
    Seq::new(args.len(), |i: int| arg_value(args[i]))
}

/// The call that Emacs evaluates: the method's name and the arguments.
pub open spec fn eval_call(method: Seq<char>, values: Seq<Sexp>) -> Sexp {
    Sexp::List(seq![Sexp::Symbol(method)] + values)
}

fn handle_arg_types(arg: &EvalArg) -> (r: SexpValue)
    ensures
        r@ == arg_value(*arg),
{
    let inner = match arg {
        EvalArg::String(s) => {
            let chars = text::to_chars(s.as_str());
            if chars.len() > 0 && chars[0] == '\'' {
                let rest = vstd::slice::slice_subrange(chars.as_slice(), 1, chars.len());
                assert(rest@ =~= s@.skip(1));
                SexpValue::Symbol(text::from_chars(rest))
            } else {
                SexpValue::String(s.clone())
            }
        },
        EvalArg::Integer(n) => SexpValue::Integer(*n),
        EvalArg::Float(s) => SexpValue::Float(sexp::held_numeral(s.as_str())),
        EvalArg::Bool(b) => if *b {
            SexpValue::Bool(true)
        } else {
            SexpValue::Nil
        },
        EvalArg::Nil => SexpValue::Nil,
        EvalArg::QuotedSymbol(s) => SexpValue::Symbol(s.clone()),
        EvalArg::List(items) => list_of(clone_values(items)),
        EvalArg::Raw(v) => v.clone(),
    };
    SexpValue::quoted(inner)
}

/// Build the S-expression text of a call that Emacs evaluates.
pub fn build_eval_in_emacs(method_name: &str, args: &[EvalArg]) -> (r: String)
    ensures
        r@ == sexp::written(eval_call(method_name@, arg_values(args@))),
{
    let mut items: Vec<SexpValue> = Vec::new();
    items.push(SexpValue::symbol(method_name));
    let mut i: usize = 0;
    while i < args.len()
        invariant
            i <= args@.len(),
            items@.len() == i + 1,
            items@[0]@ == Sexp::Symbol(method_name@),
            forall|j: int| 0 <= j < i ==> items@[#[trigger] (j + 1)]@ == arg_value(args@[j]),
        decreases args@.len() - i,
    {
        let value = handle_arg_types(&args[i]);
        items.push(value);
        i = i + 1;
    }
    proof {
        let made = sexp::models(items@);
        let wanted = eval_call(method_name@, arg_values(args@))->List_0;
        assert forall|j: int| 0 <= j < made.len() implies made[j] == wanted[j] by {
            if j > 0 {
                assert(items@[(j - 1) + 1]@ == arg_value(args@[j - 1]));
            }
        }
        assert(made =~= wanted);
    }
    let value = list_of(items);
    sexp::serialize(&value)
}

/// Convert an Emacs boolean result: as a boolean, true iff the value is `t`; else as it is.
pub fn convert_emacs_bool(value: &SexpValue, is_boolean: bool) -> (r: Json)
    ensures
        r@ == (if is_boolean {
            Jv::Bool(value@ == Sexp::Bool(true))
        } else {
            convert::json_of(value@)
        }),
{
    if is_boolean {
        match value {
            SexpValue::Bool(b) => Json::Bool(*b),
            _ => Json::Bool(false),
        }
    } else {
        value.to_json()
    }
}

// ---------------------------------------------------------------------------
// Laws
// ---------------------------------------------------------------------------

/// Messages whose text reads back: the method is a symbol's name, the values are readable.
pub open spec fn encodable(m: Message) -> bool {
    match m {
        Message::Call { uid, method, args } => {
            &&& sexp_laws::readable(Sexp::Symbol(method))
            &&& method != seq!['.']
            &&& sexp_laws::readable(Sexp::List(args))
            &&& sexp_laws::no_dot_items(Sexp::List(args))
        },
        Message::Return { uid, result } => sexp_laws::readable(result) && sexp_laws::no_dot_items(
            result,
        ) && result != Sexp::Symbol(seq!['.']),
        Message::ReturnError { uid, error } => sexp_laws::readable(error)
            && sexp_laws::no_dot_items(error) && error != Sexp::Symbol(seq!['.']),
        Message::EpcError { .. } => true,
        Message::Methods { .. } => true,
    }
}

/// What the text of a message says.
pub open spec fn settled(m: Message) -> Message {
    match m {
        Message::Call { uid, method, args } => Message::Call {
            uid,
            method,
            args: sexp_laws::settled_items(args),
        },
        Message::Return { uid, result } => Message::Return {
            uid,
            result: sexp_laws::settled(result),
        },
        Message::ReturnError { uid, error } => Message::ReturnError {
            uid,
            error: sexp_laws::settled(error),
        },
        _ => m,
    }
}

/// A word reads as a symbol: its first character opens no number, keyword or quote.
pub proof fn law_word_is_symbol(s: Seq<char>)
    requires
        s.len() > 0,
        s != "nil"@,
        s != "t"@,
        !text::is_digit(s[0]),
        s[0] != '+' && s[0] != '-' && s[0] != '.' && s[0] != ':' && s[0] != '\'',
        forall|i: int| 0 <= i < s.len() ==> !sexp::is_delimiter(#[trigger] s[i]),
    ensures
        sexp_laws::readable(Sexp::Symbol(s)),
{
    assert(sexp::digit_run(s) == 0);
    assert(s.skip(0) =~= s);
    assert(!sexp::is_decimal(s));
    assert(text::i64_value(s) is None);
}

proof fn lemma_kinds()
    ensures
        sexp_laws::readable(Sexp::Symbol("call"@)),
        sexp_laws::readable(Sexp::Symbol("return"@)),
        sexp_laws::readable(Sexp::Symbol("return-error"@)),
        sexp_laws::readable(Sexp::Symbol("epc-error"@)),
        sexp_laws::readable(Sexp::Symbol("methods"@)),
        "call"@ != seq!['.'],
        "return"@ != seq!['.'],
        "return-error"@ != seq!['.'],
        "epc-error"@ != seq!['.'],
        "methods"@ != seq!['.'],
        "return"@ != "call"@,
        "return-error"@ != "call"@,
        "return-error"@ != "return"@,
        "epc-error"@ != "call"@,
        "epc-error"@ != "return"@,
        "epc-error"@ != "return-error"@,
        "methods"@ != "call"@,
        "methods"@ != "return"@,
        "methods"@ != "return-error"@,
        "methods"@ != "epc-error"@,
{
    reveal_strlit("call");
    reveal_strlit("return");
    reveal_strlit("return-error");
    reveal_strlit("epc-error");
    reveal_strlit("methods");
    reveal_strlit("nil");
    reveal_strlit("t");
    assert("call"@.len() == 4 && "return"@.len() == 6 && "return-error"@.len() == 12
        && "epc-error"@.len() == 9 && "methods"@.len() == 7 && "nil"@.len() == 3 && "t"@.len()
        == 1);
    law_word_is_symbol("call"@);
    law_word_is_symbol("return"@);
    law_word_is_symbol("return-error"@);
    law_word_is_symbol("epc-error"@);
    law_word_is_symbol("methods"@);
}

proof fn lemma_uid(uid: u64)
    ensures
        (uid as i64) as u64 == uid,
{
    assert((uid as i64) as u64 == uid) by (bit_vector);
}

/// An item that reads back inside a list.
spec fn item_reads(v: Sexp) -> bool {
    sexp_laws::readable(v) && sexp_laws::no_dot_items(v) && v != Sexp::Symbol(seq!['.'])
}

proof fn lemma_read_list(items: Seq<Sexp>)
    requires
        forall|i: int| 0 <= i < items.len() ==> item_reads(#[trigger] items[i]),
    ensures
        decoded(sexp::written(Sexp::List(items))) == message_of(
            Sexp::List(sexp_laws::settled_items(items)),
        ),
{
    let v = Sexp::List(items);
    assert forall|i: int| 0 <= i < items.len() implies sexp_laws::readable(#[trigger] items[i])
        && sexp_laws::no_dot_items(items[i]) && items[i] != Sexp::Symbol(seq!['.']) by {
        assert(item_reads(items[i]));
    }
    assert(sexp_laws::readable(v));
    assert(sexp_laws::no_dot_items(v));
    sexp_laws::law_read_written(v, Seq::empty());
    assert(sexp::written(v) + Seq::<char>::empty() =~= sexp::written(v));
    assert(sexp_laws::settled(v)->List_0 =~= sexp_laws::settled_items(items));
}

proof fn lemma_decode_call(uid: u64, method: Seq<char>, args: Seq<Sexp>)
    requires
        encodable(Message::Call { uid, method, args }),
    ensures
        decoded(sexp::written(message_sexp(Message::Call { uid, method, args }))) == Ok::<
            Message,
            MessageFault,
        >(settled(Message::Call { uid, method, args })),
{
    lemma_kinds();
    lemma_uid(uid);
    let items = message_sexp(Message::Call { uid, method, args })->List_0;
    assert(item_reads(items[0]) && item_reads(items[1]) && item_reads(items[2]) && item_reads(
        items[3],
    ));
    lemma_read_list(items);
    let back = sexp_laws::settled_items(items);
    assert(sexp_laws::settled(items[3])->List_0 =~= sexp_laws::settled_items(args));
    assert(back[3] == Sexp::List(sexp_laws::settled_items(args)));
    assert(back[0] == items[0] && back[1] == items[1] && back[2] == items[2]);
}

/// A message of a kind, a uid and one more value.
proof fn lemma_decode_three(m: Message, kind: Seq<char>, uid: u64, last: Sexp)
    requires
        message_sexp(m) == Sexp::List(seq![Sexp::Symbol(kind), uid_number(uid), last]),
        item_reads(Sexp::Symbol(kind)),
        item_reads(last),
    ensures
        decoded(sexp::written(message_sexp(m))) == message_of(
            Sexp::List(seq![Sexp::Symbol(kind), uid_number(uid), sexp_laws::settled(last)]),
        ),
{
    let items = message_sexp(m)->List_0;
    assert(item_reads(items[0]) && item_reads(items[1]) && item_reads(items[2]));
    lemma_read_list(items);
    assert(sexp_laws::settled_items(items) =~= seq![
        Sexp::Symbol(kind),
        uid_number(uid),
        sexp_laws::settled(last),
    ]);
}

/// Decoding the text of a message gives the message back.
pub proof fn law_decode_encode(m: Message)
    requires
        encodable(m),
    ensures
        decoded(sexp::written(message_sexp(m))) == Ok::<Message, MessageFault>(settled(m)),
{
    lemma_kinds();
    match m {
        Message::Call { uid, method, args } => {
            lemma_decode_call(uid, method, args);
        },
        Message::Return { uid, result } => {
            lemma_uid(uid);
            lemma_decode_three(m, "return"@, uid, result);
        },
        Message::ReturnError { uid, error } => {
            lemma_uid(uid);
            lemma_decode_three(m, "return-error"@, uid, error);
        },
        Message::EpcError { uid, message } => {
            lemma_uid(uid);
            lemma_decode_three(m, "epc-error"@, uid, Sexp::String(message));
        },
        Message::Methods { uid } => {
            lemma_uid(uid);
            let items = message_sexp(m)->List_0;
            assert(item_reads(items[0]) && item_reads(items[1]));
            lemma_read_list(items);
            assert(sexp_laws::settled_items(items) =~= items);
        },
    }
}

} // verus!
