//! Completion: textDocument/completion.

use crate::float;
use crate::handlers;
use crate::handlers::{
    Call, EmacsCall, Handler, HandlerError, Request, RequestContext, Response, ResponseContext,
};
use crate::json;
use crate::json::{Jn, Json, JsonNumber, Jv};
use crate::text;
use vstd::prelude::*;

verus! {

/// LSP CompletionTriggerKind: the user asked.
pub const TRIGGER_KIND_INVOKED: u32 = 1;

/// LSP CompletionTriggerKind: a trigger character was typed.
pub const TRIGGER_KIND_TRIGGER_CHARACTER: u32 = 2;

/// LSP CompletionTriggerKind: an incomplete list is asked for again.
pub const TRIGGER_KIND_INCOMPLETE: u32 = 3;

/// What started the completion: a trigger character of the server, or the user.
pub open spec fn trigger_context(trigger_characters: Seq<Seq<char>>, typed: Seq<char>) -> Jv {
    if trigger_characters.contains(typed) {
        handlers::obj(
            seq![
                ("triggerCharacter"@, Jv::Str(typed)),
                ("triggerKind"@, json::int_number(TRIGGER_KIND_TRIGGER_CHARACTER as int)),
            ],
        )
    } else {
        handlers::obj(
            seq![("triggerKind"@, json::int_number(TRIGGER_KIND_INVOKED as int))],
        )
    }
}

/// The items of a response: those of a completion list, or the response itself.
pub open spec fn items_of(response: Jv) -> Seq<Jv> {
    let list = match json::member(response, "items"@) {
        Some(items) => items,
        None => response,
    };
    match list {
        Jv::Array(items) => items,
        _ => Seq::empty(),
    }
}

/// The name of an item's kind in small letters; empty for none.
pub open spec fn kind_of(item: Jv) -> Seq<char> {
    text::lowered(
        handlers::kind_text(
            match json::as_u64(handlers::member_or_null(item, "kind"@)) {
                Some(k) => k,
                None => 0,
            },
        ),
    )
}

/// What stands behind an item: its kind, or its detail.
pub open spec fn annotation_of(item: Jv) -> Seq<char> {
    if kind_of(item).len() > 0 {
        kind_of(item)
    } else {
        handlers::member_text(item, "detail"@)
    }
}

/// Whether a tag of the item says that it is deprecated.
pub open spec fn is_deprecated(item: Jv) -> bool {
    match json::member(item, "tags"@) {
        Some(Jv::Array(tags)) => exists|i: int|
            0 <= i < tags.len() && json::as_u64(#[trigger] tags[i]) == Some(1u64),
        _ => false,
    }
}

/// The numeral of a number.
pub open spec fn numeral(n: Jn) -> Seq<char> {
    match n {
        Jn::PosInt(u) => text::decimal(u as nat),
        Jn::NegInt(i) => text::signed_decimal(i as int),
        Jn::Float(s) => s,
    }
}

/// The score of an item as a float; a thousand where it has none.
pub open spec fn score_of(item: Jv) -> Jv {
    Jv::Number(
        Jn::Float(
            match json::member(item, "score"@) {
                Some(Jv::Number(n)) => match float::number_text(numeral(n)) {
                    Some(t) => t,
                    None => "1000.0"@,
                },
                _ => "1000.0"@,
            },
        ),
    )
}

/// What Emacs gets of a completion item.
pub open spec fn candidate(item: Jv, server: Seq<char>) -> Jv {
    let label = handlers::member_text(item, "label"@);
    let detail = handlers::member_text(item, "detail"@);
    handlers::obj(
        seq![
            ("key"@, Jv::Str(label + "_"@ + detail)),
            ("icon"@, Jv::Str(annotation_of(item))),
            ("label"@, Jv::Str(label)),
            ("displayLabel"@, Jv::Str(label)),
            ("deprecated"@, Jv::Bool(is_deprecated(item))),
            ("insertText"@, handlers::member_or_null(item, "insertText"@)),
            ("insertTextFormat"@, insert_format(item)),
            ("textEdit"@, handlers::member_or_null(item, "textEdit"@)),
            ("score"@, score_of(item)),
            ("sortText"@, Jv::Str(handlers::member_text(item, "sortText"@))),
            ("filterText"@, handlers::member_or_null(item, "filterText"@)),
            ("server"@, Jv::Str(server)),
            ("backend"@, Jv::Str("lsp"@)),
        ],
    )
}

/// The insert text format of an item; an empty string where it has none.
pub open spec fn insert_format(item: Jv) -> Jv {
    match json::member(item, "insertTextFormat"@) {
        Some(f) => f,
        None => Jv::Str(""@),
    }
}

/// What Emacs gets of each item.
pub open spec fn candidates(items: Seq<Jv>, server: Seq<char>) -> Seq<Jv> {
    Seq::new(items.len(), |i: int| candidate(items[i], server))
}

fn is_trigger(trigger_characters: &Vec<String>, typed: &str) -> (r: bool)
    ensures
        r == text::texts(trigger_characters@).contains(typed@),
{
    let ghost all = text::texts(trigger_characters@);
    let mut i: usize = 0;
    while i < trigger_characters.len()
        invariant
            all == text::texts(trigger_characters@),
            i <= trigger_characters@.len(),
            forall|j: int| 0 <= j < i ==> all[j] != typed@,
        decreases trigger_characters@.len() - i,
    {
        if text::str_eq(trigger_characters[i].as_str(), typed) {
            assert(all[i as int] == typed@);
            return true;
        }
        i = i + 1;
    }
    false
}

fn read_kind(item: &Json) -> (r: String)
    ensures
        r@ == kind_of(item@),
{
    let kind: u64 = match item.get("kind") {
        Some(k) => match k.as_u64() {
            Some(n) => n,
            None => 0,
        },
        None => 0,
    };
    text::ascii_lower(handlers::kind_name(kind))
}

fn read_deprecated(item: &Json) -> (r: bool)
    ensures
        r == is_deprecated(item@),
{
    let tags = match item.get("tags") {
        Some(v) => match v.as_array() {
            Some(tags) => tags,
            None => return false,
        },
        None => return false,
    };
    let ghost all = json::models(tags@);
    let mut i: usize = 0;
    while i < tags.len()
        invariant
            all == json::models(tags@),
            json::member(item@, "tags"@) == Some(Jv::Array(all)),
            i <= tags@.len(),
            forall|j: int| 0 <= j < i ==> json::as_u64(#[trigger] all[j]) != Some(1u64),
        decreases tags@.len() - i,
    {
        assert(all[i as int] == tags@[i as int]@);
        match tags[i].as_u64() {
            Some(n) => if n == 1 {
                return true;
            },
            None => {},
        }
        i = i + 1;
    }
    false
}

fn read_score(item: &Json) -> (r: Json)
    ensures
        r@ == score_of(item@),
{
    let score = match item.get("score") {
        Some(Json::Number(n)) => {
            let numeral_text = match n {
                JsonNumber::PosInt(u) => text::decimal_string(*u),
                JsonNumber::NegInt(i) => text::signed_decimal_string(*i),
                JsonNumber::Float(s) => s.clone(),
            };
            float::number(numeral_text.as_str())
        },
        _ => None,
    };
    let numeral_text = match score {
        Some(t) => t,
        None => String::from_str("1000.0"),
    };
    Json::Number(JsonNumber::Float(numeral_text))
}

fn read_insert_format(item: &Json) -> (r: Json)
    ensures
        r@ == insert_format(item@),
{
    match item.get("insertTextFormat") {
        Some(f) => f.clone(),
        None => Json::str(""),
    }
}

fn read_candidate(item: &Json, server: &str) -> (r: Json)
    ensures
        r@ == candidate(item@, server@),
{
    let kind = read_kind(item);
    let label = handlers::get_text(item, "label");
    let detail = handlers::get_text(item, "detail");
    let mut key = text::concat(label.as_str(), "_");
    key.append(detail.as_str());
    let icon = if !kind.as_str().is_empty() {
        kind
    } else {
        detail
    };
    let mut members: Vec<(String, Json)> = Vec::new();
    members.push(json::field("key", Json::String(key)));
    members.push(json::field("icon", Json::String(icon)));
    members.push(json::field("label", Json::str(label.as_str())));
    members.push(json::field("displayLabel", Json::str(label.as_str())));
    members.push(json::field("deprecated", Json::Bool(read_deprecated(item))));
    members.push(json::field("insertText", handlers::get_or_null(item, "insertText")));
    members.push(json::field("insertTextFormat", read_insert_format(item)));
    members.push(json::field("textEdit", handlers::get_or_null(item, "textEdit")));
    members.push(json::field("score", read_score(item)));
    members.push(json::field("sortText", Json::String(handlers::get_text(item, "sortText"))));
    members.push(json::field("filterText", handlers::get_or_null(item, "filterText")));
    members.push(json::field("server", Json::str(server)));
    members.push(json::field("backend", Json::str("lsp")));
    assert(json::entry_models(members@) =~= seq![
        ("key"@, Jv::Str(label@ + "_"@ + handlers::member_text(item@, "detail"@))),
        ("icon"@, Jv::Str(annotation_of(item@))),
        ("label"@, Jv::Str(label@)),
        ("displayLabel"@, Jv::Str(label@)),
        ("deprecated"@, Jv::Bool(is_deprecated(item@))),
        ("insertText"@, handlers::member_or_null(item@, "insertText"@)),
        ("insertTextFormat"@, insert_format(item@)),
        ("textEdit"@, handlers::member_or_null(item@, "textEdit"@)),
        ("score"@, score_of(item@)),
        ("sortText"@, Jv::Str(handlers::member_text(item@, "sortText"@))),
        ("filterText"@, handlers::member_or_null(item@, "filterText"@)),
        ("server"@, Jv::Str(server@)),
        ("backend"@, Jv::Str("lsp"@)),
    ]);
    Json::from_members(members)
}

fn read_candidates(response: &Json, server: &str) -> (r: Json)
    ensures
        r@ == Jv::Array(candidates(items_of(response@), server@)),
{
    let list = match response.get("items") {
        Some(items) => items,
        None => response,
    };
    let mut made: Vec<Json> = Vec::new();
    match list.as_array() {
        Some(items) => {
            let ghost all = json::models(items@);
            let mut i: usize = 0;
            while i < items.len()
                invariant
                    all == json::models(items@),
                    i <= items@.len(),
                    made@.len() == i,
                    forall|j: int|
                        0 <= j < i ==> (#[trigger] made@[j])@ == candidate(all[j], server@),
                decreases items@.len() - i,
            {
                made.push(read_candidate(&items[i], server));
                i = i + 1;
            }
            assert(json::models(made@) =~= candidates(all, server@));
        },
        None => {
            assert(json::models(made@) =~= candidates(Seq::empty(), server@));
        },
    }
    Json::array(made)
}

/// Asks for the completions at a position.
pub struct Completion;

impl Handler for Completion {
    open spec fn name_text(&self) -> Seq<char> {
        "completion"@
    }

    open spec fn method_text(&self) -> Seq<char> {
        "textDocument/completion"@
    }

    open spec fn cancels(&self) -> bool {
        true
    }

    open spec fn sends_uri(&self) -> bool {
        true
    }

    open spec fn request(&self, ctx: Request) -> Result<Jv, HandlerError> {
        Ok(
            handlers::obj(
                seq![
                    ("position"@, handlers::arg_or(ctx.args, 0, Jv::Null)),
                    (
                        "context"@,
                        trigger_context(ctx.trigger_characters, handlers::arg_text(ctx.args, 1)),
                    ),
                ],
            ),
        )
    }

    open spec fn response(&self, ctx: Response, response: Jv) -> Seq<Call> {
        handlers::eval(
            "lsp-bridge-completion--record-items"@,
            seq![
                Jv::Str(ctx.filepath),
                Jv::Str(ctx.host),
                Jv::Array(candidates(items_of(response), ctx.server_name)),
                Jv::Null,
                Jv::Str(ctx.server_name),
                Jv::Array(handlers::strings(ctx.trigger_characters)),
                Jv::Array(handlers::strings(ctx.server_names)),
            ],
        )
    }

    fn name(&self) -> (r: &'static str) {
        "completion"
    }

    fn method(&self) -> (r: &'static str) {
        "textDocument/completion"
    }

    fn cancel_on_change(&self) -> (r: bool) {
        true
    }

    fn send_document_uri(&self) -> (r: bool) {
        true
    }

    /// Args: [position, char, prefix, version]
    fn process_request(&self, ctx: &RequestContext) -> (r: Result<Json, HandlerError>) {
        let typed = handlers::arg_string(&ctx.args, 1);
        let context = if is_trigger(&ctx.trigger_characters, typed.as_str()) {
            handlers::object2(
                "triggerCharacter",
                Json::String(typed),
                "triggerKind",
                Json::unsigned(TRIGGER_KIND_TRIGGER_CHARACTER as u64),
            )
        } else {
            handlers::object1("triggerKind", Json::unsigned(TRIGGER_KIND_INVOKED as u64))
        };
        Ok(handlers::object2("position", handlers::arg(&ctx.args, 0), "context", context))
    }

    fn process_response(&self, ctx: &ResponseContext, response: Json) -> (r: Vec<EmacsCall>) {
        let mut args: Vec<Json> = Vec::new();
        args.push(Json::str(ctx.filepath.as_str()));
        args.push(Json::str(ctx.host.as_str()));
        args.push(read_candidates(&response, ctx.server_name.as_str()));
        args.push(Json::Null);
        args.push(Json::str(ctx.server_name.as_str()));
        args.push(handlers::string_array(&ctx.trigger_characters));
        args.push(handlers::string_array(&ctx.server_names));
        assert(json::models(args@) =~= seq![
            Jv::Str(ctx@.filepath),
            Jv::Str(ctx@.host),
            Jv::Array(candidates(items_of(response@), ctx@.server_name)),
            Jv::Null,
            Jv::Str(ctx@.server_name),
            Jv::Array(handlers::strings(ctx@.trigger_characters)),
            Jv::Array(handlers::strings(ctx@.server_names)),
        ]);
        handlers::call_eval("lsp-bridge-completion--record-items", args)
    }
}

} // verus!
