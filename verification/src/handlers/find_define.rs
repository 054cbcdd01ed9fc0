//! Navigation: textDocument/definition, typeDefinition, implementation, references.

use crate::handlers;
use crate::handlers::{
    Call, EmacsCall, Handler, HandlerError, Request, RequestContext, Response, ResponseContext,
};
use crate::json;
use crate::json::{Jn, Json, Jv};
use crate::uri;
use vstd::prelude::*;

verus! {

/// A place in a file.
pub struct Place {
    pub path: Seq<char>,
    pub line: u64,
    pub character: u64,
}

/// The place where the range of a document starts.
pub open spec fn place_of(uri: Jv, range: Jv) -> Option<Place> {
    let start = handlers::member_or_null(range, "start"@);
    let line = json::as_u64(handlers::member_or_null(start, "line"@));
    let character = json::as_u64(handlers::member_or_null(start, "character"@));
    match (json::as_str(uri), line, character) {
        (Some(u), Some(l), Some(c)) => Some(
            Place { path: uri::path_of(u), line: l, character: c },
        ),
        _ => None,
    }
}

/// The place of a location: `{ uri, range }`.
pub open spec fn location_of(v: Jv) -> Option<Place> {
    place_of(handlers::member_or_null(v, "uri"@), handlers::member_or_null(v, "range"@))
}

/// The place of a location link: `{ targetUri, targetSelectionRange or targetRange }`.
pub open spec fn location_link_of(v: Jv) -> Option<Place> {
    place_of(
        handlers::member_or_null(v, "targetUri"@),
        match json::member(v, "targetSelectionRange"@) {
            Some(range) => range,
            None => handlers::member_or_null(v, "targetRange"@),
        },
    )
}

/// The place that a response names: a location, or the first of several locations or links.
pub open spec fn first_place(response: Jv) -> Option<Place> {
    match response {
        Jv::Object(_) => location_of(response),
        Jv::Array(a) => if a.len() == 0 {
            None
        } else if location_of(a[0]) is Some {
            location_of(a[0])
        } else {
            location_link_of(a[0])
        },
        _ => None,
    }
}

/// Emacs jumps to the place that a response names.
pub open spec fn location_calls(host: Seq<char>, response: Jv, callback: Seq<char>) -> Seq<Call> {
    match first_place(response) {
        Some(p) => handlers::eval(
            callback,
            seq![
                Jv::Str(p.path),
                Jv::Str(host),
                handlers::obj(
                    seq![
                        ("line"@, Jv::Number(Jn::PosInt(p.line))),
                        ("character"@, Jv::Number(Jn::PosInt(p.character))),
                    ],
                ),
            ],
        ),
        None => handlers::message("No definition found."@),
    }
}

/// What Emacs gets of a place that refers to something.
pub open spec fn reference_info(p: Place) -> Jv {
    handlers::obj(
        seq![
            ("filepath"@, Jv::Str(p.path)),
            ("line"@, Jv::Number(Jn::PosInt(p.line))),
            ("character"@, Jv::Number(Jn::PosInt(p.character))),
        ],
    )
}

/// What Emacs gets of the locations among the values, in order.
pub open spec fn reference_infos(a: Seq<Jv>) -> Seq<Jv>
    decreases a.len(),
{
    if a.len() == 0 {
        Seq::empty()
    } else {
        let front = reference_infos(a.drop_last());
        match location_of(a.last()) {
            Some(p) => front.push(reference_info(p)),
            None => front,
        }
    }
}

/// The values of an array; none if it is no array.
pub open spec fn array_items(v: Jv) -> Seq<Jv> {
    match v {
        Jv::Array(a) => a,
        _ => Seq::empty(),
    }
}

fn read_place(uri: &Json, range: &Json) -> (r: Option<(String, u64, u64)>)
    ensures
        match place_of(uri@, range@) {
            Some(p) => r is Some && (r->0).0@ == p.path && (r->0).1 == p.line && (r->0).2 == p.character,
            None => r is None,
        },
{
    let start = handlers::get_or_null(range, "start");
    let line = handlers::get_or_null(&start, "line");
    let character = handlers::get_or_null(&start, "character");
    match (uri.as_str(), line.as_u64(), character.as_u64()) {
        (Some(u), Some(l), Some(c)) => Some((uri::uri_to_path(u), l, c)),
        _ => None,
    }
}

/// Extract filepath, line, column from a Location object.
pub fn extract_location(loc: &Json) -> (r: Option<(String, u64, u64)>)
    ensures
        match location_of(loc@) {
            Some(p) => r is Some && (r->0).0@ == p.path && (r->0).1 == p.line && (r->0).2 == p.character,
            None => r is None,
        },
{
    let uri = handlers::get_or_null(loc, "uri");
    let range = handlers::get_or_null(loc, "range");
    read_place(&uri, &range)
}

/// Extract filepath, line, column from a LocationLink object.
pub fn extract_location_link(link: &Json) -> (r: Option<(String, u64, u64)>)
    ensures
        match location_link_of(link@) {
            Some(p) => r is Some && (r->0).0@ == p.path && (r->0).1 == p.line && (r->0).2 == p.character,
            None => r is None,
        },
{
    let uri = handlers::get_or_null(link, "targetUri");
    let range = match link.get("targetSelectionRange") {
        Some(range) => range.clone(),
        None => handlers::get_or_null(link, "targetRange"),
    };
    read_place(&uri, &range)
}

fn read_first_place(response: &Json) -> (r: Option<(String, u64, u64)>)
    ensures
        match first_place(response@) {
            Some(p) => r is Some && (r->0).0@ == p.path && (r->0).1 == p.line && (r->0).2 == p.character,
            None => r is None,
        },
{
    match response {
        Json::Object(_) => extract_location(response),
        Json::Array(a) => {
            proof {
                json::lemma_array_model(*a);
            }
            if a.len() == 0 {
                return None;
            }
            match extract_location(&a[0]) {
                Some(place) => Some(place),
                None => extract_location_link(&a[0]),
            }
        },
        _ => None,
    }
}

/// Handle a definition/typeDefinition/implementation response: a location, an array of locations
/// or location links, or null.
fn handle_location_response(ctx: &ResponseContext, response: &Json, callback: &str) -> (r: Vec<
    EmacsCall,
>)
    ensures
        handlers::calls(r@) == location_calls(ctx@.host, response@, callback@),
{
    match read_first_place(response) {
        Some((path, line, character)) => {
            let position = handlers::object2(
                "line",
                Json::unsigned(line),
                "character",
                Json::unsigned(character),
            );
            handlers::call_eval(
                callback,
                handlers::args3(Json::String(path), Json::str(ctx.host.as_str()), position),
            )
        },
        None => handlers::call_message("No definition found."),
    }
}

fn read_reference_infos(response: &Json) -> (r: Vec<Json>)
    ensures
        json::models(r@) == reference_infos(array_items(response@)),
{
    let mut made: Vec<Json> = Vec::new();
    assert(json::models(made@) =~= Seq::<Jv>::empty());
    let locations = match response.as_array() {
        Some(a) => a,
        None => return made,
    };
    let ghost all = json::models(locations@);
    let mut i: usize = 0;
    assert(all.take(0) =~= Seq::<Jv>::empty());
    while i < locations.len()
        invariant
            all == json::models(locations@),
            i <= locations@.len(),
            json::models(made@) == reference_infos(all.take(i as int)),
        decreases locations@.len() - i,
    {
        let ghost before = json::models(made@);
        assert(all.take(i + 1).drop_last() =~= all.take(i as int));
        assert(all.take(i + 1).last() == locations@[i as int]@);
        match extract_location(&locations[i]) {
            Some((path, line, character)) => {
                let ghost p = Place { path: path@, line, character };
                let mut members: Vec<(String, Json)> = Vec::new();
                members.push(json::field("filepath", Json::String(path)));
                members.push(json::field("line", Json::unsigned(line)));
                members.push(json::field("character", Json::unsigned(character)));
                assert(json::entry_models(members@) =~= seq![
                    ("filepath"@, Jv::Str(p.path)),
                    ("line"@, Jv::Number(Jn::PosInt(p.line))),
                    ("character"@, Jv::Number(Jn::PosInt(p.character))),
                ]);
                made.push(Json::from_members(members));
                assert(json::models(made@) =~= before.push(reference_info(p)));
            },
            None => {},
        }
        i = i + 1;
    }
    assert(all.take(i as int) =~= all);
    made
}

/// Jumps to the definition of what stands at a position.
pub struct FindDefine;

impl Handler for FindDefine {
    open spec fn name_text(&self) -> Seq<char> {
        "find_define"@
    }

    open spec fn method_text(&self) -> Seq<char> {
        "textDocument/definition"@
    }

    open spec fn cancels(&self) -> bool {
        true
    }

    open spec fn sends_uri(&self) -> bool {
        true
    }

    open spec fn request(&self, ctx: Request) -> Result<Jv, HandlerError> {
        Ok(handlers::at_position(ctx.args))
    }

    open spec fn response(&self, ctx: Response, response: Jv) -> Seq<Call> {
        location_calls(ctx.host, response, "lsp-bridge-define--jump"@)
    }

    fn name(&self) -> (r: &'static str) {
        "find_define"
    }

    fn method(&self) -> (r: &'static str) {
        "textDocument/definition"
    }

    fn cancel_on_change(&self) -> (r: bool) {
        true
    }

    fn send_document_uri(&self) -> (r: bool) {
        true
    }

    /// Args: [position]
    fn process_request(&self, ctx: &RequestContext) -> (r: Result<Json, HandlerError>) {
        Ok(handlers::position_params(&ctx.args))
    }

    fn process_response(&self, ctx: &ResponseContext, response: Json) -> (r: Vec<EmacsCall>) {
        handle_location_response(ctx, &response, "lsp-bridge-define--jump")
    }
}

/// Jumps to the definition of the type of what stands at a position.
pub struct FindTypeDefine;

impl Handler for FindTypeDefine {
    open spec fn name_text(&self) -> Seq<char> {
        "find_type_define"@
    }

    open spec fn method_text(&self) -> Seq<char> {
        "textDocument/typeDefinition"@
    }

    open spec fn cancels(&self) -> bool {
        true
    }

    open spec fn sends_uri(&self) -> bool {
        true
    }

    open spec fn request(&self, ctx: Request) -> Result<Jv, HandlerError> {
        Ok(handlers::at_position(ctx.args))
    }

    open spec fn response(&self, ctx: Response, response: Jv) -> Seq<Call> {
        location_calls(ctx.host, response, "lsp-bridge-define--jump"@)
    }

    fn name(&self) -> (r: &'static str) {
        "find_type_define"
    }

    fn method(&self) -> (r: &'static str) {
        "textDocument/typeDefinition"
    }

    fn cancel_on_change(&self) -> (r: bool) {
        true
    }

    fn send_document_uri(&self) -> (r: bool) {
        true
    }

    /// Args: [position]
    fn process_request(&self, ctx: &RequestContext) -> (r: Result<Json, HandlerError>) {
        Ok(handlers::position_params(&ctx.args))
    }

    fn process_response(&self, ctx: &ResponseContext, response: Json) -> (r: Vec<EmacsCall>) {
        handle_location_response(ctx, &response, "lsp-bridge-define--jump")
    }
}

/// Jumps to the implementation of what stands at a position.
pub struct FindImplementation;

impl Handler for FindImplementation {
    open spec fn name_text(&self) -> Seq<char> {
        "find_implementation"@
    }

    open spec fn method_text(&self) -> Seq<char> {
        "textDocument/implementation"@
    }

    open spec fn cancels(&self) -> bool {
        true
    }

    open spec fn sends_uri(&self) -> bool {
        true
    }

    open spec fn request(&self, ctx: Request) -> Result<Jv, HandlerError> {
        Ok(handlers::at_position(ctx.args))
    }

    open spec fn response(&self, ctx: Response, response: Jv) -> Seq<Call> {
        location_calls(ctx.host, response, "lsp-bridge-define--jump"@)
    }

    fn name(&self) -> (r: &'static str) {
        "find_implementation"
    }

    fn method(&self) -> (r: &'static str) {
        "textDocument/implementation"
    }

    fn cancel_on_change(&self) -> (r: bool) {
        true
    }

    fn send_document_uri(&self) -> (r: bool) {
        true
    }

    /// Args: [position]
    fn process_request(&self, ctx: &RequestContext) -> (r: Result<Json, HandlerError>) {
        Ok(handlers::position_params(&ctx.args))
    }

    fn process_response(&self, ctx: &ResponseContext, response: Json) -> (r: Vec<EmacsCall>) {
        handle_location_response(ctx, &response, "lsp-bridge-define--jump")
    }
}

/// Lists the references to what stands at a position.
pub struct FindReferences;

impl Handler for FindReferences {
    open spec fn name_text(&self) -> Seq<char> {
        "find_references"@
    }

    open spec fn method_text(&self) -> Seq<char> {
        "textDocument/references"@
    }

    open spec fn cancels(&self) -> bool {
        true
    }

    open spec fn sends_uri(&self) -> bool {
        true
    }

    open spec fn request(&self, ctx: Request) -> Result<Jv, HandlerError> {
        let declared = handlers::obj(seq![("includeDeclaration"@, Jv::Bool(true))]);
        Ok(
            handlers::obj(
                seq![
                    ("position"@, handlers::arg_or(ctx.args, 0, Jv::Null)),
                    ("context"@, declared),
                ],
            ),
        )
    }

    open spec fn response(&self, ctx: Response, response: Jv) -> Seq<Call> {
        let infos = reference_infos(array_items(response));
        if infos.len() == 0 {
            handlers::message("No references found."@)
        } else {
            handlers::eval("lsp-bridge-references--popup"@, seq![Jv::Array(infos)])
        }
    }

    fn name(&self) -> (r: &'static str) {
        "find_references"
    }

    fn method(&self) -> (r: &'static str) {
        "textDocument/references"
    }

    fn cancel_on_change(&self) -> (r: bool) {
        true
    }

    fn send_document_uri(&self) -> (r: bool) {
        true
    }

    /// Args: [position]; the declaration counts as a reference.
    fn process_request(&self, ctx: &RequestContext) -> (r: Result<Json, HandlerError>) {
        let declared = handlers::object1("includeDeclaration", Json::Bool(true));
        Ok(handlers::object2("position", handlers::arg(&ctx.args, 0), "context", declared))
    }

    fn process_response(&self, _ctx: &ResponseContext, response: Json) -> (r: Vec<EmacsCall>) {
        let infos = read_reference_infos(&response);
        let ghost made = json::models(infos@);
        if infos.len() == 0 {
            handlers::call_message("No references found.")
        } else {
            assert(made.len() > 0);
            handlers::call_eval(
                "lsp-bridge-references--popup",
                handlers::args1(Json::array(infos)),
            )
        }
    }
}

} // verus!
