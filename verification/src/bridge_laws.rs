//! What the bridge owes: the extension of a path, the root of a project, which server a file gets,
//! and where each call of Emacs goes.

use crate::bridge;
use crate::bridge::{Asked, Bridge, Dispatched, OpenFile, Opening, Routed, Running};
use crate::config;
use crate::config::Server;
use crate::convert;
use crate::handlers;
use crate::handlers::registry::BuiltinHandler;
use crate::handlers::Handler;
use crate::json::Jv;
use crate::sexp::Sexp;
use crate::uri;
use vstd::prelude::*;

verus! {

// ---------------------------------------------------------------------------
// Paths
// ---------------------------------------------------------------------------

/// The name of a file is what stands behind the last slash of its path.
proof fn lemma_name(dir: Seq<char>, name: Seq<char>)
    requires
        dir.len() == 0 || dir.last() == '/',
        name.len() > 0,
        !name.contains('/'),
        name.last() != '.',
    ensures
        bridge::last_part(bridge::without_tail(dir + name)) == name,
{
    let path = dir + name;
    assert(path.last() == name.last());
    assert(name[name.len() - 1] != '/') by {
        if name[name.len() - 1] == '/' {
            assert(name.contains('/'));
        }
    }
    assert(bridge::without_tail(path) == path);
    assert forall|j: int| dir.len() <= j < path.len() implies path[j] != '/' by {
        assert(path[j] == name[j - dir.len()]);
    }
    bridge::lemma_last_part(path, dir.len() as int);
    assert(path.skip(dir.len() as int) =~= name);
}

/// The extension of a file is what stands behind the last dot of its name, whatever directory the
/// file is in.
pub proof fn law_extension(dir: Seq<char>, stem: Seq<char>, extension: Seq<char>)
    requires
        dir.len() == 0 || dir.last() == '/',
        stem.len() > 0,
        !stem.contains('/'),
        extension.len() > 0,
        !extension.contains('/'),
        !extension.contains('.'),
    ensures
        bridge::extension_of(dir + stem + seq!['.'] + extension) == extension,
{
    let name = stem + seq!['.'] + extension;
    assert(dir + stem + seq!['.'] + extension =~= dir + name);
    assert(name.last() == extension.last());
    assert(extension.contains(extension.last())) by {
        assert(extension[extension.len() - 1] == extension.last());
    }
    assert(!name.contains('/')) by {
        if name.contains('/') {
            let i = choose|i: int| 0 <= i < name.len() && name[i] == '/';
            if i < stem.len() {
                assert(stem[i] == '/');
            } else if i > stem.len() {
                assert(extension[i - stem.len() - 1] == '/');
            }
        }
    }
    lemma_name(dir, name);
    name.index_of_last_ensures('.');
    assert(name[stem.len() as int] == '.');
    assert(name.contains('.'));
    let k = name.index_of_last('.')->0;
    if k > stem.len() {
        assert(name[k] == extension[k - stem.len() - 1]);
    }
    assert(name.skip(k + 1) =~= extension);
}

/// A file whose name has no dot, or only one at its start, has no extension.
pub proof fn law_no_extension(dir: Seq<char>, name: Seq<char>)
    requires
        dir.len() == 0 || dir.last() == '/',
        name.len() > 0,
        !name.contains('/'),
        name.last() != '.',
        !name.skip(1).contains('.'),
    ensures
        bridge::extension_of(dir + name).len() == 0,
{
    lemma_name(dir, name);
    name.index_of_last_ensures('.');
    if name.contains('.') {
        let k = name.index_of_last('.')->0;
        if k > 0 {
            assert(name.skip(1)[k - 1] == '.');
        }
    }
}

/// An entry of a directory stands behind the directory and exactly one slash.
pub proof fn law_entry_path(dir: Seq<char>, name: Seq<char>)
    ensures
        bridge::entry_path(dir + seq!['/'], name) == dir + seq!['/'] + name,
        dir.len() > 0 && dir.last() != '/' ==> bridge::entry_path(dir, name) == dir + seq!['/']
            + name,
        bridge::entry_path(Seq::empty(), name) == name,
{
    assert((dir + seq!['/']).last() == '/');
    assert(Seq::<char>::empty() + name =~= name);
}

/// The names that mark the root of a project.
pub open spec fn project_markers() -> Seq<Seq<char>> {
    seq![
        ".git"@,
        "Cargo.toml"@,
        "package.json"@,
        "pyproject.toml"@,
        "setup.py"@,
        "go.mod"@,
        "CMakeLists.txt"@,
        ".project"@,
        "pom.xml"@,
        "build.gradle"@,
    ]
}

/// Exactly these names mark the root of a project.
pub proof fn law_project_markers(name: Seq<char>)
    ensures
        bridge::is_marker(name) <==> project_markers().contains(name),
{
    let all = bridge::PROJECT_MARKERS;
    let named = project_markers();
    assert(named.len() == 10);
    assert forall|i: int| 0 <= i < 10 implies #[trigger] all[i]@ == named[i] by {}
    if bridge::is_marker(name) {
        let i = choose|i: int| 0 <= i < 10 && #[trigger] bridge::PROJECT_MARKERS[i]@ == name;
        assert(named[i] == name);
    }
    if named.contains(name) {
        let i = choose|i: int| 0 <= i < named.len() && named[i] == name;
        assert(bridge::PROJECT_MARKERS[i]@ == name);
    }
}

// ---------------------------------------------------------------------------
// Files and servers
// ---------------------------------------------------------------------------

/// A file uses its one server, or else all of its several.
pub proof fn law_servers_of_file(file: OpenFile, several: Seq<Running>)
    ensures
        file.single_server is Some ==> bridge::servers_of(file) == seq![file.single_server->0],
        file.single_server is None && file.multi_servers == Some(several) ==> bridge::servers_of(
            file,
        ) == several,
        file.single_server is None && file.multi_servers is None ==> bridge::servers_of(file).len()
            == 0,
{
}

/// Every server has its name among the names of the servers, at the same position.
pub proof fn law_server_names(v: Seq<Running>, i: int)
    requires
        0 <= i < v.len(),
    ensures
        bridge::server_names(v).len() == v.len(),
        bridge::server_names(v)[i] == v[i].name,
{
}

/// An open file is left as it is, and a file without a configuration for its language gets no
/// server.
pub proof fn law_no_server_to_start(
    b: Bridge,
    filepath: Seq<char>,
    project: Seq<char>,
    configs: Seq<(Seq<char>, Server)>,
)
    ensures
        b.files.contains_key(filepath) <==> bridge::opening(b, filepath, project, configs)
            is AlreadyOpen,
        !b.files.contains_key(filepath) && (forall|j: int|
            0 <= j < configs.len() ==> (#[trigger] configs[j]).1.language_id != config::language_of(
                bridge::extension_of(filepath),
            )) ==> bridge::opening(b, filepath, project, configs) is NoServer,
{
    crate::config_laws::law_server_found(
        configs,
        config::language_of(bridge::extension_of(filepath)),
        0,
    );
}

/// A file gets the server of the first configuration for its language: the one that runs for the
/// project, or else a new one, under the name and the project.
pub proof fn law_server_for_file(
    b: Bridge,
    filepath: Seq<char>,
    project: Seq<char>,
    configs: Seq<(Seq<char>, Server)>,
    i: int,
)
    requires
        !b.files.contains_key(filepath),
        0 <= i < configs.len(),
        configs[i].1.language_id == config::language_of(bridge::extension_of(filepath)),
        forall|j: int|
            0 <= j < i ==> (#[trigger] configs[j]).1.language_id != config::language_of(
                bridge::extension_of(filepath),
            ),
    ensures
        ({
            let config = configs[i].1;
            let key = config.name + "#"@ + project;
            &&& b.servers.contains_key(key) ==> bridge::opening(b, filepath, project, configs) == (
            Opening::Reuse { server: b.servers[key], config })
            &&& !b.servers.contains_key(key) ==> bridge::opening(b, filepath, project, configs) == (
            Opening::Spawn { server: Running { key, name: config.name }, config })
        }),
{
    crate::config_laws::law_server_found(
        configs,
        config::language_of(bridge::extension_of(filepath)),
        i,
    );
}

/// A file that was opened starts at version zero, without changes, with its server and the
/// server's configuration; the server is in the pool under its key, and no other is touched.
pub proof fn law_file_opened(
    b: Bridge,
    filepath: Seq<char>,
    server: Running,
    config: Server,
    other: Seq<char>,
)
    ensures
        ({
            let after = bridge::opened(b, filepath, server, config);
            let file = after.files[filepath];
            &&& file.filepath == filepath
            &&& file.version == 0
            &&& file.file_time == 0
            &&& file.cursor_time == 0
            &&& file.single_server == Some(server)
            &&& file.single_server_info == Some(config)
            &&& file.multi_servers is None
            &&& file.multi_servers_info is None
            &&& file.handler_states == Map::<
                (Seq<char>, Seq<char>),
                handlers::HandlerState,
            >::empty()
            &&& after.servers.get(server.key) == Some(server)
            &&& other != server.key ==> after.servers.get(other) == b.servers.get(other)
            &&& after.handlers == b.handlers
            &&& after.langserver_dir == b.langserver_dir
            &&& after.multiserver_dir == b.multiserver_dir
        }),
        ({
            let after = bridge::closed_file(b, filepath);
            &&& after.servers == b.servers
            &&& after.handlers == b.handlers
            &&& after.langserver_dir == b.langserver_dir
            &&& after.multiserver_dir == b.multiserver_dir
        }),
{
}

// ---------------------------------------------------------------------------
// Calls of Emacs
// ---------------------------------------------------------------------------

/// A call about an open file goes to every server of the file, through the handler of that name,
/// with the arguments behind the path.
pub proof fn law_call_sent(
    b: Bridge,
    method: Seq<char>,
    path: Seq<char>,
    rest: Seq<Sexp>,
    tried: bool,
    i: int,
)
    requires
        path.len() > 0,
        b.files.contains_key(path),
        bridge::servers_of(b.files[path]).len() > 0,
        0 <= i < b.handlers.len(),
        b.handlers[i].name_text() == method,
        forall|j: int| 0 <= j < i ==> (#[trigger] b.handlers[j]).name_text() != method,
    ensures
        bridge::dispatching(b, method, seq![Sexp::String(path)] + rest, tried) == (
        Dispatched::Send {
            filepath: path,
            handler: b.handlers[i],
            servers: bridge::servers_of(b.files[path]),
            args: Seq::new(rest.len(), |k: int| convert::json_of(rest[k])),
        }),
{
    handlers::laws::law_handler_found(b.handlers, method, i);
    let args = seq![Sexp::String(path)] + rest;
    let values = convert::jsons_of(args);
    assert(values[0] == convert::json_of(Sexp::String(path)));
    assert(values.skip(1) =~= Seq::new(rest.len(), |k: int| convert::json_of(rest[k]))) by {
        assert forall|k: int| 0 <= k < rest.len() implies values.skip(1)[k] == convert::json_of(
            rest[k],
        ) by {
            assert(args[k + 1] == rest[k]);
        }
    }
}

/// A call about a file that is not open has it opened first, once.
pub proof fn law_call_opens_file(b: Bridge, method: Seq<char>, path: Seq<char>, rest: Seq<Sexp>)
    requires
        path.len() > 0,
        !b.files.contains_key(path),
    ensures
        bridge::dispatching(b, method, seq![Sexp::String(path)] + rest, false) == (
        Dispatched::OpenFirst(path)),
        bridge::dispatching(b, method, seq![Sexp::String(path)] + rest, true) is Ignore,
{
    let args = seq![Sexp::String(path)] + rest;
    assert(convert::jsons_of(args)[0] == convert::json_of(Sexp::String(path)));
}

/// A call that names no file, one of a method without a handler, and one about a file without a
/// server lead to nothing.
pub proof fn law_call_ignored(b: Bridge, method: Seq<char>, args: Seq<Sexp>, tried: bool)
    requires
        ({
            ||| args.len() == 0
            ||| args[0] is Nil || args[0] is Integer || args[0] == Sexp::String(Seq::empty())
            ||| args[0] is String && b.files.contains_key(args[0]->String_0) && (
            bridge::servers_of(b.files[args[0]->String_0]).len() == 0 || forall|j: int|
                0 <= j < b.handlers.len() ==> (#[trigger] b.handlers[j]).name_text() != method)
        }),
    ensures
        bridge::dispatching(b, method, args, tried) is Ignore,
{
    reveal_strlit("");
    handlers::laws::law_handler_found(b.handlers, method, 0);
    let values = convert::jsons_of(args);
    if args.len() > 0 {
        assert(values[0] == convert::json_of(args[0]));
    }
}

/// The parameters of a handler that names no document, and parameters that are no object, stay as
/// they are.
pub proof fn law_params_kept(handler: BuiltinHandler, params: Jv, path: Seq<char>)
    ensures
        !handler.sends_uri() || !(params is Object) ==> bridge::about_document(
            handler,
            params,
            path,
        ) == params,
{
}

/// The document is named by the URI of its path.
pub proof fn law_document_named(handler: BuiltinHandler, params: Jv, path: Seq<char>)
    requires
        handler.sends_uri(),
        params is Object,
        crate::json::ascending(params->Object_0),
    ensures
        handlers::made_of(
            handlers::laws::under(bridge::about_document(handler, params, path), "textDocument"@),
            seq![("uri"@, Jv::Str(uri::uri_of(path)))],
        ),
{
    bridge::law_params_name_document(handler, params->Object_0, path, "textDocument"@);
    handlers::lemma_made_of_one("uri"@, Jv::Str(uri::uri_of(path)));
}

/// The methods that are answered with nothing.
pub open spec fn silent_methods() -> Seq<Seq<char>> {
    seq![
        "search_file_words_index_files"@,
        "search_file_words_change_buffer"@,
        "search_file_words_load_file"@,
        "search_file_words_close_file"@,
        "search_file_words_search"@,
        "search_sdcv_words_search"@,
        "search_list_search"@,
        "search_list_update"@,
        "search_paths_search"@,
        "close_all_files"@,
        "rename_file"@,
        "fetch_completion_item_info"@,
        "tabnine_complete"@,
        "copilot_complete"@,
        "copilot_login"@,
        "copilot_logout"@,
        "copilot_status"@,
        "copilot_completion_accept"@,
        "codeium_complete"@,
        "codeium_completion_accept"@,
        "codeium_auth"@,
        "codeium_get_api_key"@,
        "ctags_complete"@,
        "ctags_find_def"@,
        "cleanup"@,
        "profile_dump"@,
    ]
}

/// Exactly these methods lead to nothing.
pub proof fn law_silent_methods(name: Seq<char>)
    ensures
        bridge::is_silent_method(name) <==> silent_methods().contains(name),
{
    let all = bridge::SILENT_METHODS;
    let named = silent_methods();
    assert(named.len() == 26);
    assert forall|i: int| 0 <= i < 26 implies #[trigger] all[i]@ == named[i] by {}
    if bridge::is_silent_method(name) {
        let i = choose|i: int| 0 <= i < 26 && #[trigger] bridge::SILENT_METHODS[i]@ == name;
        assert(named[i] == name);
    }
    if named.contains(name) {
        let i = choose|i: int| 0 <= i < named.len() && named[i] == name;
        assert(bridge::SILENT_METHODS[i]@ == name);
    }
}

/// The methods on a file besides the handlers.
pub open spec fn file_methods() -> Seq<Seq<char>> {
    seq![
        "change_file"@,
        "update_file"@,
        "save_file"@,
        "try_completion"@,
        "try_formatting"@,
        "change_cursor"@,
        "list_diagnostics"@,
        "try_code_action"@,
        "workspace_symbol"@,
    ]
}

/// Exactly these methods work on a file besides the handlers.
pub proof fn law_file_methods(name: Seq<char>)
    ensures
        (exists|i: int| 0 <= i < 9 && #[trigger] bridge::FILE_METHODS[i]@ == name) <==> file_methods().contains(name),
{
    let all = bridge::FILE_METHODS;
    let named = file_methods();
    assert(named.len() == 9);
    assert forall|i: int| 0 <= i < 9 implies #[trigger] all[i]@ == named[i] by {}
    if (exists|i: int| 0 <= i < 9 && #[trigger] bridge::FILE_METHODS[i]@ == name) {
        let i = choose|i: int| 0 <= i < 9 && #[trigger] bridge::FILE_METHODS[i]@ == name;
        assert(named[i] == name);
    }
    if named.contains(name) {
        let i = choose|i: int| 0 <= i < named.len() && named[i] == name;
        assert(bridge::FILE_METHODS[i]@ == name);
    }
}

/// A method that is not silent goes to the queue where it opens or closes a file, is the name of a
/// handler, or is one of the further methods on a file; Emacs has names of its own for completion
/// and code actions. Any other method is unknown.
pub proof fn law_routes(all: Seq<BuiltinHandler>, method: Seq<char>)
    ensures
        ({
            let to = bridge::routed(all, method);
            let of_handler = exists|i: int|
                0 <= i < all.len() && (#[trigger] all[i]).name_text() == method;
            let known = method == "open_file"@ || method == "close_file"@ || of_handler
                || file_methods().contains(method);
            &&& silent_methods().contains(method) ==> to is Silent
            &&& !silent_methods().contains(method) && known ==> to is Queue
            &&& !silent_methods().contains(method) && !known ==> to is Unknown
            &&& to is Queue && method != "try_completion"@ && method != "try_code_action"@
                ==> to == Routed::Queue(method)
            &&& to is Queue && method == "try_completion"@ ==> to == Routed::Queue("completion"@)
            &&& to is Queue && method == "try_code_action"@ ==> to == Routed::Queue("code_action"@)
        }),
{
    reveal_strlit("try_completion");
    reveal_strlit("try_code_action");
    reveal_strlit("open_file");
    reveal_strlit("close_file");
    assert("try_completion"@.len() == 14 && "try_code_action"@.len() == 15 && "open_file"@.len()
        == 9 && "close_file"@.len() == 10);
    law_silent_methods(method);
    law_file_methods(method);
}

/// An event of opening or closing is about the file that its first argument names; every other
/// event is dispatched as it is.
pub proof fn law_events(method: Seq<char>, path: Seq<char>, rest: Seq<Sexp>)
    ensures
        bridge::asked("open_file"@, seq![Sexp::String(path)] + rest) == Asked::Open(path),
        bridge::asked("close_file"@, seq![Sexp::String(path)] + rest) == Asked::Close(path),
        method != "open_file"@ && method != "close_file"@ ==> bridge::asked(method, rest) == (
        Asked::Dispatch { method, args: rest }),
{
    reveal_strlit("open_file");
    reveal_strlit("close_file");
    assert("open_file"@.len() != "close_file"@.len());
}

/// The root of a project is the first directory that holds one of the marks.
pub proof fn law_first_root(dirs: Seq<(Seq<char>, Seq<Seq<char>>)>, i: int, j: int)
    requires
        bridge::first_root(dirs, i),
    ensures
        0 <= i < dirs.len(),
        exists|k: int|
            0 <= k < dirs[i].1.len() && project_markers().contains(#[trigger] dirs[i].1[k]),
        0 <= j < i ==> forall|k: int|
            0 <= k < dirs[j].1.len() ==> !project_markers().contains(#[trigger] dirs[j].1[k]),
{
    let k = choose|k: int| 0 <= k < dirs[i].1.len() && bridge::is_marker(#[trigger] dirs[i].1[k]);
    law_project_markers(dirs[i].1[k]);
    if 0 <= j < i {
        assert(!bridge::is_root(dirs[j].1));
        assert forall|k: int| 0 <= k < dirs[j].1.len() implies !project_markers().contains(
            #[trigger] dirs[j].1[k],
        ) by {
            law_project_markers(dirs[j].1[k]);
        }
    }
}

/// A directory that holds one of the marks, and before which none does, is the root.
pub proof fn law_root_found(dirs: Seq<(Seq<char>, Seq<Seq<char>>)>, i: int, k: int)
    requires
        0 <= i < dirs.len(),
        0 <= k < dirs[i].1.len(),
        project_markers().contains(dirs[i].1[k]),
        forall|j: int, l: int|
            0 <= j < i && 0 <= l < dirs[j].1.len() ==> !project_markers().contains(
                #[trigger] dirs[j].1[l],
            ),
    ensures
        bridge::first_root(dirs, i),
{
    law_project_markers(dirs[i].1[k]);
    assert(bridge::is_marker(dirs[i].1[k]));
    assert forall|j: int| 0 <= j < i implies !bridge::is_root((#[trigger] dirs[j]).1) by {
        if bridge::is_root(dirs[j].1) {
            let l = choose|l: int|
                0 <= l < dirs[j].1.len() && bridge::is_marker(#[trigger] dirs[j].1[l]);
            law_project_markers(dirs[j].1[l]);
        }
    }
}

/// A slash at the end of a path, and a dot behind it, change nothing about its extension.
pub proof fn law_tail_ignored(path: Seq<char>)
    ensures
        bridge::extension_of(path + seq!['/']) == bridge::extension_of(path),
        bridge::extension_of(path + seq!['/', '.']) == bridge::extension_of(path),
{
    let once = path + seq!['/'];
    let twice = path + seq!['/', '.'];
    assert(once.take(once.len() - 1) =~= path);
    assert(once[once.len() - 1] == '/');
    assert(twice.take(twice.len() - 1) =~= once);
    assert(twice[twice.len() - 1] == '.' && twice[twice.len() - 2] == '/');
    assert(bridge::without_tail(once) == bridge::without_tail(path));
    assert(bridge::without_tail(twice) == bridge::without_tail(once));
}

} // verus!
