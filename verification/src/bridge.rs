//! The bridge: which files are open, which servers they use, and where calls of Emacs go.

use crate::concurrent;
use crate::config;
use crate::config::{MultiServer, MultiServerConfig, Server, ServerConfig};
use crate::convert;
use crate::epc;
use crate::epc::EpcConnection;
use crate::handlers;
use crate::handlers::registry;
use crate::handlers::registry::{BuiltinHandler, Registry};
use crate::handlers::{
    EmacsCall, Handler, HandlerError, HandlerState, RequestContext, Response, ResponseContext,
};
use crate::json;
use crate::json::{Json, Jv};
use crate::sexp;
use crate::sexp::{Sexp, SexpValue};
use crate::table::Table;
use crate::text;
use crate::uri;
use dashmap::DashMap;
use std::sync::Arc;
use vstd::prelude::*;

verus! {

// ---------------------------------------------------------------------------
// Paths
// ---------------------------------------------------------------------------

/// The path without slashes, and dots that stand for the same directory, at its end.
pub open spec fn without_tail(path: Seq<char>) -> Seq<char>
    decreases path.len(),
{
    let n = path.len() as int;
    if n >= 1 && path[n - 1] == '/' {
        without_tail(path.take(n - 1))
    } else if n >= 2 && path[n - 1] == '.' && path[n - 2] == '/' {
        without_tail(path.take(n - 1))
    } else {
        path
    }
}

/// What stands behind the last slash.
pub open spec fn last_part(path: Seq<char>) -> Seq<char>
    decreases path.len(),
{
    if path.len() == 0 || path.last() == '/' {
        Seq::empty()
    } else {
        last_part(path.drop_last()).push(path.last())
    }
}

/// What stands behind the last dot, if a character stands before that dot.
pub open spec fn dot_part(name: Seq<char>) -> Seq<char> {
    match name.index_of_last('.') {
        Some(dot) => if dot > 0 {
            name.skip(dot + 1)
        } else {
            Seq::empty()
        },
        None => Seq::empty(),
    }
}

/// The extension of a file; empty if it has none.
pub open spec fn extension_of(path: Seq<char>) -> Seq<char> {
    dot_part(last_part(without_tail(path)))
}

fn tail_start(chars: &[char]) -> (r: usize)
    ensures
        r <= chars@.len(),
        chars@.take(r as int) == without_tail(chars@),
{
    let mut n: usize = chars.len();
    assert(chars@.take(n as int) =~= chars@);
    while n >= 1 && (chars[n - 1] == '/' || (n >= 2 && chars[n - 1] == '.' && chars[n - 2] == '/'))
        invariant
            n <= chars@.len(),
            without_tail(chars@.take(n as int)) == without_tail(chars@),
        decreases n,
    {
        let ghost before = chars@.take(n as int);
        assert(before.take(n - 1) =~= chars@.take(n - 1));
        assert(before[n - 1] == chars@[n - 1]);
        n = n - 1;
    }
    assert(chars@.take(n as int).len() == n);
    n
}

pub proof fn lemma_last_part(path: Seq<char>, i: int)
    requires
        0 <= i <= path.len(),
        i > 0 ==> path[i - 1] == '/',
        forall|j: int| i <= j < path.len() ==> path[j] != '/',
    ensures
        last_part(path) == path.skip(i),
    decreases path.len(),
{
    if path.len() > i {
        let rest = path.drop_last();
        lemma_last_part(rest, i);
        assert(rest.skip(i).push(path.last()) =~= path.skip(i));
    } else {
        assert(path.skip(i) =~= Seq::<char>::empty());
    }
}

/// The extension of a file; empty if it has none.
pub fn extension(path: &str) -> (r: String)
    ensures
        r@ == extension_of(path@),
{
    let all = text::to_chars(path);
    let n: usize = tail_start(all.as_slice());
    let chars = vstd::slice::slice_subrange(all.as_slice(), 0, n);
    let ghost path = chars@;
    assert(path =~= without_tail(all@));
    let mut i: usize = n;
    while i > 0 && chars[i - 1] != '/'
        invariant
            chars@ == path,
            i <= n == path.len(),
            forall|j: int| i <= j < n ==> path[j] != '/',
        decreases i,
    {
        i = i - 1;
    }
    proof {
        lemma_last_part(path, i as int);
    }
    let ghost name = path.skip(i as int);
    let mut d: usize = n;
    while d > i && chars[d - 1] != '.'
        invariant
            chars@ == path,
            i <= d <= n == path.len(),
            forall|j: int| d <= j < n ==> path[j] != '.',
        decreases d,
    {
        d = d - 1;
    }
    proof {
        name.index_of_last_ensures('.');
        if d > i {
            assert(name[d - 1 - i] == '.');
            assert(name.contains('.'));
            let k = name.index_of_last('.')->0;
            assert(name[k] == path[k + i]);
            assert(k == d - 1 - i);
        } else {
            assert forall|j: int| 0 <= j < name.len() implies name[j] != '.' by {
                assert(name[j] == path[j + i]);
            }
        }
    }
    if d - i > 1 {
        let tail = vstd::slice::slice_subrange(chars, d, n);
        assert(tail@ =~= name.skip(d - i));
        text::from_chars(tail)
    } else {
        let r = String::from_str("");
        proof {
            reveal_strlit("");
        }
        assert(r@ =~= Seq::<char>::empty());
        r
    }
}

/// The entry of a directory.
pub open spec fn entry_path(dir: Seq<char>, name: Seq<char>) -> Seq<char> {
    if dir.len() == 0 || dir.last() == '/' {
        dir + name
    } else {
        dir + seq!['/'] + name
    }
}

/// The path of an entry of a directory.
pub fn join_path(dir: &str, name: &str) -> (r: String)
    ensures
        r@ == entry_path(dir@, name@),
{
    let chars = text::to_chars(dir);
    let mut r = dir.to_string();
    if chars.len() > 0 && chars[chars.len() - 1] != '/' {
        r.push('/');
        assert(r@ =~= dir@ + seq!['/']);
    }
    r.append(name);
    r
}

// ---------------------------------------------------------------------------
// Project roots
// ---------------------------------------------------------------------------

/// Files and directories whose presence marks the root of a project.
pub const PROJECT_MARKERS: [&'static str; 10] = [
    ".git",
    "Cargo.toml",
    "package.json",
    "pyproject.toml",
    "setup.py",
    "go.mod",
    "CMakeLists.txt",
    ".project",
    "pom.xml",
    "build.gradle",
];

/// A directory and the names of what it holds.
#[derive(Debug)]
pub struct Directory {
    pub path: String,
    pub entries: Vec<String>,
}

impl View for Directory {
    type V = (Seq<char>, Seq<Seq<char>>);

    open spec fn view(&self) -> (Seq<char>, Seq<Seq<char>>) {
        (self.path@, text::texts(self.entries@))
    }
}

/// The directories by their views.
pub open spec fn directories(v: Seq<Directory>) -> Seq<(Seq<char>, Seq<Seq<char>>)> {
    Seq::new(v.len(), |i: int| v[i]@)
}

/// Whether a name marks the root of a project.
pub open spec fn is_marker(name: Seq<char>) -> bool {
    exists|i: int| 0 <= i < 10 && #[trigger] PROJECT_MARKERS[i]@ == name
}

/// Whether one of the names marks the root of a project.
pub open spec fn is_root(entries: Seq<Seq<char>>) -> bool {
    exists|i: int| 0 <= i < entries.len() && is_marker(#[trigger] entries[i])
}

/// Whether the directory at a position is the first that is a root.
pub open spec fn first_root(dirs: Seq<(Seq<char>, Seq<Seq<char>>)>, i: int) -> bool {
    &&& 0 <= i < dirs.len()
    &&& is_root(dirs[i].1)
    &&& forall|j: int| 0 <= j < i ==> !is_root((#[trigger] dirs[j]).1)
}

fn check_marker(name: &str) -> (r: bool)
    ensures
        r == is_marker(name@),
{
    let mut i: usize = 0;
    while i < 10
        invariant
            i <= 10,
            forall|j: int| 0 <= j < i ==> #[trigger] PROJECT_MARKERS[j]@ != name@,
        decreases 10 - i,
    {
        if text::str_eq(PROJECT_MARKERS[i], name) {
            return true;
        }
        i = i + 1;
    }
    false
}

fn check_root(entries: &Vec<String>) -> (r: bool)
    ensures
        r == is_root(text::texts(entries@)),
{
    let ghost all = text::texts(entries@);
    let mut i: usize = 0;
    while i < entries.len()
        invariant
            all == text::texts(entries@),
            i <= entries@.len(),
            forall|j: int| 0 <= j < i ==> !is_marker(#[trigger] all[j]),
        decreases entries@.len() - i,
    {
        if check_marker(entries[i].as_str()) {
            assert(is_marker(all[i as int]));
            return true;
        }
        i = i + 1;
    }
    false
}

/// Find the project root for a file: of the directory of the file and those above it, in this
/// order, the first that holds a marker, else the first of all.
pub fn find_project_path(dirs: &Vec<Directory>) -> (r: String)
    requires
        dirs@.len() > 0,
    ensures
        ({
            let all = directories(dirs@);
            ||| exists|i: int| #[trigger] first_root(all, i) && r@ == all[i].0
            ||| r@ == all[0].0 && forall|i: int|
                0 <= i < all.len() ==> !is_root((#[trigger] all[i]).1)
        }),
{
    let ghost all = directories(dirs@);
    let mut i: usize = 0;
    while i < dirs.len()
        invariant
            all == directories(dirs@),
            i <= dirs@.len(),
            forall|j: int| 0 <= j < i ==> !is_root((#[trigger] all[j]).1),
        decreases dirs@.len() - i,
    {
        assert(all[i as int] == dirs@[i as int]@);
        if check_root(&dirs[i].entries) {
            assert(first_root(all, i as int));
            return dirs[i].path.clone();
        }
        i = i + 1;
    }
    assert(all[0] == dirs@[0]@);
    dirs[0].path.clone()
}

// ---------------------------------------------------------------------------
// Open files
// ---------------------------------------------------------------------------

/// A running server: its key in the pool of servers, and its name.
#[derive(Debug, PartialEq, Eq)]
pub struct ServerRef {
    pub key: String,
    pub name: String,
}

/// The mathematical value of a [`ServerRef`].
pub struct Running {
    pub key: Seq<char>,
    pub name: Seq<char>,
}

impl View for ServerRef {
    type V = Running;

    open spec fn view(&self) -> Running {
        Running { key: self.key@, name: self.name@ }
    }
}

impl Clone for ServerRef {
    fn clone(&self) -> (r: Self)
        ensures
            r@ == self@,
    {
        ServerRef { key: self.key.clone(), name: self.name.clone() }
    }
}

/// The servers by their views.
pub open spec fn running(v: Seq<ServerRef>) -> Seq<Running> {
    Seq::new(v.len(), |i: int| v[i]@)
}

/// File action: a single open file and its LSP server(s).
#[derive(Debug)]
pub struct FileAction {
    pub filepath: String,
    pub version: u64,
    pub last_change_file_time: u64,
    pub last_change_cursor_time: u64,
    /// Single-server mode
    pub single_server: Option<ServerRef>,
    pub single_server_info: Option<ServerConfig>,
    /// Multi-server mode
    pub multi_servers: Option<Vec<ServerRef>>,
    pub multi_servers_info: Option<MultiServerConfig>,
    /// Per-(server, handler) state for staleness tracking
    pub handler_states: DashMap<(String, String), HandlerState>,
}

/// The mathematical value of a [`FileAction`].
pub struct OpenFile {
    pub filepath: Seq<char>,
    pub version: u64,
    pub file_time: u64,
    pub cursor_time: u64,
    pub single_server: Option<Running>,
    pub single_server_info: Option<Server>,
    pub multi_servers: Option<Seq<Running>>,
    pub multi_servers_info: Option<MultiServer>,
    pub handler_states: Map<(Seq<char>, Seq<char>), HandlerState>,
}

impl View for FileAction {
    type V = OpenFile;

    open spec fn view(&self) -> OpenFile {
        OpenFile {
            filepath: self.filepath@,
            version: self.version,
            file_time: self.last_change_file_time,
            cursor_time: self.last_change_cursor_time,
            single_server: match self.single_server {
                Some(s) => Some(s@),
                None => None,
            },
            single_server_info: match self.single_server_info {
                Some(c) => Some(c@),
                None => None,
            },
            multi_servers: match self.multi_servers {
                Some(v) => Some(running(v@)),
                None => None,
            },
            multi_servers_info: match self.multi_servers_info {
                Some(c) => Some(c@),
                None => None,
            },
            handler_states: concurrent::states(self.handler_states),
        }
    }
}

/// A file that was just opened and has no server yet.
pub open spec fn fresh_file(filepath: Seq<char>) -> OpenFile {
    OpenFile {
        filepath,
        version: 0,
        file_time: 0,
        cursor_time: 0,
        single_server: None,
        single_server_info: None,
        multi_servers: None,
        multi_servers_info: None,
        handler_states: Map::empty(),
    }
}

/// The servers of a file.
pub open spec fn servers_of(file: OpenFile) -> Seq<Running> {
    match file.single_server {
        Some(s) => seq![s],
        None => match file.multi_servers {
            Some(v) => v,
            None => Seq::empty(),
        },
    }
}

/// The names of the servers.
pub open spec fn server_names(v: Seq<Running>) -> Seq<Seq<char>> {
    Seq::new(v.len(), |i: int| v[i].name)
}

impl FileAction {
    pub fn new(filepath: String) -> (r: Self)
        ensures
            r@ == fresh_file(filepath@),
    {
        FileAction {
            filepath,
            version: 0,
            last_change_file_time: 0,
            last_change_cursor_time: 0,
            single_server: None,
            single_server_info: None,
            multi_servers: None,
            multi_servers_info: None,
            handler_states: concurrent::no_states(),
        }
    }

    /// Get the LSP servers for this file.
    pub fn get_lsp_servers(&self) -> (r: Vec<ServerRef>)
        ensures
            running(r@) == servers_of(self@),
    {
        let mut r: Vec<ServerRef> = Vec::new();
        match &self.single_server {
            Some(s) => {
                r.push(s.clone());
            },
            None => match &self.multi_servers {
                Some(v) => {
                    let mut i: usize = 0;
                    while i < v.len()
                        invariant
                            i <= v@.len(),
                            r@.len() == i,
                            forall|j: int| 0 <= j < i ==> (#[trigger] r@[j])@ == v@[j]@,
                        decreases v@.len() - i,
                    {
                        r.push(v[i].clone());
                        i = i + 1;
                    }
                },
                None => {},
            },
        }
        assert(running(r@) =~= servers_of(self@));
        r
    }

    /// Get server names.
    pub fn get_server_names(&self) -> (r: Vec<String>)
        ensures
            text::texts(r@) == server_names(servers_of(self@)),
    {
        let servers = self.get_lsp_servers();
        let ghost all = running(servers@);
        let mut r: Vec<String> = Vec::new();
        let mut i: usize = 0;
        while i < servers.len()
            invariant
                all == running(servers@),
                i <= servers@.len(),
                r@.len() == i,
                forall|j: int| 0 <= j < i ==> (#[trigger] r@[j])@ == all[j].name,
            decreases servers@.len() - i,
        {
            r.push(servers[i].name.clone());
            i = i + 1;
        }
        assert(text::texts(r@) =~= server_names(all));
        r
    }
}

// ---------------------------------------------------------------------------
// The bridge's state
// ---------------------------------------------------------------------------

/// The state of the bridge.
pub struct LspBridge {
    /// Open file actions, keyed by filepath.
    pub file_actions: DashMap<String, Arc<FileAction>>,
    /// LSP server pool, keyed by "server_name#project_path".
    pub lsp_servers: DashMap<String, Arc<ServerRef>>,
    /// Handler registry.
    pub handlers: Registry,
    /// Server config directory paths.
    pub langserver_dir: String,
    pub multiserver_dir: String,
}

/// The mathematical value of an [`LspBridge`].
#[verifier::ext_equal]
pub struct Bridge {
    pub files: Map<Seq<char>, OpenFile>,
    pub servers: Map<Seq<char>, Running>,
    pub handlers: Seq<BuiltinHandler>,
    pub langserver_dir: Seq<char>,
    pub multiserver_dir: Seq<char>,
}

impl View for LspBridge {
    type V = Bridge;

    open spec fn view(&self) -> Bridge {
        Bridge {
            files: concurrent::files(self.file_actions),
            servers: concurrent::servers(self.lsp_servers),
            handlers: self.handlers@,
            langserver_dir: self.langserver_dir@,
            multiserver_dir: self.multiserver_dir@,
        }
    }
}

/// The key of a server in the pool.
pub open spec fn server_key(name: Seq<char>, project_path: Seq<char>) -> Seq<char> {
    name + "#"@ + project_path
}

/// What opening a file takes.
#[derive(Debug, PartialEq, Eq)]
pub enum OpenPlan {
    /// The file is open.
    AlreadyOpen,
    /// No server is configured for the file.
    NoServer,
    /// The file uses a server that runs.
    Reuse { server: ServerRef, config: ServerConfig },
    /// A server has to be started and initialized for the file.
    Spawn { server: ServerRef, config: ServerConfig },
}

/// The mathematical value of an [`OpenPlan`].
pub enum Opening {
    AlreadyOpen,
    NoServer,
    Reuse { server: Running, config: Server },
    Spawn { server: Running, config: Server },
}

impl View for OpenPlan {
    type V = Opening;

    open spec fn view(&self) -> Opening {
        match *self {
            OpenPlan::AlreadyOpen => Opening::AlreadyOpen,
            OpenPlan::NoServer => Opening::NoServer,
            OpenPlan::Reuse { server, config } => Opening::Reuse {
                server: server@,
                config: config@,
            },
            OpenPlan::Spawn { server, config } => Opening::Spawn {
                server: server@,
                config: config@,
            },
        }
    }
}

/// What opening a file of a project takes.
pub open spec fn opening(
    b: Bridge,
    filepath: Seq<char>,
    project_path: Seq<char>,
    configs: Seq<(Seq<char>, Server)>,
) -> Opening {
    if b.files.contains_key(filepath) {
        Opening::AlreadyOpen
    } else {
        match config::server_for(configs, config::language_of(extension_of(filepath))) {
            None => Opening::NoServer,
            Some(config) => {
                let key = server_key(config.name, project_path);
                match b.servers.get(key) {
                    Some(server) => Opening::Reuse { server, config },
                    None => Opening::Spawn {
                        server: Running { key, name: config.name },
                        config,
                    },
                }
            },
        }
    }
}

/// The bridge once a file is open with a server.
pub open spec fn opened(b: Bridge, filepath: Seq<char>, server: Running, config: Server) -> Bridge {
    Bridge {
        files: b.files.insert(
            filepath,
            OpenFile {
                single_server: Some(server),
                single_server_info: Some(config),
                ..fresh_file(filepath)
            },
        ),
        servers: b.servers.insert(server.key, server),
        ..b
    }
}

/// The bridge once a file is closed.
pub open spec fn closed_file(b: Bridge, filepath: Seq<char>) -> Bridge {
    Bridge { files: b.files.remove(filepath), ..b }
}

impl LspBridge {
    pub fn new(base_dir: &str) -> (r: Self)
        ensures
            r@ == (Bridge {
                files: Map::empty(),
                servers: Map::empty(),
                handlers: registry::all_handlers(),
                langserver_dir: entry_path(base_dir@, "langserver"@),
                multiserver_dir: entry_path(base_dir@, "multiserver"@),
            }),
            bridge_inv(r@),
    {
        LspBridge {
            file_actions: concurrent::no_files(),
            lsp_servers: concurrent::no_servers(),
            handlers: registry::build_registry(),
            langserver_dir: join_path(base_dir, "langserver"),
            multiserver_dir: join_path(base_dir, "multiserver"),
        }
    }

    /// Plan to open a file: find its server, or the one to start.
    pub fn open_file(
        &self,
        filepath: &str,
        project_path: &str,
        configs: &Table<ServerConfig>,
    ) -> (r: OpenPlan)
        ensures
            r@ == opening(self@, filepath@, project_path@, configs@),
    {
        if concurrent::contains_file(&self.file_actions, filepath) {
            return OpenPlan::AlreadyOpen;
        }
        let ext = extension(filepath);
        match config::find_server_config(configs, ext.as_str()) {
            None => OpenPlan::NoServer,
            Some(config) => {
                let mut key = text::concat(config.name.as_str(), "#");
                key.append(project_path);
                match concurrent::get_server(&self.lsp_servers, key.as_str()) {
                    Some(server) => OpenPlan::Reuse {
                        server: (*server).clone(),
                        config: config.clone(),
                    },
                    None => OpenPlan::Spawn {
                        server: ServerRef { key, name: config.name.clone() },
                        config: config.clone(),
                    },
                }
            },
        }
    }

    /// Record that a file is open with a server.
    pub fn file_opened(&mut self, filepath: &str, server: ServerRef, config: ServerConfig)
        ensures
            final(self)@ == opened(old(self)@, filepath@, server@, config@),
    {
        let pooled = server.clone();
        let key = server.key.clone();
        concurrent::insert_server(&mut self.lsp_servers, key, Arc::new(pooled));
        let mut file_action = FileAction::new(filepath.to_string());
        file_action.single_server = Some(server);
        file_action.single_server_info = Some(config);
        concurrent::insert_file(
            &mut self.file_actions,
            filepath.to_string(),
            Arc::new(file_action),
        );
    }

    /// Close a file: the servers that are to be told of it.
    pub fn close_file(&mut self, filepath: &str) -> (r: Vec<ServerRef>)
        ensures
            final(self)@ == closed_file(old(self)@, filepath@),
            running(r@) == (match old(self)@.files.get(filepath@) {
                Some(file) => servers_of(file),
                None => Seq::empty(),
            }),
    {
        match concurrent::remove_file(&mut self.file_actions, filepath) {
            Some(file_action) => file_action.get_lsp_servers(),
            None => {
                let r: Vec<ServerRef> = Vec::new();
                assert(running(r@) =~= Seq::<Running>::empty());
                r
            },
        }
    }
}

/// Whether each open file stands under its path and uses a server of the pool, and each server of
/// the pool stands under its key.
pub open spec fn bridge_inv(b: Bridge) -> bool {
    &&& forall|path: Seq<char>| #[trigger]
        b.files.contains_key(path) ==> b.files[path].filepath == path && (
        b.files[path].single_server matches Some(server) && b.servers.contains_key(server.key))
    &&& forall|key: Seq<char>| #[trigger]
        b.servers.contains_key(key) ==> b.servers[key].key == key
}

/// Opening and closing files keep the bridge sound.
pub proof fn law_bridge_kept(b: Bridge, filepath: Seq<char>, server: Running, config: Server)
    requires
        bridge_inv(b),
    ensures
        bridge_inv(opened(b, filepath, server, config)),
        bridge_inv(closed_file(b, filepath)),
{
}

/// A file that was opened is open until it is closed; other files stay as they are.
pub proof fn law_open_until_closed(
    b: Bridge,
    filepath: Seq<char>,
    server: Running,
    config: Server,
    other: Seq<char>,
)
    ensures
        opened(b, filepath, server, config).files.contains_key(filepath),
        !closed_file(b, filepath).files.contains_key(filepath),
        other != filepath ==> opened(b, filepath, server, config).files.get(other)
            == b.files.get(other),
        other != filepath ==> closed_file(b, filepath).files.get(other)
            == b.files.get(other),
{
}

/// A server is started once: while it runs, opening another file of the project that needs the
/// same configuration reuses it.
pub proof fn law_server_started_once(
    b: Bridge,
    filepath: Seq<char>,
    other: Seq<char>,
    project_path: Seq<char>,
    configs: Seq<(Seq<char>, Server)>,
    server: Running,
    config: Server,
)
    requires
        opening(b, filepath, project_path, configs) == (Opening::Spawn { server, config }),
        other != filepath,
        !b.files.contains_key(other),
        config::language_of(extension_of(other)) == config::language_of(extension_of(filepath)),
    ensures
        opening(opened(b, filepath, server, config), other, project_path, configs) == (
        Opening::Reuse { server, config }),
{
}

// ---------------------------------------------------------------------------
// Dispatching calls to handlers
// ---------------------------------------------------------------------------

/// What a call of Emacs takes.
#[derive(Debug)]
pub enum Dispatch {
    /// Nothing.
    Ignore,
    /// The file has to be opened first.
    OpenFirst(String),
    /// A request of the handler to each of the servers.
    Send {
        filepath: String,
        handler: BuiltinHandler,
        servers: Vec<ServerRef>,
        args: Vec<Json>,
    },
}

/// The mathematical value of a [`Dispatch`].
pub enum Dispatched {
    Ignore,
    OpenFirst(Seq<char>),
    Send {
        filepath: Seq<char>,
        handler: BuiltinHandler,
        servers: Seq<Running>,
        args: Seq<Jv>,
    },
}

impl View for Dispatch {
    type V = Dispatched;

    open spec fn view(&self) -> Dispatched {
        match *self {
            Dispatch::Ignore => Dispatched::Ignore,
            Dispatch::OpenFirst(path) => Dispatched::OpenFirst(path@),
            Dispatch::Send { filepath, handler, servers, args } => Dispatched::Send {
                filepath: filepath@,
                handler,
                servers: running(servers@),
                args: json::models(args@),
            },
        }
    }
}

/// What a call of Emacs takes: its first argument names the file. `tried` says that opening the
/// file has been tried.
pub open spec fn dispatching(b: Bridge, method: Seq<char>, args: Seq<Sexp>, tried: bool) -> Dispatched {
    let values = convert::jsons_of(args);
    let filepath = handlers::arg_text(values, 0);
    if filepath.len() == 0 {
        Dispatched::Ignore
    } else {
        match b.files.get(filepath) {
            None => if tried {
                Dispatched::Ignore
            } else {
                Dispatched::OpenFirst(filepath)
            },
            Some(file) => match registry::handler_named(b.handlers, method) {
                Some(handler) => if servers_of(file).len() == 0 {
                    Dispatched::Ignore
                } else {
                    Dispatched::Send {
                        filepath,
                        handler,
                        servers: servers_of(file),
                        args: values.skip(1),
                    }
                },
                None => Dispatched::Ignore,
            },
        }
    }
}

fn args_to_json(args: &Vec<SexpValue>, start: usize) -> (r: Vec<Json>)
    requires
        start <= args@.len(),
    ensures
        json::models(r@) == convert::jsons_of(sexp::models(args@)).skip(start as int),
{
    let ghost all = convert::jsons_of(sexp::models(args@));
    let mut r: Vec<Json> = Vec::new();
    let mut i: usize = start;
    while i < args.len()
        invariant
            all == convert::jsons_of(sexp::models(args@)),
            start <= i <= args@.len(),
            r@.len() == i - start,
            forall|j: int| 0 <= j < r@.len() ==> (#[trigger] r@[j])@ == all[j + start],
        decreases args@.len() - i,
    {
        r.push(args[i].to_json());
        i = i + 1;
    }
    assert(json::models(r@) =~= all.skip(start as int));
    r
}

impl LspBridge {
    /// What a call of Emacs takes, whether or not opening its file was tried before.
    pub fn dispatch(&self, method: &str, args: &Vec<SexpValue>, tried: bool) -> (r: Dispatch)
        ensures
            r@ == dispatching(self@, method@, sexp::models(args@), tried),
    {
        let ghost all = convert::jsons_of(sexp::models(args@));
        let values = args_to_json(args, 0);
        assert(all.skip(0) =~= all);
        let filepath = handlers::arg_string(&values, 0);
        let chars = text::to_chars(filepath.as_str());
        if chars.len() == 0 {
            return Dispatch::Ignore;
        }
        proof {
            reveal_strlit("");
        }
        match concurrent::get_file(&self.file_actions, filepath.as_str()) {
            None => if tried {
                Dispatch::Ignore
            } else {
                Dispatch::OpenFirst(filepath)
            },
            Some(file_action) => match self.handlers.get(method) {
                Some(handler) => {
                    let servers = file_action.get_lsp_servers();
                    if servers.len() == 0 {
                        Dispatch::Ignore
                    } else {
                        let rest = args_to_json(args, 1);
                        Dispatch::Send { filepath, handler, servers, args: rest }
                    }
                },
                None => Dispatch::Ignore,
            },
        }
    }
}

/// The parameters with the document that they are about.
pub open spec fn about_document(handler: BuiltinHandler, params: Jv, path: Seq<char>) -> Jv {
    match params {
        Jv::Object(es) => if handler.sends_uri() {
            Jv::Object(
                json::insert(
                    es,
                    "textDocument"@,
                    handlers::obj(seq![("uri"@, Jv::Str(uri::uri_of(path)))]),
                ),
            )
        } else {
            params
        },
        _ => params,
    }
}

/// The parameters of a handler's request about the file at an absolute path.
pub fn request_params(handler: &BuiltinHandler, ctx: &RequestContext, path: &str) -> (r: Result<
    Json,
    HandlerError,
>)
    ensures
        match handler.request(ctx@) {
            Ok(v) => r is Ok && r->Ok_0@ == about_document(*handler, v, path@),
            Err(e) => r == Err::<Json, HandlerError>(e),
        },
{
    let params = match handler.process_request(ctx) {
        Ok(v) => v,
        Err(e) => return Err(e),
    };
    if handler.send_document_uri() {
        match params {
            Json::Object(mut map) => {
                proof {
                    json::lemma_object_model(map);
                }
                let document = handlers::object1("uri", Json::str(uri::path_to_uri(path).as_str()));
                map.insert("textDocument", document);
                Ok(Json::object(map))
            },
            other => Ok(other),
        }
    } else {
        Ok(params)
    }
}

/// The parameters of a handler that sends the document's URI name the document, and otherwise
/// are as the handler built them.
pub proof fn law_params_name_document(
    handler: BuiltinHandler,
    es: Seq<(Seq<char>, Jv)>,
    path: Seq<char>,
    key: Seq<char>,
)
    requires
        handler.sends_uri(),
        json::ascending(es),
    ensures
        json::member(about_document(handler, Jv::Object(es), path), key) == (if key
            == "textDocument"@ {
            Some(handlers::obj(seq![("uri"@, Jv::Str(uri::uri_of(path)))]))
        } else {
            json::lookup(es, key)
        }),
{
    json::law_lookup_insert(
        es,
        "textDocument"@,
        handlers::obj(seq![("uri"@, Jv::Str(uri::uri_of(path)))]),
        key,
    );
}

/// What Emacs is asked to do once a server has answered a handler's request.
pub fn response_calls(
    handler: &BuiltinHandler,
    filepath: &str,
    server: &ServerRef,
    trigger_characters: &Vec<String>,
    server_names: &Vec<String>,
    response: Json,
) -> (r: Vec<EmacsCall>)
    ensures
        handlers::calls(r@) == handler.response(
            Response {
                filepath: filepath@,
                host: ""@,
                server_name: server@.name,
                trigger_characters: text::texts(trigger_characters@),
                server_names: text::texts(server_names@),
            },
            response@,
        ),
{
    let ctx = ResponseContext {
        filepath: filepath.to_string(),
        host: String::from_str(""),
        server_name: server.name.clone(),
        trigger_characters: text::clone_strings(trigger_characters),
        server_names: text::clone_strings(server_names),
    };
    handler.process_response(&ctx, response)
}

// ---------------------------------------------------------------------------
// The methods that Emacs can call
// ---------------------------------------------------------------------------

/// Methods on a file besides the handlers.
pub const FILE_METHODS: [&'static str; 9] = [
    "change_file",
    "update_file",
    "save_file",
    "try_completion",
    "try_formatting",
    "change_cursor",
    "list_diagnostics",
    "try_code_action",
    "workspace_symbol",
];

/// Methods that are answered with nothing.
pub const SILENT_METHODS: [&'static str; 26] = [
    "search_file_words_index_files",
    "search_file_words_change_buffer",
    "search_file_words_load_file",
    "search_file_words_close_file",
    "search_file_words_search",
    "search_sdcv_words_search",
    "search_list_search",
    "search_list_update",
    "search_paths_search",
    "close_all_files",
    "rename_file",
    "fetch_completion_item_info",
    "tabnine_complete",
    "copilot_complete",
    "copilot_login",
    "copilot_logout",
    "copilot_status",
    "copilot_completion_accept",
    "codeium_complete",
    "codeium_completion_accept",
    "codeium_auth",
    "codeium_get_api_key",
    "ctags_complete",
    "ctags_find_def",
    "cleanup",
    "profile_dump",
];

/// What a method leads to. Every call is answered with nothing at once.
#[derive(Debug, PartialEq, Eq)]
pub enum Route {
    /// An event with this method goes to the queue of events.
    Queue(String),
    /// Nothing more.
    Silent,
    /// There is no such method.
    Unknown,
}

/// The mathematical value of a [`Route`].
pub enum Routed {
    Queue(Seq<char>),
    Silent,
    Unknown,
}

impl View for Route {
    type V = Routed;

    open spec fn view(&self) -> Routed {
        match *self {
            Route::Queue(s) => Routed::Queue(s@),
            Route::Silent => Routed::Silent,
            Route::Unknown => Routed::Unknown,
        }
    }
}

/// Whether a method works on a file: the name of a handler, or one of the others.
pub open spec fn is_file_method(handlers: Seq<BuiltinHandler>, method: Seq<char>) -> bool {
    ||| exists|i: int| 0 <= i < handlers.len() && (#[trigger] handlers[i]).name_text() == method
    ||| exists|i: int| 0 <= i < 9 && #[trigger] FILE_METHODS[i]@ == method
}

/// Whether a method is answered with nothing and leads to nothing.
pub open spec fn is_silent_method(method: Seq<char>) -> bool {
    exists|i: int| 0 <= i < 26 && #[trigger] SILENT_METHODS[i]@ == method
}

/// The handler that a method goes to: Emacs has names of its own for two of them.
pub open spec fn handler_name_of(method: Seq<char>) -> Seq<char> {
    if method == "try_completion"@ {
        "completion"@
    } else if method == "try_code_action"@ {
        "code_action"@
    } else {
        method
    }
}

/// What a method leads to.
pub open spec fn routed(handlers: Seq<BuiltinHandler>, method: Seq<char>) -> Routed {
    if is_silent_method(method) {
        Routed::Silent
    } else if method == "open_file"@ || method == "close_file"@ {
        Routed::Queue(method)
    } else if is_file_method(handlers, method) {
        Routed::Queue(handler_name_of(method))
    } else {
        Routed::Unknown
    }
}

fn check_file_method(method: &str) -> (r: bool)
    ensures
        r == exists|i: int| 0 <= i < 9 && #[trigger] FILE_METHODS[i]@ == method@,
{
    let mut i: usize = 0;
    while i < 9
        invariant
            i <= 9,
            forall|j: int| 0 <= j < i ==> #[trigger] FILE_METHODS[j]@ != method@,
        decreases 9 - i,
    {
        if text::str_eq(FILE_METHODS[i], method) {
            return true;
        }
        i = i + 1;
    }
    false
}

fn check_silent_method(method: &str) -> (r: bool)
    ensures
        r == is_silent_method(method@),
{
    let mut i: usize = 0;
    while i < 26
        invariant
            i <= 26,
            forall|j: int| 0 <= j < i ==> #[trigger] SILENT_METHODS[j]@ != method@,
        decreases 26 - i,
    {
        if text::str_eq(SILENT_METHODS[i], method) {
            return true;
        }
        i = i + 1;
    }
    false
}

/// All methods, in the order of registration.
pub open spec fn method_names(handlers: Seq<BuiltinHandler>) -> Seq<Seq<char>> {
    Seq::new(handlers.len(), |i: int| handlers[i].name_text()) + Seq::new(
        9,
        |i: int| FILE_METHODS[i]@,
    ) + seq!["open_file"@, "close_file"@] + Seq::new(26, |i: int| SILENT_METHODS[i]@)
}

impl LspBridge {
    /// What a method leads to.
    pub fn route(&self, method: &str) -> (r: Route)
        ensures
            r@ == routed(self@.handlers, method@),
    {
        if check_silent_method(method) {
            Route::Silent
        } else if text::str_eq(method, "open_file") || text::str_eq(method, "close_file") {
            Route::Queue(method.to_string())
        } else if self.handlers.contains_key(method) || check_file_method(method) {
            if text::str_eq(method, "try_completion") {
                Route::Queue(String::from_str("completion"))
            } else if text::str_eq(method, "try_code_action") {
                Route::Queue(String::from_str("code_action"))
            } else {
                Route::Queue(method.to_string())
            }
        } else {
            Route::Unknown
        }
    }

    fn all_methods(&self) -> (r: Vec<&'static str>)
        ensures
            config::name_texts(r@) == method_names(self@.handlers),
    {
        let ghost all = method_names(self@.handlers);
        let ghost n = self@.handlers.len() as int;
        let mut r: Vec<&'static str> = Vec::new();
        let mut i: usize = 0;
        while i < self.handlers.len()
            invariant
                all == method_names(self@.handlers),
                n == self@.handlers.len(),
                i <= n,
                r@.len() == i,
                forall|j: int| 0 <= j < r@.len() ==> (#[trigger] r@[j])@ == all[j],
            decreases n - i,
        {
            r.push(self.handlers.name_at(i));
            i = i + 1;
        }
        let mut k: usize = 0;
        while k < 9
            invariant
                all == method_names(self@.handlers),
                n == self@.handlers.len(),
                k <= 9,
                r@.len() == n + k,
                forall|j: int| 0 <= j < r@.len() ==> (#[trigger] r@[j])@ == all[j],
            decreases 9 - k,
        {
            assert(all[n + k] == FILE_METHODS[k as int]@);
            r.push(FILE_METHODS[k]);
            k = k + 1;
        }
        r.push("open_file");
        r.push("close_file");
        assert(all[n + 9] == "open_file"@);
        assert(all[n + 10] == "close_file"@);
        let mut m: usize = 0;
        while m < 26
            invariant
                all == method_names(self@.handlers),
                n == self@.handlers.len(),
                m <= 26,
                r@.len() == n + 11 + m,
                forall|j: int| 0 <= j < r@.len() ==> (#[trigger] r@[j])@ == all[j],
            decreases 26 - m,
        {
            assert(all[n + 11 + m] == SILENT_METHODS[m as int]@);
            r.push(SILENT_METHODS[m]);
            m = m + 1;
        }
        assert(config::name_texts(r@) =~= all);
        r
    }

    /// Register all EPC methods on the connection.
    pub fn register_methods(&self, connection: &mut EpcConnection)
        ensures
            final(connection)@ == (epc::Connection {
                methods: old(connection)@.methods.union(method_names(self@.handlers).to_set()),
                ..old(connection)@
            }),
    {
        let names = self.all_methods();
        let ghost all = config::name_texts(names@);
        let mut i: usize = 0;
        assert(all.take(0) =~= Seq::<Seq<char>>::empty());
        assert(connection@.methods.union(all.take(0).to_set()) =~= connection@.methods);
        while i < names.len()
            invariant
                all == config::name_texts(names@),
                i <= names@.len(),
                connection@ == (epc::Connection {
                    methods: old(connection)@.methods.union(all.take(i as int).to_set()),
                    ..old(connection)@
                }),
            decreases names@.len() - i,
        {
            let ghost before = all.take(i as int);
            let ghost after = all.take(i + 1);
            connection.register(names[i]);
            proof {
                assert(after =~= before.push(all[i as int]));
                assert forall|s: Seq<char>| after.contains(s) <==> before.contains(s) || s
                    == all[i as int] by {
                    assert(after[i as int] == all[i as int]);
                    if before.contains(s) {
                        let k = choose|k: int| 0 <= k < before.len() && before[k] == s;
                        assert(after[k] == s);
                    }
                }
                assert(connection@.methods =~= old(connection)@.methods.union(after.to_set()));
            }
            i = i + 1;
        }
        assert(all.take(i as int) =~= all);
    }
}

/// Exactly the methods that lead somewhere are registered: on a new connection Emacs can call a
/// method if and only if it has a route.
pub proof fn law_routes_registered(handlers: Seq<BuiltinHandler>, method: Seq<char>)
    ensures
        method_names(handlers).to_set().contains(method) <==> routed(handlers, method) !is Unknown,
{
    let all = method_names(handlers);
    let n = handlers.len() as int;
    if all.contains(method) {
        let i = choose|i: int| 0 <= i < all.len() && all[i] == method;
        if i < n {
            assert(handlers[i].name_text() == method);
        } else if i < n + 9 {
            assert(FILE_METHODS[i - n]@ == method);
        } else if i >= n + 11 {
            assert(SILENT_METHODS[i - n - 11]@ == method);
        }
    }
    if routed(handlers, method) !is Unknown {
        if is_silent_method(method) {
            let i = choose|i: int| 0 <= i < 26 && #[trigger] SILENT_METHODS[i]@ == method;
            assert(all[n + 11 + i] == method);
        } else if method == "open_file"@ {
            assert(all[n + 9] == method);
        } else if method == "close_file"@ {
            assert(all[n + 10] == method);
        } else if exists|i: int|
            0 <= i < handlers.len() && (#[trigger] handlers[i]).name_text() == method {
            let i = choose|i: int|
                0 <= i < handlers.len() && (#[trigger] handlers[i]).name_text() == method;
            assert(all[i] == method);
        } else {
            let i = choose|i: int| 0 <= i < 9 && #[trigger] FILE_METHODS[i]@ == method;
            assert(all[n + i] == method);
        }
    }
}

// ---------------------------------------------------------------------------
// The queue of events
// ---------------------------------------------------------------------------

/// An event message for the serial event queue.
#[derive(Debug)]
pub struct EventMessage {
    pub method: String,
    pub args: Vec<SexpValue>,
}

/// What an event asks for.
#[derive(Debug)]
pub enum Event {
    /// Open the file.
    Open(String),
    /// Close the file.
    Close(String),
    /// Dispatch the call to a handler.
    Dispatch { method: String, args: Vec<SexpValue> },
}

/// The mathematical value of an [`Event`].
pub enum Asked {
    Open(Seq<char>),
    Close(Seq<char>),
    Dispatch { method: Seq<char>, args: Seq<Sexp> },
}

impl View for Event {
    type V = Asked;

    open spec fn view(&self) -> Asked {
        match *self {
            Event::Open(path) => Asked::Open(path@),
            Event::Close(path) => Asked::Close(path@),
            Event::Dispatch { method, args } => Asked::Dispatch {
                method: method@,
                args: sexp::models(args@),
            },
        }
    }
}

/// The file that the first argument names; empty where it names none.
pub open spec fn first_path(args: Seq<Sexp>) -> Seq<char> {
    if args.len() > 0 {
        match args[0] {
            Sexp::String(s) => s,
            _ => ""@,
        }
    } else {
        ""@
    }
}

/// What an event asks for.
pub open spec fn asked(method: Seq<char>, args: Seq<Sexp>) -> Asked {
    if method == "open_file"@ {
        Asked::Open(first_path(args))
    } else if method == "close_file"@ {
        Asked::Close(first_path(args))
    } else {
        Asked::Dispatch { method, args }
    }
}

impl EventMessage {
    fn path(&self) -> (r: String)
        ensures
            r@ == first_path(sexp::models(self.args@)),
    {
        if self.args.len() > 0 {
            match self.args[0].as_str() {
                Some(s) => s.to_string(),
                None => String::from_str(""),
            }
        } else {
            String::from_str("")
        }
    }

    /// What the event asks for.
    pub fn event(self) -> (r: Event)
        ensures
            r@ == asked(self.method@, sexp::models(self.args@)),
    {
        if text::str_eq(self.method.as_str(), "open_file") {
            Event::Open(self.path())
        } else if text::str_eq(self.method.as_str(), "close_file") {
            Event::Close(self.path())
        } else {
            Event::Dispatch { method: self.method, args: self.args }
        }
    }
}

} // verus!
