//! What the configurations owe: the language of each extension, the configuration that is found for
//! it, and what a configuration takes from each field.

use crate::config;
use crate::config::{ConfigError, LoadFault, MultiServer, Server, Target};
use crate::handlers;
use crate::handlers::laws;
use crate::json;
use crate::json::Jv;
use crate::members;
use crate::table;
use vstd::prelude::*;

verus! {

/// The extensions that are known, each with its language.
pub open spec fn languages() -> Seq<(Seq<char>, Seq<char>)> {
    seq![
        ("py"@, "python"@),
        ("rs"@, "rust"@),
        ("js"@, "javascript"@),
        ("jsx"@, "javascript"@),
        ("ts"@, "typescript"@),
        ("tsx"@, "typescript"@),
        ("c"@, "c"@),
        ("h"@, "c"@),
        ("cpp"@, "c++"@),
        ("cc"@, "c++"@),
        ("cxx"@, "c++"@),
        ("hpp"@, "c++"@),
        ("go"@, "go"@),
        ("java"@, "java"@),
        ("el"@, "emacs-lisp"@),
        ("lua"@, "lua"@),
        ("rb"@, "ruby"@),
        ("sh"@, "bash"@),
        ("bash"@, "bash"@),
        ("css"@, "css"@),
        ("html"@, "html"@),
        ("json"@, "json"@),
        ("yaml"@, "yaml"@),
        ("yml"@, "yaml"@),
        ("toml"@, "toml"@),
        ("zig"@, "zig"@),
    ]
}

/// A known extension has the language that stands beside it, and an unknown one names its
/// language itself.
pub proof fn law_languages(extension: Seq<char>)
    ensures
        forall|i: int|
            0 <= i < languages().len() && (#[trigger] languages()[i]).0 == extension
                ==> config::language_of(extension) == languages()[i].1,
        (forall|i: int| 0 <= i < languages().len() ==> (#[trigger] languages()[i]).0 != extension)
            ==> config::language_of(extension) == extension,
{
    reveal_strlit("py");
    reveal_strlit("rs");
    reveal_strlit("js");
    reveal_strlit("jsx");
    reveal_strlit("ts");
    reveal_strlit("tsx");
    reveal_strlit("c");
    reveal_strlit("h");
    reveal_strlit("cpp");
    reveal_strlit("cc");
    reveal_strlit("cxx");
    reveal_strlit("hpp");
    reveal_strlit("go");
    reveal_strlit("java");
    reveal_strlit("el");
    reveal_strlit("lua");
    reveal_strlit("rb");
    reveal_strlit("sh");
    reveal_strlit("bash");
    reveal_strlit("css");
    reveal_strlit("html");
    reveal_strlit("json");
    reveal_strlit("yaml");
    reveal_strlit("yml");
    reveal_strlit("toml");
    reveal_strlit("zig");
    assert("py"@.len() == 2 && "py"@[0] == 'p' && "py"@[1] == 'y');
    assert("rs"@.len() == 2 && "rs"@[0] == 'r' && "rs"@[1] == 's');
    assert("js"@.len() == 2 && "js"@[0] == 'j' && "js"@[1] == 's');
    assert("jsx"@.len() == 3 && "jsx"@[0] == 'j' && "jsx"@[1] == 's' && "jsx"@[2] == 'x');
    assert("ts"@.len() == 2 && "ts"@[0] == 't' && "ts"@[1] == 's');
    assert("tsx"@.len() == 3 && "tsx"@[0] == 't' && "tsx"@[1] == 's' && "tsx"@[2] == 'x');
    assert("c"@.len() == 1 && "c"@[0] == 'c');
    assert("h"@.len() == 1 && "h"@[0] == 'h');
    assert("cpp"@.len() == 3 && "cpp"@[0] == 'c' && "cpp"@[1] == 'p' && "cpp"@[2] == 'p');
    assert("cc"@.len() == 2 && "cc"@[0] == 'c' && "cc"@[1] == 'c');
    assert("cxx"@.len() == 3 && "cxx"@[0] == 'c' && "cxx"@[1] == 'x' && "cxx"@[2] == 'x');
    assert("hpp"@.len() == 3 && "hpp"@[0] == 'h' && "hpp"@[1] == 'p' && "hpp"@[2] == 'p');
    assert("go"@.len() == 2 && "go"@[0] == 'g' && "go"@[1] == 'o');
    assert("java"@.len() == 4 && "java"@[0] == 'j' && "java"@[1] == 'a' && "java"@[2] == 'v' && "java"@[3] == 'a');
    assert("el"@.len() == 2 && "el"@[0] == 'e' && "el"@[1] == 'l');
    assert("lua"@.len() == 3 && "lua"@[0] == 'l' && "lua"@[1] == 'u' && "lua"@[2] == 'a');
    assert("rb"@.len() == 2 && "rb"@[0] == 'r' && "rb"@[1] == 'b');
    assert("sh"@.len() == 2 && "sh"@[0] == 's' && "sh"@[1] == 'h');
    assert("bash"@.len() == 4 && "bash"@[0] == 'b' && "bash"@[1] == 'a' && "bash"@[2] == 's' && "bash"@[3] == 'h');
    assert("css"@.len() == 3 && "css"@[0] == 'c' && "css"@[1] == 's' && "css"@[2] == 's');
    assert("html"@.len() == 4 && "html"@[0] == 'h' && "html"@[1] == 't' && "html"@[2] == 'm' && "html"@[3] == 'l');
    assert("json"@.len() == 4 && "json"@[0] == 'j' && "json"@[1] == 's' && "json"@[2] == 'o' && "json"@[3] == 'n');
    assert("yaml"@.len() == 4 && "yaml"@[0] == 'y' && "yaml"@[1] == 'a' && "yaml"@[2] == 'm' && "yaml"@[3] == 'l');
    assert("yml"@.len() == 3 && "yml"@[0] == 'y' && "yml"@[1] == 'm' && "yml"@[2] == 'l');
    assert("toml"@.len() == 4 && "toml"@[0] == 't' && "toml"@[1] == 'o' && "toml"@[2] == 'm' && "toml"@[3] == 'l');
    assert("zig"@.len() == 3 && "zig"@[0] == 'z' && "zig"@[1] == 'i' && "zig"@[2] == 'g');
    assert(config::language_of("py"@) == "python"@);
    assert(config::language_of("rs"@) == "rust"@);
    assert(config::language_of("js"@) == "javascript"@);
    assert(config::language_of("jsx"@) == "javascript"@);
    assert(config::language_of("ts"@) == "typescript"@);
    assert(config::language_of("tsx"@) == "typescript"@);
    assert(config::language_of("c"@) == "c"@);
    assert(config::language_of("h"@) == "c"@);
    assert(config::language_of("cpp"@) == "c++"@);
    assert(config::language_of("cc"@) == "c++"@);
    assert(config::language_of("cxx"@) == "c++"@);
    assert(config::language_of("hpp"@) == "c++"@);
    assert(config::language_of("go"@) == "go"@);
    assert(config::language_of("java"@) == "java"@);
    assert(config::language_of("el"@) == "emacs-lisp"@);
    assert(config::language_of("lua"@) == "lua"@);
    assert(config::language_of("rb"@) == "ruby"@);
    assert(config::language_of("sh"@) == "bash"@);
    assert(config::language_of("bash"@) == "bash"@);
    assert(config::language_of("css"@) == "css"@);
    assert(config::language_of("html"@) == "html"@);
    assert(config::language_of("json"@) == "json"@);
    assert(config::language_of("yaml"@) == "yaml"@);
    assert(config::language_of("yml"@) == "yaml"@);
    assert(config::language_of("toml"@) == "toml"@);
    assert(config::language_of("zig"@) == "zig"@);
    let t = languages();
    assert forall|i: int|
        0 <= i < t.len() && (#[trigger] t[i]).0 == extension implies config::language_of(extension)
        == t[i].1 by {}
    if forall|i: int| 0 <= i < t.len() ==> (#[trigger] t[i]).0 != extension {
        assert(t[0].0 != extension && t[1].0 != extension && t[2].0 != extension && t[3].0
            != extension && t[4].0 != extension && t[5].0 != extension && t[6].0 != extension
            && t[7].0 != extension && t[8].0 != extension && t[9].0 != extension && t[10].0
            != extension && t[11].0 != extension && t[14].0 != extension && t[16].0 != extension
            && t[17].0 != extension && t[23].0 != extension);
    }
}

/// The configuration for a language is the first one that names it, and there is none only where
/// no configuration does.
pub proof fn law_server_found(configs: Seq<(Seq<char>, Server)>, language: Seq<char>, i: int)
    ensures
        0 <= i < configs.len() && configs[i].1.language_id == language && (forall|j: int|
            0 <= j < i ==> (#[trigger] configs[j]).1.language_id != language)
            ==> config::server_for(configs, language) == Some(configs[i].1),
        (forall|j: int|
            0 <= j < configs.len() ==> (#[trigger] configs[j]).1.language_id != language)
            ==> config::server_for(configs, language) is None,
    decreases configs.len(),
{
    if configs.len() > 0 && configs[0].1.language_id != language {
        let rest = configs.skip(1);
        law_server_found(rest, language, i - 1);
        assert forall|j: int| 0 <= j < rest.len() implies #[trigger] rest[j] == configs[j + 1] by {}
        if i > 0 && forall|j: int| 0 <= j < i ==> (#[trigger] configs[j]).1.language_id != language {
            assert forall|j: int| 0 <= j < i - 1 && j < rest.len() implies (
            #[trigger] rest[j]).1.language_id != language by {
                assert(configs[j + 1].1.language_id != language);
            }
        }
    }
}

/// A file whose name is a stem and `.json` has that stem, and no other file has one.
pub proof fn law_json_stem(name: Seq<char>, stem: Seq<char>)
    ensures
        config::json_stem(name) == Some(stem) <==> stem.len() > 0 && name == stem + ".json"@,
{
    reveal_strlit(".json");
    assert(".json"@.len() == 5);
    if stem.len() > 0 && name == stem + ".json"@ {
        assert(name.skip(name.len() - 5) =~= ".json"@);
        assert(name.take(name.len() - 5) =~= stem);
    }
    if config::json_stem(name) == Some(stem) {
        assert(name =~= stem + ".json"@);
    }
}

/// One more file adds its configuration under the server's name, in place of an earlier one with
/// that name, and touches no other; a file without the extension, or whose text holds no
/// configuration, changes nothing.
pub proof fn law_file_adds_server(
    files: Seq<(Seq<char>, Seq<char>)>,
    name: Seq<char>,
    content: Seq<char>,
    other: Seq<char>,
)
    ensures
        ({
            let before = config::servers_in(files);
            let after = config::servers_in(files.push((name, content)));
            let counts = exists|stem: Seq<char>| stem.len() > 0 && name == stem + ".json"@;
            &&& counts && config::server_text(content) is Ok ==> ({
                let s = config::server_text(content)->Ok_0;
                &&& table::lookup(after, s.name) == Some(s)
                &&& other != s.name ==> table::lookup(after, other) == table::lookup(before, other)
            })
            &&& !counts || config::server_text(content) is Err ==> after == before
        }),
{
    let all = files.push((name, content));
    assert(all.drop_last() =~= files);
    assert(all.last() == (name, content));
    lemma_stem(name);
    if config::server_text(content) is Ok {
        let s = config::server_text(content)->Ok_0;
        table::law_lookup_put(config::servers_in(files), s.name, s, s.name);
        table::law_lookup_put(config::servers_in(files), s.name, s, other);
    }
}

proof fn lemma_stem(name: Seq<char>)
    ensures
        config::json_stem(name) is Some <==> exists|stem: Seq<char>|
            stem.len() > 0 && name == stem + ".json"@,
{
    if config::json_stem(name) is Some {
        law_json_stem(name, config::json_stem(name)->0);
    }
    if exists|stem: Seq<char>| stem.len() > 0 && name == stem + ".json"@ {
        let stem = choose|stem: Seq<char>| stem.len() > 0 && name == stem + ".json"@;
        law_json_stem(name, stem);
    }
}

/// One more file adds its multi-server configuration under the stem of its name.
pub proof fn law_file_adds_multi_server(
    files: Seq<(Seq<char>, Seq<char>)>,
    stem: Seq<char>,
    content: Seq<char>,
    other: Seq<char>,
)
    requires
        stem.len() > 0,
    ensures
        ({
            let before = config::multi_servers_in(files);
            let after = config::multi_servers_in(files.push((stem + ".json"@, content)));
            &&& config::multi_server_text(content) is Ok ==> table::lookup(after, stem) == Some(
                config::multi_server_text(content)->Ok_0,
            ) && (other != stem ==> table::lookup(after, other) == table::lookup(before, other))
            &&& config::multi_server_text(content) is Err ==> after == before
        }),
{
    let all = files.push((stem + ".json"@, content));
    assert(all.drop_last() =~= files);
    assert(all.last() == (stem + ".json"@, content));
    law_json_stem(stem + ".json"@, stem);
    if config::multi_server_text(content) is Ok {
        let s = config::multi_server_text(content)->Ok_0;
        table::law_lookup_put(config::multi_servers_in(files), stem, s, stem);
        table::law_lookup_put(config::multi_servers_in(files), stem, s, other);
    }
}

/// Whether a value lists exactly these texts.
pub open spec fn lists(v: Jv, all: Seq<Seq<char>>) -> bool {
    laws::lists_texts(v, all)
}

proof fn lemma_lists(v: Jv, all: Seq<Seq<char>>)
    requires
        lists(v, all),
    ensures
        config::all_strings(v) == Some(all),
{
    let a = v->Array_0;
    assert forall|i: int| 0 <= i < a.len() implies (#[trigger] a[i]) is Str by {
        assert(a[i] == Jv::Str(all[i]));
    }
    assert(Seq::new(a.len(), |i: int| a[i]->Str_0) =~= all);
}

/// A configuration needs a name, a language and a command; everything else may be missing, and
/// then stands for nothing.
pub proof fn law_least_server(v: Jv, name: Seq<char>, language: Seq<char>, command: Seq<Seq<char>>)
    requires
        json::member(v, "name"@) == Some(Jv::Str(name)),
        json::member(v, "languageId"@) == Some(Jv::Str(language)),
        lists(laws::under(v, "command"@), command),
        json::member(v, "settings"@) is None,
        json::member(v, "projectFiles"@) is None,
        json::member(v, "support-single-file"@) is None,
        json::member(v, "capabilities"@) is None,
        json::member(v, "initializationOptions"@) is None,
        json::member(v, "orgBabelVirtualFile"@) is None,
        json::member(v, "completionTriggerCharacters"@) is None,
    ensures
        config::server_config(v) == Ok::<Server, ConfigError>(
            Server {
                name,
                language_id: language,
                command,
                settings: Jv::Null,
                project_files: Seq::empty(),
                single_file: false,
                capabilities: Jv::Null,
                options: Jv::Null,
                virtual_file: None,
                triggers: None,
            },
        ),
{
    lemma_lists(laws::under(v, "command"@), command);
}

/// What is read from the fields of an object is what stands in them.
pub proof fn law_server_fields(v: Jv)
    requires
        v is Object,
        config::server_config(v) is Ok,
    ensures
        ({
            let s = config::server_config(v)->Ok_0;
            &&& json::member(v, "name"@) == Some(Jv::Str(s.name))
            &&& json::member(v, "languageId"@) == Some(Jv::Str(s.language_id))
            &&& lists(laws::under(v, "command"@), s.command)
            &&& s.settings == laws::under(v, "settings"@)
            &&& json::member(v, "projectFiles"@) is Some ==> lists(
                laws::under(v, "projectFiles"@),
                s.project_files,
            )
            &&& json::member(v, "projectFiles"@) is None ==> s.project_files.len() == 0
            &&& json::member(v, "support-single-file"@) is Some ==> json::member(
                v,
                "support-single-file"@,
            ) == Some(Jv::Bool(s.single_file))
            &&& json::member(v, "support-single-file"@) is None ==> !s.single_file
            &&& s.capabilities == laws::under(v, "capabilities"@)
            &&& s.options == laws::under(v, "initializationOptions"@)
            &&& match s.virtual_file {
                Some(path) => json::member(v, "orgBabelVirtualFile"@) == Some(Jv::Str(path)),
                None => laws::under(v, "orgBabelVirtualFile"@) is Null,
            }
            &&& match s.triggers {
                Some(all) => lists(laws::under(v, "completionTriggerCharacters"@), all),
                None => laws::under(v, "completionTriggerCharacters"@) is Null,
            }
        }),
{
}

/// A field that is missing or of the wrong kind is named: the first in the order of the fields.
pub proof fn law_server_field_refused(v: Jv)
    requires
        v is Object,
    ensures
        !(laws::under(v, "name"@) is Str) ==> config::server_config(v) == Err::<
            Server,
            ConfigError,
        >(ConfigError::Field("name")),
        laws::under(v, "name"@) is Str && !(laws::under(v, "languageId"@) is Str)
            ==> config::server_config(v) == Err::<Server, ConfigError>(
            ConfigError::Field("languageId"),
        ),
        laws::under(v, "name"@) is Str && laws::under(v, "languageId"@) is Str && !(laws::under(
            v,
            "command"@,
        ) is Array) ==> config::server_config(v) == Err::<Server, ConfigError>(
            ConfigError::Field("command"),
        ),
{
}

/// Whether a field names a target: nothing where it is missing or null, one name, or several.
pub open spec fn names_target(v: Jv, t: Option<Target>) -> bool {
    match t {
        None => v is Null,
        Some(Target::Single(name)) => v == Jv::Str(name),
        Some(Target::Multiple(all)) => lists(v, all),
    }
}

/// A multi-server configuration takes each of its targets from the field of that name.
pub proof fn law_multi_server_fields(v: Jv)
    requires
        v is Object,
        config::multi_server_config(v) is Ok,
    ensures
        ({
            let m = config::multi_server_config(v)->Ok_0;
            &&& json::member(v, "default"@) == Some(Jv::Str(m.default))
            &&& names_target(laws::under(v, "diagnostics"@), m.diagnostics)
            &&& names_target(laws::under(v, "code_action"@), m.code_action)
            &&& names_target(laws::under(v, "execute_command"@), m.execute_command)
            &&& names_target(laws::under(v, "formatting"@), m.formatting)
            &&& names_target(laws::under(v, "completion"@), m.completion)
            &&& names_target(laws::under(v, "find_define"@), m.find_define)
            &&& names_target(laws::under(v, "find_references"@), m.find_references)
            &&& names_target(laws::under(v, "rename"@), m.rename)
            &&& names_target(laws::under(v, "hover"@), m.hover)
        }),
{
}

/// Whether a field may stand in a multi-server configuration.
pub open spec fn may_name_target(v: Jv) -> bool {
    exists|t: Option<Target>| names_target(v, t)
}

proof fn lemma_target(v: Jv, key: Seq<char>)
    requires
        may_name_target(laws::under(v, key)),
    ensures
        config::target_field(v, key) is Some,
{
    let t = choose|t: Option<Target>| names_target(laws::under(v, key), t);
    match t {
        Some(Target::Multiple(all)) => {
            lemma_lists(laws::under(v, key), all);
        },
        _ => {},
    }
}

/// An object with a default server, whose other fields each name a target or none, is a
/// multi-server configuration.
pub proof fn law_multi_server_accepted(v: Jv)
    requires
        v is Object,
        laws::under(v, "default"@) is Str,
        may_name_target(laws::under(v, "diagnostics"@)),
        may_name_target(laws::under(v, "code_action"@)),
        may_name_target(laws::under(v, "execute_command"@)),
        may_name_target(laws::under(v, "formatting"@)),
        may_name_target(laws::under(v, "completion"@)),
        may_name_target(laws::under(v, "find_define"@)),
        may_name_target(laws::under(v, "find_references"@)),
        may_name_target(laws::under(v, "rename"@)),
        may_name_target(laws::under(v, "hover"@)),
    ensures
        config::multi_server_config(v) is Ok,
{
    lemma_target(v, "diagnostics"@);
    lemma_target(v, "code_action"@);
    lemma_target(v, "execute_command"@);
    lemma_target(v, "formatting"@);
    lemma_target(v, "completion"@);
    lemma_target(v, "find_define"@);
    lemma_target(v, "find_references"@);
    lemma_target(v, "rename"@);
    lemma_target(v, "hover"@);
}

/// The names of a target are the one name, or all of the several in their order.
pub proof fn law_target_names(name: Seq<char>, all: Seq<Seq<char>>)
    ensures
        config::target_names(Target::Single(name)) == seq![name],
        config::target_names(Target::Multiple(all)) == all,
{
}

/// One more member of a text adds its field, unless no field has that name; a field that stands
/// there already is refused, and what was refused stays so.
pub proof fn law_member_adds_field(
    members: Seq<(Seq<char>, Seq<char>)>,
    names: Seq<Seq<char>>,
    key_text: Seq<char>,
    key: Seq<char>,
    value_text: Seq<char>,
    value: Jv,
)
    requires
        json::json_read(key_text) == Ok::<Jv, Seq<char>>(Jv::Str(key)),
        json::json_read("["@ + value_text + "]"@) == Ok::<Jv, Seq<char>>(Jv::Array(seq![value])),
    ensures
        ({
            let before = config::fields_among(members, names);
            let after = config::fields_among(members.push((key_text, value_text)), names);
            &&& before is Err ==> after == before
            &&& before is Ok && !names.contains(key) ==> after == before
            &&& before is Ok && names.contains(key) ==> ({
                let found = exists|i: int|
                    0 <= i < before->Ok_0.len() && (#[trigger] before->Ok_0[i]).0 == key;
                &&& found ==> after == Err::<Seq<(Seq<char>, Jv)>, LoadFault>(
                    LoadFault::Repeated(key),
                )
                &&& !found ==> after == Ok::<Seq<(Seq<char>, Jv)>, LoadFault>(
                    before->Ok_0.push((key, value)),
                )
            })
        }),
{
    reveal_strlit("[");
    reveal_strlit("]");
    let all = members.push((key_text, value_text));
    assert(all.drop_last() =~= members);
    assert(all.last() == (key_text, value_text));
    assert("["@ =~= seq!['[']);
    assert("]"@ =~= seq![']']);
}

/// An array holds the fields in their order: the value at a position stands under the name at that
/// position, and an array with more values than names is refused.
pub proof fn law_fields_by_position(a: Seq<Jv>, names: Seq<Seq<char>>, i: int)
    requires
        forall|k: int, l: int|
            0 <= k < l < names.len() ==> #[trigger] names[k] != #[trigger] names[l],
    ensures
        a.len() > names.len() ==> config::with_names(Jv::Array(a), names) is None,
        a.len() <= names.len() ==> config::with_names(Jv::Array(a), names) is Some,
        a.len() <= names.len() && 0 <= i < a.len() ==> json::member(
            config::with_names(Jv::Array(a), names)->0,
            names[i],
        ) == Some(a[i]),
        a.len() <= names.len() && a.len() <= i < names.len() ==> json::member(
            config::with_names(Jv::Array(a), names)->0,
            names[i],
        ) is None,
{
    if a.len() <= names.len() {
        let members = Seq::new(a.len(), |k: int| (names[k], a[k]));
        assert(json::distinct_keys(members));
        handlers::lemma_made_of(members);
        if 0 <= i < a.len() {
            assert(members[i] == (names[i], a[i]));
        } else if a.len() <= i < names.len() {
            let v = handlers::obj(members);
            if json::member(v, names[i]) is Some {
                let k = choose|k: int|
                    0 <= k < members.len() && (#[trigger] members[k]).0 == names[i];
                assert(names[k] == names[i]);
            }
        }
    }
}

/// The names of the fields of a configuration, in their order.
pub proof fn law_field_names()
    ensures
        config::server_fields() == seq![
            "name"@,
            "languageId"@,
            "command"@,
            "settings"@,
            "projectFiles"@,
            "support-single-file"@,
            "capabilities"@,
            "initializationOptions"@,
            "orgBabelVirtualFile"@,
            "completionTriggerCharacters"@,
        ],
        config::multi_server_fields() == seq![
            "default"@,
            "diagnostics"@,
            "code_action"@,
            "execute_command"@,
            "formatting"@,
            "completion"@,
            "find_define"@,
            "find_references"@,
            "rename"@,
            "hover"@,
        ],
{
}

/// The configuration of a text is read from the fields that stand in it, and the fault of a field
/// is handed on.
pub proof fn law_configuration_text(content: Seq<char>)
    ensures
        match config::fields_of(content, config::server_fields()) {
            Ok(v) => config::server_text(content) == match config::server_of(v) {
                Ok(s) => Ok::<Server, LoadFault>(s),
                Err(e) => Err::<Server, LoadFault>(LoadFault::Invalid(e)),
            },
            Err(e) => config::server_text(content) == Err::<Server, LoadFault>(e),
        },
        match config::fields_of(content, config::multi_server_fields()) {
            Ok(v) => config::multi_server_text(content) == match config::multi_server_of(v) {
                Ok(s) => Ok::<MultiServer, LoadFault>(s),
                Err(e) => Err::<MultiServer, LoadFault>(LoadFault::Invalid(e)),
            },
            Err(e) => config::multi_server_text(content) == Err::<MultiServer, LoadFault>(e),
        },
{
}

/// The fields of a text that is an object are those among its members, where it can be read; those
/// of a text that is an array stand in their order; and what cannot be read is refused with its
/// fault.
pub proof fn law_fields_of_text(
    content: Seq<char>,
    names: Seq<Seq<char>>,
    all: Seq<(Seq<char>, Seq<char>)>,
    fields: Seq<(Seq<char>, Jv)>,
    v: Jv,
)
    ensures
        members::members_of(content) == Some(all) && json::json_fault(content) is Some
            ==> config::fields_of(content, names) == Err::<Jv, LoadFault>(
            LoadFault::Syntax(json::json_fault(content)->0),
        ),
        members::members_of(content) == Some(all) && json::json_fault(content) is None
            && config::fields_among(all, names) == Ok::<Seq<(Seq<char>, Jv)>, LoadFault>(fields)
            ==> config::fields_of(content, names) == Ok::<Jv, LoadFault>(handlers::obj(fields)),
        members::members_of(content) == Some(all) && json::json_fault(content) is None
            && config::fields_among(all, names) is Err ==> config::fields_of(content, names) == Err::<
            Jv,
            LoadFault,
        >(config::fields_among(all, names)->Err_0),
        members::members_of(content) is None && json::json_read(content) == Ok::<Jv, Seq<char>>(v)
            ==> config::fields_of(content, names) == (match config::with_names(v, names) {
            Some(o) => Ok::<Jv, LoadFault>(o),
            None => Err::<Jv, LoadFault>(LoadFault::Invalid(ConfigError::NotAnObject)),
        }),
        members::members_of(content) is None && json::json_read(content) is Err
            ==> config::fields_of(content, names) == Err::<Jv, LoadFault>(
            LoadFault::Syntax(json::json_read(content)->Err_0),
        ),
{
}

} // verus!
