//! The command line as the argument parser hands it over.

use vstd::prelude::*;

use crate::store::text_of;
use crate::text;

verus! {

/// What the argument parser found.
#[verifier::external_type_specification]
#[verifier::external_body]
pub struct ExArgMatches<'a>(clap::ArgMatches<'a>);

/// The values that a level of the command line holds for each of its
/// arguments that is present: a text, or `None` where a value is not Unicode.
pub uninterp spec fn held_values(matches: clap::ArgMatches<'_>) -> Map<
    Seq<char>,
    Seq<Option<Seq<char>>>,
>;

/// The subcommands below a level of the command line, outermost first, each
/// with the values that its arguments hold.
pub uninterp spec fn held_subcommands(matches: clap::ArgMatches<'_>) -> Seq<
    (Seq<char>, Map<Seq<char>, Seq<Option<Seq<char>>>>),
>;

/// The first value of an argument, where the argument is present and has one.
pub open spec fn first_held(
    values: Map<Seq<char>, Seq<Option<Seq<char>>>>,
    name: Seq<char>,
) -> Option<Option<Seq<char>>> {
    if values.contains_key(name) && values[name].len() > 0 {
        Some(values[name][0])
    } else {
        None
    }
}

/// All the values of an argument, where the argument is present.
pub open spec fn all_held(
    values: Map<Seq<char>, Seq<Option<Seq<char>>>>,
    name: Seq<char>,
) -> Option<Seq<Option<Seq<char>>>> {
    if values.contains_key(name) {
        Some(values[name])
    } else {
        None
    }
}

/// Whether `name` and `below` are the first of a chain of subcommands and what
/// was found below it; an empty name and `None` for an empty chain.
pub open spec fn heads_chain(
    name: Seq<char>,
    below: Option<&clap::ArgMatches<'_>>,
    chain: Seq<(Seq<char>, Map<Seq<char>, Seq<Option<Seq<char>>>>)>,
) -> bool {
    if chain.len() == 0 {
        name == Seq::<char>::empty() && below is None
    } else {
        &&& name == chain[0].0
        &&& below is Some
        &&& held_values(*below->0) == chain[0].1
        &&& held_subcommands(*below->0) == chain.drop_first()
    }
}

/// `clap::ArgMatches::value_of_os`: the first value of the argument of this
/// name. `None` where the argument is absent or has no value; `Some(None)`
/// where that value is not Unicode.
#[verifier::external_body]
fn first_value(matches: &clap::ArgMatches<'_>, name: &str) -> (r: Option<Option<String>>)
    ensures
        r is Some == first_held(held_values(*matches), name@) is Some,
        r is Some ==> Some(text_of(r->0)) == first_held(held_values(*matches), name@),
{
    matches.value_of_os(name).map(|value| value.to_str().map(str::to_owned))
}

/// `clap::ArgMatches::values_of_os`: every value of the argument of this name,
/// in order, `None` where the argument is absent. A value that is not Unicode
/// comes as `None`.
#[verifier::external_body]
fn all_values(matches: &clap::ArgMatches<'_>, name: &str) -> (r: Option<Vec<Option<String>>>)
    ensures
        r is Some == all_held(held_values(*matches), name@) is Some,
        r is Some ==> Some(r->0@.map_values(|v: Option<String>| text_of(v))) == all_held(
            held_values(*matches),
            name@,
        ),
{
    matches.values_of_os(name).map(
        |values| values.map(|value| value.to_str().map(str::to_owned)).collect(),
    )
}

/// `clap::ArgMatches::subcommand`: the name of the subcommand and what was
/// found below it; an empty name and `None` where there is none.
#[verifier::external_body]
fn subcommand<'m, 'a>(matches: &'m clap::ArgMatches<'a>) -> (r: (
    &'m str,
    Option<&'m clap::ArgMatches<'a>>,
))
    ensures
        heads_chain(r.0@, r.1, held_subcommands(*matches)),
{
    matches.subcommand()
}

/// An argument as the command line gives it.
#[derive(Debug)]
pub enum Argument {
    Absent,
    NotUnicode,
    Text(String),
}

/// What an [`Argument`] holds: `None` where it is absent, `Some(None)` where it
/// is not Unicode.
pub type ArgumentView = Option<Option<Seq<char>>>;

impl View for Argument {
    type V = ArgumentView;

    open spec fn view(&self) -> ArgumentView {
        match *self {
            Argument::Absent => None,
            Argument::NotUnicode => Some(None),
            Argument::Text(text) => Some(Some(text@)),
        }
    }
}

/// The arguments that address a blob.
#[derive(Debug)]
pub struct DigestArguments {
    pub fingerprint: Argument,
    pub size_bytes: Argument,
}

/// What a [`DigestArguments`] holds.
pub struct DigestArgumentsView {
    pub fingerprint: ArgumentView,
    pub size_bytes: ArgumentView,
}

impl View for DigestArguments {
    type V = DigestArgumentsView;

    open spec fn view(&self) -> DigestArgumentsView {
        DigestArgumentsView { fingerprint: self.fingerprint@, size_bytes: self.size_bytes@ }
    }
}

/// What the tool is asked to do.
#[derive(Debug)]
pub enum Command {
    FileCat { digest: DigestArguments },
    FileSave { path: Argument, output_mode: Argument },
    DirectoryMaterialize { destination: Argument, digest: DigestArguments },
    /// `globs` is `None` where the argument is absent; a glob that is not
    /// Unicode is `None`.
    DirectorySave { root: Argument, globs: Option<Vec<Option<String>>>, output_mode: Argument },
    DirectoryCatProto { digest: DigestArguments, output_format: Argument },
    Cat { digest: DigestArguments },
    GarbageCollect { target_size_bytes: Argument },
    /// A subcommand that does nothing by itself, or none at all.
    Unimplemented,
}

/// What a [`Command`] holds.
pub enum CommandView {
    FileCat { digest: DigestArgumentsView },
    FileSave { path: ArgumentView, output_mode: ArgumentView },
    DirectoryMaterialize { destination: ArgumentView, digest: DigestArgumentsView },
    DirectorySave {
        root: ArgumentView,
        globs: Option<Seq<Option<Seq<char>>>>,
        output_mode: ArgumentView,
    },
    DirectoryCatProto { digest: DigestArgumentsView, output_format: ArgumentView },
    Cat { digest: DigestArgumentsView },
    GarbageCollect { target_size_bytes: ArgumentView },
    Unimplemented,
}

/// What a list of globs holds.
pub open spec fn globs_of(globs: Option<Vec<Option<String>>>) -> Option<Seq<Option<Seq<char>>>> {
    match globs {
        Some(list) => Some(list@.map_values(|v: Option<String>| text_of(v))),
        None => None,
    }
}

impl View for Command {
    type V = CommandView;

    open spec fn view(&self) -> CommandView {
        match *self {
            Command::FileCat { digest } => CommandView::FileCat { digest: digest@ },
            Command::FileSave { path, output_mode } => CommandView::FileSave {
                path: path@,
                output_mode: output_mode@,
            },
            Command::DirectoryMaterialize {
                destination,
                digest,
            } => CommandView::DirectoryMaterialize { destination: destination@, digest: digest@ },
            Command::DirectorySave { root, globs, output_mode } => CommandView::DirectorySave {
                root: root@,
                globs: globs_of(globs),
                output_mode: output_mode@,
            },
            Command::DirectoryCatProto { digest, output_format } => CommandView::DirectoryCatProto {
                digest: digest@,
                output_format: output_format@,
            },
            Command::Cat { digest } => CommandView::Cat { digest: digest@ },
            Command::GarbageCollect { target_size_bytes } => CommandView::GarbageCollect {
                target_size_bytes: target_size_bytes@,
            },
            Command::Unimplemented => CommandView::Unimplemented,
        }
    }
}

/// The command line.
#[derive(Debug)]
pub struct Request {
    pub local_store_path: Argument,
    pub server_address: Argument,
    pub chunk_bytes: Argument,
    pub root_ca_cert_file: Argument,
    pub oauth_bearer_token_file: Argument,
    pub remote_instance_name: Argument,
    pub command: Command,
}

/// What a [`Request`] holds.
pub struct RequestView {
    pub local_store_path: ArgumentView,
    pub server_address: ArgumentView,
    pub chunk_bytes: ArgumentView,
    pub root_ca_cert_file: ArgumentView,
    pub oauth_bearer_token_file: ArgumentView,
    pub remote_instance_name: ArgumentView,
    pub command: CommandView,
}

impl View for Request {
    type V = RequestView;

    open spec fn view(&self) -> RequestView {
        RequestView {
            local_store_path: self.local_store_path@,
            server_address: self.server_address@,
            chunk_bytes: self.chunk_bytes@,
            root_ca_cert_file: self.root_ca_cert_file@,
            oauth_bearer_token_file: self.oauth_bearer_token_file@,
            remote_instance_name: self.remote_instance_name@,
            command: self.command@,
        }
    }
}

/// The values of the arguments of one level of the command line.
pub type Values = Map<Seq<char>, Seq<Option<Seq<char>>>>;

/// The arguments that address a blob.
pub open spec fn digest_arguments_of(values: Values) -> DigestArgumentsView {
    DigestArgumentsView {
        fingerprint: first_held(values, "fingerprint"@),
        size_bytes: first_held(values, "size_bytes"@),
    }
}

/// The command that a chain of subcommands stands for.
pub open spec fn command_of(chain: Seq<(Seq<char>, Values)>) -> CommandView {
    if chain.len() == 0 {
        CommandView::Unimplemented
    } else if chain[0].0 == "file"@ {
        file_command_of(chain.drop_first())
    } else if chain[0].0 == "directory"@ {
        directory_command_of(chain.drop_first())
    } else if chain[0].0 == "cat"@ {
        CommandView::Cat { digest: digest_arguments_of(chain[0].1) }
    } else if chain[0].0 == "gc"@ {
        CommandView::GarbageCollect {
            target_size_bytes: first_held(chain[0].1, "target-size-bytes"@),
        }
    } else {
        CommandView::Unimplemented
    }
}

/// The command that a chain of subcommands below `file` stands for.
pub open spec fn file_command_of(chain: Seq<(Seq<char>, Values)>) -> CommandView {
    if chain.len() == 0 {
        CommandView::Unimplemented
    } else if chain[0].0 == "cat"@ {
        CommandView::FileCat { digest: digest_arguments_of(chain[0].1) }
    } else if chain[0].0 == "save"@ {
        CommandView::FileSave {
            path: first_held(chain[0].1, "path"@),
            output_mode: first_held(chain[0].1, "output-mode"@),
        }
    } else {
        CommandView::Unimplemented
    }
}

/// The command that a chain of subcommands below `directory` stands for.
pub open spec fn directory_command_of(chain: Seq<(Seq<char>, Values)>) -> CommandView {
    if chain.len() == 0 {
        CommandView::Unimplemented
    } else if chain[0].0 == "materialize"@ {
        CommandView::DirectoryMaterialize {
            destination: first_held(chain[0].1, "destination"@),
            digest: digest_arguments_of(chain[0].1),
        }
    } else if chain[0].0 == "save"@ {
        CommandView::DirectorySave {
            root: first_held(chain[0].1, "root"@),
            globs: all_held(chain[0].1, "globs"@),
            output_mode: first_held(chain[0].1, "output-mode"@),
        }
    } else if chain[0].0 == "cat-proto"@ {
        CommandView::DirectoryCatProto {
            digest: digest_arguments_of(chain[0].1),
            output_format: first_held(chain[0].1, "output-format"@),
        }
    } else {
        CommandView::Unimplemented
    }
}

/// The command line that the arguments of its top level and the chain of its
/// subcommands make.
pub open spec fn request_of(values: Values, chain: Seq<(Seq<char>, Values)>) -> RequestView {
    RequestView {
        local_store_path: first_held(values, "local-store-path"@),
        server_address: first_held(values, "server-address"@),
        chunk_bytes: first_held(values, "chunk-bytes"@),
        root_ca_cert_file: first_held(values, "root-ca-cert-file"@),
        oauth_bearer_token_file: first_held(values, "oauth-bearer-token-file"@),
        remote_instance_name: first_held(values, "remote-instance-name"@),
        command: command_of(chain),
    }
}

/// One argument.
fn read_argument(matches: &clap::ArgMatches<'_>, name: &str) -> (r: Argument)
    ensures
        r@ == first_held(held_values(*matches), name@),
{
    match first_value(matches, name) {
        None => Argument::Absent,
        Some(None) => Argument::NotUnicode,
        Some(Some(text)) => Argument::Text(text),
    }
}

/// The arguments that address a blob.
fn read_digest_arguments(matches: &clap::ArgMatches<'_>) -> (r: DigestArguments)
    ensures
        r@ == digest_arguments_of(held_values(*matches)),
{
    DigestArguments {
        fingerprint: read_argument(matches, "fingerprint"),
        size_bytes: read_argument(matches, "size_bytes"),
    }
}

/// The command below `file`.
fn read_file_command(matches: &clap::ArgMatches<'_>) -> (r: Command)
    ensures
        r@ == file_command_of(held_subcommands(*matches)),
{
    match subcommand(matches) {
        (name, Some(args)) => {
            if text::same(name, "cat") {
                Command::FileCat { digest: read_digest_arguments(args) }
            } else if text::same(name, "save") {
                Command::FileSave {
                    path: read_argument(args, "path"),
                    output_mode: read_argument(args, "output-mode"),
                }
            } else {
                Command::Unimplemented
            }
        },
        _ => Command::Unimplemented,
    }
}

/// The command below `directory`.
fn read_directory_command(matches: &clap::ArgMatches<'_>) -> (r: Command)
    ensures
        r@ == directory_command_of(held_subcommands(*matches)),
{
    match subcommand(matches) {
        (name, Some(args)) => {
            if text::same(name, "materialize") {
                Command::DirectoryMaterialize {
                    destination: read_argument(args, "destination"),
                    digest: read_digest_arguments(args),
                }
            } else if text::same(name, "save") {
                Command::DirectorySave {
                    root: read_argument(args, "root"),
                    globs: all_values(args, "globs"),
                    output_mode: read_argument(args, "output-mode"),
                }
            } else if text::same(name, "cat-proto") {
                Command::DirectoryCatProto {
                    digest: read_digest_arguments(args),
                    output_format: read_argument(args, "output-format"),
                }
            } else {
                Command::Unimplemented
            }
        },
        _ => Command::Unimplemented,
    }
}

/// The command.
fn read_command(matches: &clap::ArgMatches<'_>) -> (r: Command)
    ensures
        r@ == command_of(held_subcommands(*matches)),
{
    match subcommand(matches) {
        (name, Some(args)) => {
            if text::same(name, "file") {
                read_file_command(args)
            } else if text::same(name, "directory") {
                read_directory_command(args)
            } else if text::same(name, "cat") {
                Command::Cat { digest: read_digest_arguments(args) }
            } else if text::same(name, "gc") {
                Command::GarbageCollect {
                    target_size_bytes: read_argument(args, "target-size-bytes"),
                }
            } else {
                Command::Unimplemented
            }
        },
        _ => Command::Unimplemented,
    }
}

/// The command line that the argument parser found.
pub fn read_request(matches: &clap::ArgMatches<'_>) -> (r: Request)
    ensures
        r@ == request_of(held_values(*matches), held_subcommands(*matches)),
{
    Request {
        local_store_path: read_argument(matches, "local-store-path"),
        server_address: read_argument(matches, "server-address"),
        chunk_bytes: read_argument(matches, "chunk-bytes"),
        root_ca_cert_file: read_argument(matches, "root-ca-cert-file"),
        oauth_bearer_token_file: read_argument(matches, "oauth-bearer-token-file"),
        remote_instance_name: read_argument(matches, "remote-instance-name"),
        command: read_command(matches),
    }
}

/// Whether an argument of this name is read as this: as its first value, or as
/// absent where it is not there or has no value.
pub open spec fn reads_as(values: Values, name: Seq<char>, argument: ArgumentView) -> bool {
    match argument {
        None => !values.contains_key(name) || values[name] =~= seq![],
        Some(value) => values.contains_key(name) && values[name].len() > 0 && values[name].first()
            == value,
    }
}

/// Every option is read from the argument of its name on the top level, and
/// from no other, whatever the command.
pub proof fn law_options_are_read(values: Values, chain: Seq<(Seq<char>, Values)>)
    ensures
        reads_as(values, "local-store-path"@, request_of(values, chain).local_store_path),
        reads_as(values, "server-address"@, request_of(values, chain).server_address),
        reads_as(values, "chunk-bytes"@, request_of(values, chain).chunk_bytes),
        reads_as(values, "root-ca-cert-file"@, request_of(values, chain).root_ca_cert_file),
        reads_as(
            values,
            "oauth-bearer-token-file"@,
            request_of(values, chain).oauth_bearer_token_file,
        ),
        reads_as(values, "remote-instance-name"@, request_of(values, chain).remote_instance_name),
        request_of(values, chain).command == command_of(chain),
{
}

/// Whether two arguments are read as an address.
pub open spec fn reads_as_address(values: Values, digest: DigestArgumentsView) -> bool {
    &&& reads_as(values, "fingerprint"@, digest.fingerprint)
    &&& reads_as(values, "size_bytes"@, digest.size_bytes)
}

/// Whether a chain of subcommands begins with these two.
pub open spec fn begins_with(
    chain: Seq<(Seq<char>, Values)>,
    first: Seq<char>,
    second: Seq<char>,
) -> bool {
    chain.len() >= 2 && chain[0].0 == first && chain[1].0 == second
}

/// A command is the one that the names of the subcommands say, and each of its
/// arguments is read from the argument of its name on the level of the last of
/// them. A chain of other names is no command.
pub proof fn law_commands_are_read(chain: Seq<(Seq<char>, Values)>)
    ensures
        match command_of(chain) {
            CommandView::FileCat { digest } => {
                &&& begins_with(chain, "file"@, "cat"@)
                &&& reads_as_address(chain[1].1, digest)
            },
            CommandView::FileSave { path, output_mode } => {
                &&& begins_with(chain, "file"@, "save"@)
                &&& reads_as(chain[1].1, "path"@, path)
                &&& reads_as(chain[1].1, "output-mode"@, output_mode)
            },
            CommandView::DirectoryMaterialize { destination, digest } => {
                &&& begins_with(chain, "directory"@, "materialize"@)
                &&& reads_as(chain[1].1, "destination"@, destination)
                &&& reads_as_address(chain[1].1, digest)
            },
            CommandView::DirectorySave { root, globs, output_mode } => {
                &&& begins_with(chain, "directory"@, "save"@)
                &&& reads_as(chain[1].1, "root"@, root)
                &&& match globs {
                    None => !chain[1].1.contains_key("globs"@),
                    Some(list) => chain[1].1.contains_pair("globs"@, list),
                }
                &&& reads_as(chain[1].1, "output-mode"@, output_mode)
            },
            CommandView::DirectoryCatProto { digest, output_format } => {
                &&& begins_with(chain, "directory"@, "cat-proto"@)
                &&& reads_as_address(chain[1].1, digest)
                &&& reads_as(chain[1].1, "output-format"@, output_format)
            },
            CommandView::Cat { digest } => {
                &&& chain.len() > 0
                &&& chain[0].0 == "cat"@
                &&& reads_as_address(chain[0].1, digest)
            },
            CommandView::GarbageCollect { target_size_bytes } => {
                &&& chain.len() > 0
                &&& chain[0].0 == "gc"@
                &&& reads_as(chain[0].1, "target-size-bytes"@, target_size_bytes)
            },
            CommandView::Unimplemented => {
                &&& !begins_with(chain, "file"@, "cat"@)
                &&& !begins_with(chain, "file"@, "save"@)
                &&& !begins_with(chain, "directory"@, "materialize"@)
                &&& !begins_with(chain, "directory"@, "save"@)
                &&& !begins_with(chain, "directory"@, "cat-proto"@)
                &&& chain.len() > 0 ==> chain[0].0 != "cat"@ && chain[0].0 != "gc"@
            },
        },
{
    reveal_strlit("file");
    reveal_strlit("directory");
    reveal_strlit("cat");
    reveal_strlit("gc");
    reveal_strlit("save");
    reveal_strlit("materialize");
    reveal_strlit("cat-proto");
    assert("gc"@.len() < "cat"@.len() < "file"@.len() < "directory"@.len());
    assert("cat"@.len() < "save"@.len() < "cat-proto"@.len() < "materialize"@.len());
    if chain.len() >= 2 {
        assert(chain.drop_first()[0] == chain[1]);
    }
}

} // verus!
