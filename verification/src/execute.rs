//! Running the tool: it asks for one thing to be done outside after the other,
//! and decides by each reply what comes next.

use vstd::prelude::*;
use vstd::utf8::encode_utf8;

use crate::args::globs_of;
use crate::args::held_subcommands;
use crate::args::held_values;
use crate::args::read_request;
use crate::args::request_of;
use crate::args::Argument;
use crate::args::ArgumentView;
use crate::args::Command;
use crate::args::CommandView;
use crate::args::DigestArguments;
use crate::args::DigestArgumentsView;
use crate::args::Request;
use crate::args::RequestView;
use crate::digest::Digest;
use crate::digest::DigestView;
use crate::execution::Defect;
use crate::execution::Execution;
use crate::execution::ExecutionView;
use crate::execution::Missing;
use crate::execution::Next;
use crate::execution::NextView;
use crate::execution::Outcome;
use crate::execution::OutcomeView;
use crate::execution::Purpose;
use crate::execution::PurposeView;
use crate::execution::Saving;
use crate::execution::SavingView;
use crate::execution::Setup;
use crate::execution::SetupView;
use crate::exit::ExitCode;
use crate::exit::ExitError;
use crate::exit::ExitErrorView;
use crate::listing;
use crate::listing::listing_from;
use crate::listing::ExpandStep;
use crate::listing::ExpandStepView;
use crate::order::texts;
use crate::protocol::OpenFailure;
use crate::protocol::OpenFailureView;
use crate::protocol::Query;
use crate::protocol::QueryView;
use crate::protocol::Reply;
use crate::protocol::ReplyView;
use crate::protocol::SnapshotFailure;
use crate::protocol::SnapshotFailureView;
use crate::protocol::Stat;
use crate::protocol::StatView;
use crate::report;
use crate::report::summary_output;
use crate::report::Output;
use crate::report::OutputView;
use crate::report::SummaryWithDigest;
use crate::report::SummaryWithDigestView;
use crate::store::bytes_of;
use crate::store::text_of;
use crate::store::RemoteOptions;
use crate::store::RemoteOptionsView;
use crate::store::StoreOptions;
use crate::store::StoreOptionsView;
use crate::store::REMOTE_THREADS;
use crate::store::REMOTE_TIMEOUT_SECONDS;
use crate::text;
use crate::text::lines;
use crate::text::number;
use crate::text::occurs_in;
use crate::text::quoted;
use crate::text::quoted_path;

verus! {

// ---- How a run ends ----

/// The end of a run that fails for a reason that has no status of its own.
pub open spec fn fails<S>(message: Seq<char>) -> NextView<S> {
    NextView::Finish(
        OutcomeView::Failure(ExitErrorView { message, code: ExitCode::UnknownError }),
    )
}

/// The end of a run that finds that something does not exist.
pub open spec fn not_found<S>(message: Seq<char>) -> NextView<S> {
    NextView::Finish(OutcomeView::Failure(ExitErrorView { message, code: ExitCode::NotFound }))
}

/// The end of a run on a command line that the tool was not made for.
pub open spec fn breaks_off<S>(defect: Defect) -> NextView<S> {
    NextView::Finish(OutcomeView::Defect(defect))
}

/// The end of a run because something failed that it counts on.
pub open spec fn breaks_down<S>(message: Seq<char>) -> NextView<S> {
    NextView::Finish(OutcomeView::Breakdown(message))
}

/// The end of a run that prints something and succeeds.
pub open spec fn prints<S>(output: OutputView<S>) -> NextView<S> {
    NextView::Finish(OutcomeView::Success(output))
}

fn fail<S>(message: String) -> (r: Next<S>)
    ensures
        r@ == fails::<S>(message@),
{
    Next::Finish(Outcome::Failure(ExitError::from(message)))
}

fn break_off<S>(defect: Defect) -> (r: Next<S>)
    ensures
        r@ == breaks_off::<S>(defect),
{
    Next::Finish(Outcome::Defect(defect))
}

fn break_down<S>(what: &str, reason: String) -> (r: Next<S>)
    ensures
        r@ == breaks_down::<S>(what@ + reason@),
{
    Next::Finish(Outcome::Breakdown(text::join(what, reason.as_str())))
}

fn print<S>(output: Output<S>) -> (r: Next<S>)
    ensures
        r@ == prints(output@),
{
    Next::Finish(Outcome::Success(output))
}

// ---- Arguments ----

/// The text of an argument that the tool cannot do without.
pub open spec fn required(argument: ArgumentView) -> Result<Seq<char>, Defect> {
    match argument {
        None => Err(Defect::MissingArgument),
        Some(None) => Err(Defect::NotUnicode),
        Some(Some(text)) => Ok(text),
    }
}

/// The text of an argument that may be absent.
pub open spec fn optional(argument: ArgumentView) -> Result<Option<Seq<char>>, Defect> {
    match argument {
        None => Ok(None),
        Some(None) => Err(Defect::NotUnicode),
        Some(Some(text)) => Ok(Some(text)),
    }
}

/// The globs of an argument that the tool cannot do without.
pub open spec fn required_globs(globs: Option<Seq<Option<Seq<char>>>>) -> Result<
    Seq<Seq<char>>,
    Defect,
> {
    match globs {
        None => Err(Defect::MissingArgument),
        Some(list) => if forall|i: int| 0 <= i < list.len() ==> #[trigger] list[i] is Some {
            Ok(list.map_values(|glob: Option<Seq<char>>| glob->0))
        } else {
            Err(Defect::NotUnicode)
        },
    }
}

fn require(argument: Argument) -> (r: Result<String, Defect>)
    ensures
        match r {
            Ok(text) => required(argument@) == Ok::<Seq<char>, Defect>(text@),
            Err(defect) => required(argument@) == Err::<Seq<char>, Defect>(defect),
        },
{
    match argument {
        Argument::Absent => Err(Defect::MissingArgument),
        Argument::NotUnicode => Err(Defect::NotUnicode),
        Argument::Text(text) => Ok(text),
    }
}

fn allow(argument: Argument) -> (r: Result<Option<String>, Defect>)
    ensures
        match r {
            Ok(text) => optional(argument@) == Ok::<Option<Seq<char>>, Defect>(text_of(text)),
            Err(defect) => optional(argument@) == Err::<Option<Seq<char>>, Defect>(defect),
        },
{
    match argument {
        Argument::Absent => Ok(None),
        Argument::NotUnicode => Err(Defect::NotUnicode),
        Argument::Text(text) => Ok(Some(text)),
    }
}

fn require_globs(globs: Option<Vec<Option<String>>>) -> (r: Result<Vec<String>, Defect>)
    ensures
        match r {
            Ok(list) => required_globs(globs_of(globs)) == Ok::<
                Seq<Seq<char>>,
                Defect,
            >(texts(list@)),
            Err(defect) => required_globs(globs_of(globs)) == Err::<
                Seq<Seq<char>>,
                Defect,
            >(defect),
        },
{
    match globs {
        None => Err(Defect::MissingArgument),
        Some(list) => {
            let ghost all = list@.map_values(|v: Option<String>| text_of(v));
            let mut found: Vec<String> = Vec::new();
            let mut i: usize = 0;
            while i < list.len()
                invariant
                    i <= list.len(),
                    i == found.len(),
                    globs_of(globs) == Some(all),
                    all == list@.map_values(|v: Option<String>| text_of(v)),
                    forall|k: int| 0 <= k < i ==> #[trigger] all[k] == Some(found@[k]@),
                decreases list.len() - i,
            {
                assert(all[i as int] == text_of(list@[i as int]));
                match &list[i] {
                    None => {
                        assert(!(all[i as int] is Some));
                        return Err(Defect::NotUnicode);
                    },
                    Some(glob) => {
                        found.push(glob.clone());
                    },
                }
                i = i + 1;
            }
            assert(texts(found@) =~= all.map_values(|glob: Option<Seq<char>>| glob->0));
            Ok(found)
        },
    }
}

// ---- Opening the store ----

/// The step of a run that has the command line, and nothing else.
pub open spec fn started<S>(request: RequestView) -> NextView<S> {
    match optional(request.local_store_path) {
        Err(defect) => breaks_off(defect),
        Ok(directory) => match optional(request.server_address) {
            Err(defect) => breaks_off(defect),
            Ok(None) => NextView::Ask {
                query: QueryView::OpenStore(StoreOptionsView { directory, remote: None }),
                rest: ExecutionView::Opening {
                    directory,
                    has_remote: false,
                    command: request.command,
                },
            },
            Ok(Some(address)) => match chunk_size(request.chunk_bytes) {
                Err(defect) => breaks_off(defect),
                Ok(chunk_bytes) => certificates_needed(
                    SetupView {
                        directory,
                        address,
                        chunk_bytes,
                        remote_instance_name: request.remote_instance_name,
                        command: request.command,
                    },
                    request.root_ca_cert_file,
                    request.oauth_bearer_token_file,
                ),
            },
        },
    }
}

/// How many bytes are uploaded at a time.
pub open spec fn chunk_size(argument: ArgumentView) -> Result<usize, Defect> {
    match argument {
        None => Err(Defect::BadChunkBytes),
        Some(None) => Err(Defect::NotUnicode),
        Some(Some(text)) => match number(text) {
            None => Err(Defect::BadChunkBytes),
            Some(n) => Ok(n),
        },
    }
}

/// The step of a run that may need certificates for the remote store.
pub open spec fn certificates_needed<S>(
    setup: SetupView,
    file: ArgumentView,
    token_file: ArgumentView,
) -> NextView<S> {
    match optional(file) {
        Err(defect) => breaks_off(defect),
        Ok(None) => token_needed(setup, None, token_file),
        Ok(Some(path)) => NextView::Ask {
            query: QueryView::ReadCertificates { path },
            rest: ExecutionView::Certificates { setup, token_file, path },
        },
    }
}

/// The step of a run that may need a token for the remote store.
pub open spec fn token_needed<S>(
    setup: SetupView,
    certificates: Option<Seq<u8>>,
    file: ArgumentView,
) -> NextView<S> {
    match optional(file) {
        Err(defect) => breaks_off(defect),
        Ok(None) => remote_known(setup, certificates, None),
        Ok(Some(path)) => NextView::Ask {
            query: QueryView::ReadToken { path },
            rest: ExecutionView::Token { setup, certificates, path },
        },
    }
}

/// The step of a run that knows all that it takes to reach the remote store.
pub open spec fn remote_known<S>(
    setup: SetupView,
    certificates: Option<Seq<u8>>,
    token: Option<Seq<char>>,
) -> NextView<S> {
    match optional(setup.remote_instance_name) {
        Err(defect) => breaks_off(defect),
        Ok(instance_name) => NextView::Ask {
            query: QueryView::OpenStore(
                StoreOptionsView {
                    directory: setup.directory,
                    remote: Some(
                        RemoteOptionsView {
                            address: setup.address,
                            instance_name,
                            root_ca_certs: certificates,
                            oauth_bearer_token: token,
                            threads: REMOTE_THREADS,
                            chunk_bytes: setup.chunk_bytes,
                            timeout_seconds: REMOTE_TIMEOUT_SECONDS,
                        },
                    ),
                },
            ),
            rest: ExecutionView::Opening {
                directory: setup.directory,
                has_remote: true,
                command: setup.command,
            },
        },
    }
}

fn read_chunk_size(argument: Argument) -> (r: Result<usize, Defect>)
    ensures
        r == chunk_size(argument@),
{
    match argument {
        Argument::Absent => Err(Defect::BadChunkBytes),
        Argument::NotUnicode => Err(Defect::NotUnicode),
        Argument::Text(text) => match text::parse_number(text.as_str()) {
            None => Err(Defect::BadChunkBytes),
            Some(n) => Ok(n),
        },
    }
}

fn need_certificates<S>(setup: Setup, file: Argument, token_file: Argument) -> (r: Next<S>)
    ensures
        r@ == certificates_needed::<S>(setup@, file@, token_file@),
{
    match allow(file) {
        Err(defect) => break_off(defect),
        Ok(None) => need_token(setup, None, token_file),
        Ok(Some(path)) => Next::Ask {
            query: Query::ReadCertificates { path: path.clone() },
            rest: Execution::Certificates { setup, token_file, path },
        },
    }
}

fn need_token<S>(setup: Setup, certificates: Option<Vec<u8>>, file: Argument) -> (r: Next<S>)
    ensures
        r@ == token_needed::<S>(setup@, bytes_of(certificates), file@),
{
    match allow(file) {
        Err(defect) => break_off(defect),
        Ok(None) => know_remote(setup, certificates, None),
        Ok(Some(path)) => Next::Ask {
            query: Query::ReadToken { path: path.clone() },
            rest: Execution::Token { setup, certificates, path },
        },
    }
}

fn copy_text(text: &Option<String>) -> (r: Option<String>)
    ensures
        text_of(r) == text_of(*text),
{
    match text {
        Some(t) => Some(t.clone()),
        None => None,
    }
}

fn know_remote<S>(
    setup: Setup,
    certificates: Option<Vec<u8>>,
    token: Option<String>,
) -> (r: Next<S>)
    ensures
        r@ == remote_known::<S>(setup@, bytes_of(certificates), text_of(token)),
{
    match allow(setup.remote_instance_name) {
        Err(defect) => break_off(defect),
        Ok(instance_name) => {
            let remote = RemoteOptions {
                address: setup.address,
                instance_name,
                root_ca_certs: certificates,
                oauth_bearer_token: token,
                threads: REMOTE_THREADS,
                chunk_bytes: setup.chunk_bytes,
                timeout_seconds: REMOTE_TIMEOUT_SECONDS,
            };
            Next::Ask {
                query: Query::OpenStore(
                    StoreOptions { directory: copy_text(&setup.directory), remote: Some(remote) },
                ),
                rest: Execution::Opening {
                    directory: setup.directory,
                    has_remote: true,
                    command: setup.command,
                },
            }
        },
    }
}

/// Starts a run on the command line that the argument parser found.
pub fn execute<S>(top_match: &clap::ArgMatches<'_>) -> (r: Next<S>)
    ensures
        r@ == started::<S>(request_of(held_values(*top_match), held_subcommands(*top_match))),
{
    start(read_request(top_match))
}

/// Starts a run on a command line.
pub fn start<S>(request: Request) -> (r: Next<S>)
    ensures
        r@ == started::<S>(request@),
{
    let directory = match allow(request.local_store_path) {
        Err(defect) => {
            return break_off(defect);
        },
        Ok(directory) => directory,
    };
    match allow(request.server_address) {
        Err(defect) => break_off(defect),
        Ok(None) => Next::Ask {
            query: Query::OpenStore(
                StoreOptions { directory: copy_text(&directory), remote: None },
            ),
            rest: Execution::Opening { directory, has_remote: false, command: request.command },
        },
        Ok(Some(address)) => match read_chunk_size(request.chunk_bytes) {
            Err(defect) => break_off(defect),
            Ok(chunk_bytes) => need_certificates(
                Setup {
                    directory,
                    address,
                    chunk_bytes,
                    remote_instance_name: request.remote_instance_name,
                    command: request.command,
                },
                request.root_ca_cert_file,
                request.oauth_bearer_token_file,
            ),
        },
    }
}

// ---- Commands ----

/// The step of a run whose store is open.
pub open spec fn opened<S>(command: CommandView, has_remote: bool) -> NextView<S> {
    match command {
        CommandView::FileCat { digest } => digest_needed(digest, PurposeView::FileCat),
        CommandView::FileSave { path, output_mode } => match required(path) {
            Err(defect) => breaks_off(defect),
            Ok(path) => NextView::Ask {
                query: QueryView::FindParent { path },
                rest: ExecutionView::FindParent {
                    path,
                    saving: SavingView { output_mode, has_remote },
                },
            },
        },
        CommandView::DirectoryMaterialize { destination, digest } => match required(destination) {
            Err(defect) => breaks_off(defect),
            Ok(destination) => digest_needed(digest, PurposeView::Materialize { destination }),
        },
        CommandView::DirectorySave { root, globs, output_mode } => match required(root) {
            Err(defect) => breaks_off(defect),
            Ok(root) => match required_globs(globs) {
                Err(defect) => breaks_off(defect),
                Ok(globs) => NextView::Ask {
                    query: directory_query(root, globs),
                    rest: ExecutionView::SaveDirectory {
                        saving: SavingView { output_mode, has_remote },
                    },
                },
            },
        },
        CommandView::DirectoryCatProto { digest, output_format } => digest_needed(
            digest,
            PurposeView::CatProto { output_format },
        ),
        CommandView::Cat { digest } => digest_needed(digest, PurposeView::Cat),
        CommandView::GarbageCollect { target_size_bytes } => match target_size(target_size_bytes) {
            Err(defect) => breaks_off(defect),
            Ok(target_size_bytes) => NextView::Ask {
                query: QueryView::CollectGarbage { target_size_bytes, compact: true },
                rest: ExecutionView::GarbageCollect,
            },
        },
        CommandView::Unimplemented => breaks_off(Defect::Unimplemented),
    }
}

/// The query that saves what the globs match below the root: every glob is
/// taken, nothing is left out, and a glob that matches nothing is passed over.
pub open spec fn directory_query(root: Seq<char>, globs: Seq<Seq<char>>) -> QueryView {
    QueryView::SaveDirectory {
        root,
        globs,
        excluded: Seq::empty(),
        ignore_unmatched: true,
        take_all: true,
    }
}

/// The size that the store is to be shrunk to.
pub open spec fn target_size(argument: ArgumentView) -> Result<usize, Defect> {
    match argument {
        None => Err(Defect::BadTargetSize),
        Some(None) => Err(Defect::NotUnicode),
        Some(Some(text)) => match number(text) {
            None => Err(Defect::BadTargetSize),
            Some(n) => Ok(n),
        },
    }
}

/// The step of a run that is given an address as arguments.
pub open spec fn digest_needed<S>(digest: DigestArgumentsView, purpose: PurposeView) -> NextView<
    S,
> {
    match required(digest.fingerprint) {
        Err(defect) => breaks_off(defect),
        Ok(text) => NextView::Ask {
            query: QueryView::ParseFingerprint { text },
            rest: ExecutionView::Fingerprint { size_bytes: digest.size_bytes, purpose },
        },
    }
}

/// The size of a blob, as an argument gives it.
pub open spec fn blob_size(argument: ArgumentView) -> Result<usize, Defect> {
    match required(argument) {
        Err(defect) => Err(defect),
        Ok(text) => match number(text) {
            None => Err(Defect::BadSizeBytes),
            Some(n) => Ok(n),
        },
    }
}

/// The step of a run that knows an address.
pub open spec fn digest_known<S>(purpose: PurposeView, digest: DigestView) -> NextView<S> {
    match purpose {
        PurposeView::FileCat => NextView::Ask {
            query: QueryView::LoadFile { digest },
            rest: ExecutionView::FileCat { digest },
        },
        PurposeView::Materialize { destination } => NextView::Ask {
            query: QueryView::Materialize { destination, digest },
            rest: ExecutionView::Materialize,
        },
        PurposeView::CatProto { output_format } => match required(output_format) {
            Err(defect) => breaks_off(defect),
            Ok(format) => if format == "binary"@ {
                NextView::Ask {
                    query: QueryView::LoadDirectoryBytes { digest },
                    rest: ExecutionView::CatProtoBytes { digest },
                }
            } else if format == "text"@ {
                NextView::Ask {
                    query: QueryView::LoadDirectoryText { digest },
                    rest: ExecutionView::CatProtoText { digest },
                }
            } else if format == "recursive-file-list"@ {
                listing_step(digest, listing_from(digest))
            } else {
                fails("Unexpected value of --output-format arg: "@ + format)
            },
        },
        PurposeView::Cat => NextView::Ask {
            query: QueryView::LoadFile { digest },
            rest: ExecutionView::CatFile { digest },
        },
    }
}

/// The step of a run that lists the files below the directory at this address.
pub open spec fn listing_step<S>(digest: DigestView, step: ExpandStepView) -> NextView<S> {
    match step {
        ExpandStepView::Load { digest: wanted, rest } => NextView::Ask {
            query: QueryView::LoadDirectory { digest: wanted },
            rest: ExecutionView::CatProtoList { digest, expansion: rest },
        },
        ExpandStepView::Done(Err(message)) => fails(message),
        ExpandStepView::Done(Ok(None)) => missing(Missing::Directory, digest),
        ExpandStepView::Done(Ok(Some(paths))) => prints(
            OutputView::Stdout(encode_utf8(lines(paths))),
        ),
    }
}

/// The step of a run that finds that the store lacks what a digest addresses.
pub open spec fn missing<S>(missing: Missing, digest: DigestView) -> NextView<S> {
    NextView::Ask {
        query: QueryView::DescribeDigest { digest },
        rest: ExecutionView::Describe { missing },
    }
}

/// The message that says what the store lacks.
pub open spec fn missing_message(missing: Missing, description: Seq<char>) -> Seq<char> {
    match missing {
        Missing::File => "File with digest "@ + description + " not found"@,
        Missing::Directory => "Directory with digest "@ + description + " not found"@,
        Missing::Either => "Digest "@ + description + " not found"@,
    }
}

/// The step of a run that has saved something.
pub open spec fn saved<S>(saving: SavingView, digest: DigestView) -> NextView<S> {
    if saving.has_remote {
        NextView::Ask {
            query: QueryView::EnsureUploaded { digest },
            rest: ExecutionView::Upload { digest, output_mode: saving.output_mode },
        }
    } else {
        reported(saving.output_mode, SummaryWithDigestView { digest, summary: None })
    }
}

/// The step of a run that has something saved to report.
pub open spec fn reported<S>(
    output_mode: ArgumentView,
    report: SummaryWithDigestView<S>,
) -> NextView<S> {
    match optional(output_mode) {
        Err(defect) => breaks_off(defect),
        Ok(mode) => prints(summary_output(mode, report)),
    }
}

fn need_digest<S>(digest: DigestArguments, purpose: Purpose) -> (r: Next<S>)
    ensures
        r@ == digest_needed::<S>(digest@, purpose@),
{
    match require(digest.fingerprint) {
        Err(defect) => break_off(defect),
        Ok(text) => Next::Ask {
            query: Query::ParseFingerprint { text },
            rest: Execution::Fingerprint { size_bytes: digest.size_bytes, purpose },
        },
    }
}

fn read_blob_size(argument: Argument) -> (r: Result<usize, Defect>)
    ensures
        r == blob_size(argument@),
{
    match require(argument) {
        Err(defect) => Err(defect),
        Ok(text) => match text::parse_number(text.as_str()) {
            None => Err(Defect::BadSizeBytes),
            Some(n) => Ok(n),
        },
    }
}

fn read_target_size(argument: Argument) -> (r: Result<usize, Defect>)
    ensures
        r == target_size(argument@),
{
    match argument {
        Argument::Absent => Err(Defect::BadTargetSize),
        Argument::NotUnicode => Err(Defect::NotUnicode),
        Argument::Text(text) => match text::parse_number(text.as_str()) {
            None => Err(Defect::BadTargetSize),
            Some(n) => Ok(n),
        },
    }
}

fn open<S>(command: Command, has_remote: bool) -> (r: Next<S>)
    ensures
        r@ == opened::<S>(command@, has_remote),
{
    match command {
        Command::FileCat { digest } => need_digest(digest, Purpose::FileCat),
        Command::FileSave { path, output_mode } => match require(path) {
            Err(defect) => break_off(defect),
            Ok(path) => Next::Ask {
                query: Query::FindParent { path: path.clone() },
                rest: Execution::FindParent { path, saving: Saving { output_mode, has_remote } },
            },
        },
        Command::DirectoryMaterialize { destination, digest } => match require(destination) {
            Err(defect) => break_off(defect),
            Ok(destination) => need_digest(digest, Purpose::Materialize { destination }),
        },
        Command::DirectorySave { root, globs, output_mode } => match require(root) {
            Err(defect) => break_off(defect),
            Ok(root) => match require_globs(globs) {
                Err(defect) => break_off(defect),
                Ok(globs) => {
                    let excluded: Vec<String> = Vec::new();
                    assert(texts(excluded@) =~= Seq::empty());
                    Next::Ask {
                        query: Query::SaveDirectory {
                            root,
                            globs,
                            excluded,
                            ignore_unmatched: true,
                            take_all: true,
                        },
                        rest: Execution::SaveDirectory {
                            saving: Saving { output_mode, has_remote },
                        },
                    }
                },
            },
        },
        Command::DirectoryCatProto { digest, output_format } => need_digest(
            digest,
            Purpose::CatProto { output_format },
        ),
        Command::Cat { digest } => need_digest(digest, Purpose::Cat),
        Command::GarbageCollect { target_size_bytes } => match read_target_size(
            target_size_bytes,
        ) {
            Err(defect) => break_off(defect),
            Ok(target_size_bytes) => Next::Ask {
                query: Query::CollectGarbage { target_size_bytes, compact: true },
                rest: Execution::GarbageCollect,
            },
        },
        Command::Unimplemented => break_off(Defect::Unimplemented),
    }
}

fn know_digest<S>(purpose: Purpose, digest: Digest) -> (r: Next<S>)
    ensures
        r@ == digest_known::<S>(purpose@, digest@),
{
    match purpose {
        Purpose::FileCat => Next::Ask {
            query: Query::LoadFile { digest: digest.clone() },
            rest: Execution::FileCat { digest },
        },
        Purpose::Materialize { destination } => Next::Ask {
            query: Query::Materialize { destination, digest },
            rest: Execution::Materialize,
        },
        Purpose::CatProto { output_format } => match require(output_format) {
            Err(defect) => break_off(defect),
            Ok(format) => {
                if text::same(format.as_str(), "binary") {
                    Next::Ask {
                        query: Query::LoadDirectoryBytes { digest: digest.clone() },
                        rest: Execution::CatProtoBytes { digest },
                    }
                } else if text::same(format.as_str(), "text") {
                    Next::Ask {
                        query: Query::LoadDirectoryText { digest: digest.clone() },
                        rest: Execution::CatProtoText { digest },
                    }
                } else if text::same(format.as_str(), "recursive-file-list") {
                    let step = listing::expand_files(digest.clone());
                    list_step(digest, step)
                } else {
                    fail(text::join("Unexpected value of --output-format arg: ", format.as_str()))
                }
            },
        },
        Purpose::Cat => Next::Ask {
            query: Query::LoadFile { digest: digest.clone() },
            rest: Execution::CatFile { digest },
        },
    }
}

fn list_step<S>(digest: Digest, step: ExpandStep) -> (r: Next<S>)
    ensures
        r@ == listing_step::<S>(digest@, step@),
{
    match step {
        ExpandStep::Load { digest: wanted, rest } => Next::Ask {
            query: Query::LoadDirectory { digest: wanted },
            rest: Execution::CatProtoList { digest, expansion: rest },
        },
        ExpandStep::Done(Err(message)) => fail(message),
        ExpandStep::Done(Ok(None)) => miss(Missing::Directory, digest),
        ExpandStep::Done(Ok(Some(paths))) => print(
            Output::Stdout(text::join_lines(&paths).as_str().as_bytes_vec()),
        ),
    }
}

fn miss<S>(what: Missing, digest: Digest) -> (r: Next<S>)
    ensures
        r@ == missing::<S>(what, digest@),
{
    Next::Ask {
        query: Query::DescribeDigest { digest },
        rest: Execution::Describe { missing: what },
    }
}

/// Goes on with what was saved: it is uploaded where there is a remote store,
/// and reported.
pub fn ensure_uploaded_to_remote<S>(saving: Saving, digest: Digest) -> (r: Next<S>)
    ensures
        r@ == saved::<S>(saving@, digest@),
{
    if saving.has_remote {
        Next::Ask {
            query: Query::EnsureUploaded { digest: digest.clone() },
            rest: Execution::Upload { digest, output_mode: saving.output_mode },
        }
    } else {
        report(saving.output_mode, SummaryWithDigest { digest, summary: None })
    }
}

fn report<S>(output_mode: Argument, summary: SummaryWithDigest<S>) -> (r: Next<S>)
    ensures
        r@ == reported(output_mode@, summary@),
{
    match allow(output_mode) {
        Err(defect) => break_off(defect),
        Ok(None) => print(report::print_upload_summary(None, summary)),
        Ok(Some(mode)) => print(report::print_upload_summary(Some(mode.as_str()), summary)),
    }
}

// ---- Replies ----

/// The step of a run that gets a reply.
pub open spec fn resumed<S>(run: ExecutionView, reply: ReplyView<S>) -> NextView<S> {
    match (run, reply) {
        (ExecutionView::Certificates { setup, token_file, path }, ReplyView::Contents(read)) =>
            match read {
                Ok(bytes) => token_needed(setup, Some(bytes), token_file),
                Err(reason) => fails("Error reading root CA certs file "@ + path + ": "@ + reason),
            },
        (ExecutionView::Token { setup, certificates, path }, ReplyView::Token(read)) => match read {
            Ok(token) => remote_known(setup, certificates, Some(token)),
            Err(reason) => fails(
                "Error reading oauth bearer token from "@ + quoted(path) + ": "@ + reason,
            ),
        },
        (ExecutionView::Opening { directory, has_remote, command }, ReplyView::Opened(result)) =>
            match result {
                Ok(()) => opened(command, has_remote),
                Err(failure) => fails(not_opened_message(directory, failure)),
            },
        (ExecutionView::Fingerprint { size_bytes, purpose }, ReplyView::Fingerprint(parsed)) =>
            match parsed {
                Err(message) => fails(message),
                Ok(fingerprint) => match blob_size(size_bytes) {
                    Err(defect) => breaks_off(defect),
                    Ok(size_bytes) => digest_known(
                        purpose,
                        DigestView { fingerprint, size_bytes },
                    ),
                },
            },
        (ExecutionView::FileCat { digest }, ReplyView::Bytes(loaded)) => blob_loaded(
            loaded,
            missing(Missing::File, digest),
        ),
        (ExecutionView::Materialize, ReplyView::Finished(result)) => match result {
            Ok(()) => prints(OutputView::Nothing),
            Err(message) => if occurs_in("not found"@, message) {
                not_found(message)
            } else {
                fails(message)
            },
        },
        (ExecutionView::CatProtoBytes { digest }, ReplyView::Bytes(loaded)) => blob_loaded(
            loaded,
            missing(Missing::Directory, digest),
        ),
        (ExecutionView::CatProtoText { digest }, ReplyView::Text(loaded)) => match loaded {
            Err(message) => fails(message),
            Ok(None) => missing(Missing::Directory, digest),
            Ok(Some(description)) => prints(
                OutputView::Stdout(encode_utf8(description + "\n"@)),
            ),
        },
        (ExecutionView::CatProtoList { digest, expansion }, ReplyView::Directory(loaded)) =>
            listing_step(digest, expansion.with(loaded)),
        (ExecutionView::CatFile { digest }, ReplyView::Bytes(loaded)) => blob_loaded(
            loaded,
            NextView::Ask {
                query: QueryView::LoadDirectoryBytes { digest },
                rest: ExecutionView::CatDirectory { digest },
            },
        ),
        (ExecutionView::CatDirectory { digest }, ReplyView::Bytes(loaded)) => blob_loaded(
            loaded,
            missing(Missing::Either, digest),
        ),
        (ExecutionView::Describe { missing }, ReplyView::Description(description)) => not_found(
            missing_message(missing, description),
        ),
        (ExecutionView::FindParent { path, saving }, ReplyView::Parent(found)) => match found {
            Err(reason) => fails(
                "Error canonicalizing path "@ + quoted_path(path) + ": "@ + reason,
            ),
            Ok(false) => fails(
                "File being saved must have parent but "@ + quoted_path(path) + " did not"@,
            ),
            Ok(true) => NextView::Ask {
                query: QueryView::Stat { path },
                rest: ExecutionView::Stat { path, saving },
            },
        },
        (ExecutionView::Stat { path, saving }, ReplyView::Stat(stat)) => match stat {
            Ok(StatView::File) => NextView::Ask {
                query: QueryView::SaveFile { path },
                rest: ExecutionView::SaveFile { saving },
            },
            Ok(StatView::Other(description)) => fails(
                "Tried to save file "@ + quoted_path(path) + " but it was not a file, was a "@
                    + description,
            ),
            Err(reason) => breaks_down("Error looking at the file being saved: "@ + reason),
        },
        (ExecutionView::SaveFile { saving }, ReplyView::Saved(result)) => match result {
            Ok(digest) => saved(saving, digest),
            Err(reason) => breaks_down("Error storing the file being saved: "@ + reason),
        },
        (ExecutionView::SaveDirectory { saving }, ReplyView::Snapshot(result)) => match result {
            Ok(digest) => saved(saving, digest),
            Err(SnapshotFailureView::Globs(message)) => fails(message),
            Err(SnapshotFailureView::Root(reason)) => breaks_down(
                "Error opening the directory being saved: "@ + reason,
            ),
            Err(SnapshotFailureView::Expand(reason)) => fails("Error expanding globs: "@ + reason),
            Err(SnapshotFailureView::Store(message)) => fails(message),
        },
        (ExecutionView::Upload { digest, output_mode }, ReplyView::Uploaded(result)) =>
            match result {
                Ok(summary) => reported(
                    output_mode,
                    SummaryWithDigestView { digest, summary: Some(summary) },
                ),
                Err(reason) => breaks_down("Error uploading what was saved: "@ + reason),
            },
        (ExecutionView::GarbageCollect, ReplyView::Finished(result)) => match result {
            Ok(()) => prints(OutputView::Nothing),
            Err(message) => fails(message),
        },
        _ => breaks_off(Defect::Misanswered),
    }
}

/// The message that says why the store was not opened. It names the directory
/// that the command line gives, or else the default one.
pub open spec fn not_opened_message(
    directory: Option<Seq<char>>,
    failure: OpenFailureView,
) -> Seq<char> {
    let shown = match directory {
        Some(path) => quoted_path(path),
        None => failure.default_directory,
    };
    "Failed to open/create store for directory "@ + shown + ": "@ + failure.reason
}

/// The step of a run that loads a blob to print it.
pub open spec fn blob_loaded<S>(
    loaded: Result<Option<Seq<u8>>, Seq<char>>,
    otherwise: NextView<S>,
) -> NextView<S> {
    match loaded {
        Err(message) => fails(message),
        Ok(Some(bytes)) => prints(OutputView::Stdout(bytes)),
        Ok(None) => otherwise,
    }
}

fn fail_to_open<S>(directory: Option<String>, failure: OpenFailure) -> (r: Next<S>)
    ensures
        r@ == fails::<S>(not_opened_message(text_of(directory), failure@)),
{
    let shown = match directory {
        Some(path) => text::quote_path(path.as_str()),
        None => failure.default_directory,
    };
    fail(
        text::join4(
            "Failed to open/create store for directory ",
            shown.as_str(),
            ": ",
            failure.reason.as_str(),
        ),
    )
}

fn name_missing<S>(missing: Missing, description: String) -> (r: Next<S>)
    ensures
        r@ == not_found::<S>(missing_message(missing, description@)),
{
    let subject = match missing {
        Missing::File => "File with digest ",
        Missing::Directory => "Directory with digest ",
        Missing::Either => "Digest ",
    };
    let message = text::join3(subject, description.as_str(), " not found");
    Next::Finish(Outcome::Failure(ExitError(message, ExitCode::NotFound)))
}

fn find_parent<S>(path: String, saving: Saving, found: Result<bool, String>) -> (r: Next<S>)
    ensures
        r@ == resumed(
            ExecutionView::FindParent { path: path@, saving: saving@ },
            Reply::<S>::Parent(found)@,
        ),
{
    match found {
        Err(reason) => fail(
            text::join4(
                "Error canonicalizing path ",
                text::quote_path(path.as_str()).as_str(),
                ": ",
                reason.as_str(),
            ),
        ),
        Ok(false) => fail(
            text::join3(
                "File being saved must have parent but ",
                text::quote_path(path.as_str()).as_str(),
                " did not",
            ),
        ),
        Ok(true) => Next::Ask {
            query: Query::Stat { path: path.clone() },
            rest: Execution::Stat { path, saving },
        },
    }
}

impl Execution {
    /// Goes on with the reply to the query that the run asked last.
    pub fn resume<S>(self, reply: Reply<S>) -> (r: Next<S>)
        ensures
            r@ == resumed(self@, reply@),
    {
        match (self, reply) {
            (Execution::Certificates { setup, token_file, path }, Reply::Contents(read)) =>
                match read {
                    Ok(bytes) => need_token(setup, Some(bytes), token_file),
                    Err(reason) => fail(
                        text::join4(
                            "Error reading root CA certs file ",
                            path.as_str(),
                            ": ",
                            reason.as_str(),
                        ),
                    ),
                },
            (Execution::Token { setup, certificates, path }, Reply::Token(read)) => match read {
                Ok(token) => know_remote(setup, certificates, Some(token)),
                Err(reason) => fail(
                    text::join4(
                        "Error reading oauth bearer token from ",
                        text::quote(path.as_str()).as_str(),
                        ": ",
                        reason.as_str(),
                    ),
                ),
            },
            (Execution::Opening { directory, has_remote, command }, Reply::Opened(result)) =>
                match result {
                    Ok(()) => open(command, has_remote),
                    Err(failure) => fail_to_open(directory, failure),
                },
            (Execution::Fingerprint { size_bytes, purpose }, Reply::Fingerprint(parsed)) =>
                match parsed {
                    Err(message) => fail(message),
                    Ok(fingerprint) => match read_blob_size(size_bytes) {
                        Err(defect) => break_off(defect),
                        Ok(size_bytes) => know_digest(purpose, Digest { fingerprint, size_bytes }),
                    },
                },
            (Execution::FileCat { digest }, Reply::Bytes(loaded)) => match loaded {
                Err(message) => fail(message),
                Ok(Some(bytes)) => print(Output::Stdout(bytes)),
                Ok(None) => miss(Missing::File, digest),
            },
            (Execution::Materialize, Reply::Finished(result)) => match result {
                Ok(()) => print(Output::Nothing),
                Err(message) => {
                    if text::contains(message.as_str(), "not found") {
                        Next::Finish(Outcome::Failure(ExitError(message, ExitCode::NotFound)))
                    } else {
                        fail(message)
                    }
                },
            },
            (Execution::CatProtoBytes { digest }, Reply::Bytes(loaded)) => match loaded {
                Err(message) => fail(message),
                Ok(Some(bytes)) => print(Output::Stdout(bytes)),
                Ok(None) => miss(Missing::Directory, digest),
            },
            (Execution::CatProtoText { digest }, Reply::Text(loaded)) => match loaded {
                Err(message) => fail(message),
                Ok(None) => miss(Missing::Directory, digest),
                Ok(Some(description)) => print(
                    Output::Stdout(text::join(description.as_str(), "\n").as_str().as_bytes_vec()),
                ),
            },
            (Execution::CatProtoList { digest, expansion }, Reply::Directory(loaded)) => {
                let step = expansion.expand_files_helper(loaded);
                list_step(digest, step)
            },
            (Execution::CatFile { digest }, Reply::Bytes(loaded)) => match loaded {
                Err(message) => fail(message),
                Ok(Some(bytes)) => print(Output::Stdout(bytes)),
                Ok(None) => Next::Ask {
                    query: Query::LoadDirectoryBytes { digest: digest.clone() },
                    rest: Execution::CatDirectory { digest },
                },
            },
            (Execution::CatDirectory { digest }, Reply::Bytes(loaded)) => match loaded {
                Err(message) => fail(message),
                Ok(Some(bytes)) => print(Output::Stdout(bytes)),
                Ok(None) => miss(Missing::Either, digest),
            },
            (Execution::Describe { missing }, Reply::Description(description)) => name_missing(
                missing,
                description,
            ),
            (Execution::FindParent { path, saving }, Reply::Parent(found)) => find_parent(
                path,
                saving,
                found,
            ),
            (Execution::Stat { path, saving }, Reply::Stat(stat)) => match stat {
                Ok(Stat::File) => Next::Ask {
                    query: Query::SaveFile { path },
                    rest: Execution::SaveFile { saving },
                },
                Ok(Stat::Other(description)) => fail(
                    text::join4(
                        "Tried to save file ",
                        text::quote_path(path.as_str()).as_str(),
                        " but it was not a file, was a ",
                        description.as_str(),
                    ),
                ),
                Err(reason) => break_down("Error looking at the file being saved: ", reason),
            },
            (Execution::SaveFile { saving }, Reply::Saved(result)) => match result {
                Ok(digest) => ensure_uploaded_to_remote(saving, digest),
                Err(reason) => break_down("Error storing the file being saved: ", reason),
            },
            (Execution::SaveDirectory { saving }, Reply::Snapshot(result)) => match result {
                Ok(digest) => ensure_uploaded_to_remote(saving, digest),
                Err(SnapshotFailure::Globs(message)) => fail(message),
                Err(SnapshotFailure::Root(reason)) => break_down(
                    "Error opening the directory being saved: ",
                    reason,
                ),
                Err(SnapshotFailure::Expand(reason)) => fail(
                    text::join("Error expanding globs: ", reason.as_str()),
                ),
                Err(SnapshotFailure::Store(message)) => fail(message),
            },
            (Execution::Upload { digest, output_mode }, Reply::Uploaded(result)) => match result {
                Ok(summary) => report(
                    output_mode,
                    SummaryWithDigest { digest, summary: Some(summary) },
                ),
                Err(reason) => break_down("Error uploading what was saved: ", reason),
            },
            (Execution::GarbageCollect, Reply::Finished(result)) => match result {
                Ok(()) => print(Output::Nothing),
                Err(message) => fail(message),
            },
            _ => break_off(Defect::Misanswered),
        }
    }
}

} // verus!
