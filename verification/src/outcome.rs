//! What a run of the tool comes to, as a whole.

use vstd::prelude::*;
use vstd::utf8::encode_utf8;

use crate::args::ArgumentView;
use crate::args::CommandView;
use crate::args::DigestArgumentsView;
use crate::args::RequestView;
use crate::digest::DigestView;
use crate::execute::blob_size;
use crate::execute::chunk_size;
use crate::execute::digest_known;
use crate::execute::digest_needed;
use crate::execute::directory_query;
use crate::execute::listing_step;
use crate::execute::missing;
use crate::execute::missing_message;
use crate::execute::not_opened_message;
use crate::execute::opened;
use crate::execute::optional;
use crate::execute::remote_known;
use crate::execute::required;
use crate::execute::required_globs;
use crate::execute::resumed;
use crate::execute::saved;
use crate::execute::started;
use crate::execute::target_size;
use crate::execute::token_needed;
use crate::execution::Defect;
use crate::execution::ExecutionView;
use crate::execution::Missing;
use crate::execution::NextView;
use crate::execution::OutcomeView;
use crate::execution::PurposeView;
use crate::execution::SavingView;
use crate::execution::SetupView;
use crate::exit::ExitCode;
use crate::exit::ExitErrorView;
use crate::listing::listing_from;
use crate::listing::ExpandStepView;
use crate::listing::ListedView;
use crate::protocol::answers;
use crate::protocol::QueryView;
use crate::protocol::ReplyView;
use crate::protocol::SnapshotFailureView;
use crate::protocol::StatView;
use crate::report::summary_output;
use crate::report::OutputView;
use crate::report::SummaryWithDigestView;
use crate::store::RemoteOptionsView;
use crate::store::StoreOptionsView;
use crate::store::REMOTE_THREADS;
use crate::store::REMOTE_TIMEOUT_SECONDS;
use crate::text::lines;
use crate::text::occurs_in;
use crate::text::quoted;
use crate::text::quoted_path;
use crate::walk::law_listing_ends;
use crate::walk::listing_of;
use crate::walk::walk;
use crate::walk::Directories;

verus! {

/// What the world outside answers to each query.
pub type World<S> = spec_fn(QueryView) -> ReplyView<S>;

/// Whether the world answers every query with a reply to it.
pub open spec fn sensible<S>(world: World<S>) -> bool {
    forall|query: QueryView| answers(query, #[trigger] world(query))
}

/// How a run ends that is at `next` and asks at most `queries` queries, `None`
/// where it asks more.
pub open spec fn run<S>(world: World<S>, next: NextView<S>, queries: nat) -> Option<OutcomeView<S>>
    decreases queries,
{
    match next {
        NextView::Finish(outcome) => Some(outcome),
        NextView::Ask { query, rest } => if queries == 0 {
            None
        } else {
            run(world, resumed(rest, world(query)), (queries - 1) as nat)
        },
    }
}

/// Whether a run that is at `next` ends, and ends this way.
pub open spec fn ends_with<S>(world: World<S>, next: NextView<S>, outcome: OutcomeView<S>) -> bool {
    exists|queries: nat| #[trigger] run(world, next, queries) == Some(outcome)
}

/// A failure that has no status of its own.
pub open spec fn failure<S>(message: Seq<char>) -> OutcomeView<S> {
    OutcomeView::Failure(ExitErrorView { message, code: ExitCode::UnknownError })
}

/// A failure because something does not exist.
pub open spec fn absence<S>(message: Seq<char>) -> OutcomeView<S> {
    OutcomeView::Failure(ExitErrorView { message, code: ExitCode::NotFound })
}

/// What comes of the directory at each address in this world.
pub open spec fn directories_in<S>(world: World<S>) -> Directories {
    |digest: DigestView| world(QueryView::LoadDirectory { digest })->Directory_0
}

/// The certificates for the remote store, where the command line names a file
/// with them.
pub open spec fn certificates_in<S>(world: World<S>, file: ArgumentView) -> Result<
    Option<Seq<u8>>,
    OutcomeView<S>,
> {
    match optional(file) {
        Err(defect) => Err(OutcomeView::Defect(defect)),
        Ok(None) => Ok(None),
        Ok(Some(path)) => match world(QueryView::ReadCertificates { path })->Contents_0 {
            Ok(bytes) => Ok(Some(bytes)),
            Err(reason) => Err(
                failure("Error reading root CA certs file "@ + path + ": "@ + reason),
            ),
        },
    }
}

/// The token for the remote store, where the command line names a file with it.
pub open spec fn token_in<S>(world: World<S>, file: ArgumentView) -> Result<
    Option<Seq<char>>,
    OutcomeView<S>,
> {
    match optional(file) {
        Err(defect) => Err(OutcomeView::Defect(defect)),
        Ok(None) => Ok(None),
        Ok(Some(path)) => match world(QueryView::ReadToken { path })->Token_0 {
            Ok(token) => Ok(Some(token)),
            Err(reason) => Err(
                failure("Error reading oauth bearer token from "@ + quoted(path) + ": "@ + reason),
            ),
        },
    }
}

/// How to reach the remote store at this address.
pub open spec fn remote_in<S>(
    world: World<S>,
    request: RequestView,
    address: Seq<char>,
) -> Result<RemoteOptionsView, OutcomeView<S>> {
    match chunk_size(request.chunk_bytes) {
        Err(defect) => Err(OutcomeView::Defect(defect)),
        Ok(chunk_bytes) => match certificates_in(world, request.root_ca_cert_file) {
            Err(outcome) => Err(outcome),
            Ok(root_ca_certs) => match token_in(world, request.oauth_bearer_token_file) {
                Err(outcome) => Err(outcome),
                Ok(oauth_bearer_token) => match optional(request.remote_instance_name) {
                    Err(defect) => Err(OutcomeView::Defect(defect)),
                    Ok(instance_name) => Ok(
                        RemoteOptionsView {
                            address,
                            instance_name,
                            root_ca_certs,
                            oauth_bearer_token,
                            threads: REMOTE_THREADS,
                            chunk_bytes,
                            timeout_seconds: REMOTE_TIMEOUT_SECONDS,
                        },
                    ),
                },
            },
        },
    }
}

/// Which store the command line asks for: one with a remote store behind it if
/// and only if it gives the address of a server.
pub open spec fn options_in<S>(world: World<S>, request: RequestView) -> Result<
    StoreOptionsView,
    OutcomeView<S>,
> {
    match optional(request.local_store_path) {
        Err(defect) => Err(OutcomeView::Defect(defect)),
        Ok(directory) => match optional(request.server_address) {
            Err(defect) => Err(OutcomeView::Defect(defect)),
            Ok(None) => Ok(StoreOptionsView { directory, remote: None }),
            Ok(Some(address)) => match remote_in(world, request, address) {
                Err(outcome) => Err(outcome),
                Ok(remote) => Ok(StoreOptionsView { directory, remote: Some(remote) }),
            },
        },
    }
}

/// The digest that two arguments give.
pub open spec fn digest_in<S>(world: World<S>, arguments: DigestArgumentsView) -> Result<
    DigestView,
    OutcomeView<S>,
> {
    match required(arguments.fingerprint) {
        Err(defect) => Err(OutcomeView::Defect(defect)),
        Ok(text) => match world(QueryView::ParseFingerprint { text })->Fingerprint_0 {
            Err(message) => Err(failure(message)),
            Ok(fingerprint) => match blob_size(arguments.size_bytes) {
                Err(defect) => Err(OutcomeView::Defect(defect)),
                Ok(size_bytes) => Ok(DigestView { fingerprint, size_bytes }),
            },
        },
    }
}

/// The end of a run that finds that the store lacks what a digest addresses.
pub open spec fn lacking<S>(world: World<S>, what: Missing, digest: DigestView) -> OutcomeView<S> {
    absence(
        missing_message(what, world(QueryView::DescribeDigest { digest })->Description_0),
    )
}

/// The end of a run that prints a blob, `otherwise` where there is none.
pub open spec fn blob_outcome<S>(
    loaded: Result<Option<Seq<u8>>, Seq<char>>,
    otherwise: OutcomeView<S>,
) -> OutcomeView<S> {
    match loaded {
        Err(message) => failure(message),
        Ok(Some(bytes)) => OutcomeView::Success(OutputView::Stdout(bytes)),
        Ok(None) => otherwise,
    }
}

/// The end of a run that prints the contents of a file.
pub open spec fn file_cat_outcome<S>(world: World<S>, digest: DigestView) -> OutcomeView<S> {
    blob_outcome(
        world(QueryView::LoadFile { digest })->Bytes_0,
        lacking(world, Missing::File, digest),
    )
}

/// The end of a run that prints a file, or the directory where there is no
/// file.
pub open spec fn cat_outcome<S>(world: World<S>, digest: DigestView) -> OutcomeView<S> {
    blob_outcome(
        world(QueryView::LoadFile { digest })->Bytes_0,
        blob_outcome(
            world(QueryView::LoadDirectoryBytes { digest })->Bytes_0,
            lacking(world, Missing::Either, digest),
        ),
    )
}

/// The end of a run that writes a directory to the file system.
pub open spec fn materialize_outcome<S>(
    world: World<S>,
    destination: Seq<char>,
    digest: DigestView,
) -> OutcomeView<S> {
    match world(QueryView::Materialize { destination, digest })->Finished_0 {
        Ok(()) => OutcomeView::Success(OutputView::Nothing),
        Err(message) => if occurs_in("not found"@, message) {
            absence(message)
        } else {
            failure(message)
        },
    }
}

/// The end of a run that lists the files below a directory.
pub open spec fn list_outcome<S>(
    world: World<S>,
    digest: DigestView,
    listed: ListedView,
) -> OutcomeView<S> {
    match listed {
        Err(message) => failure(message),
        Ok(None) => lacking(world, Missing::Directory, digest),
        Ok(Some(paths)) => OutcomeView::Success(OutputView::Stdout(encode_utf8(lines(paths)))),
    }
}

/// The end of a run that prints a directory in this format, `None` where it
/// lists files and directories lie more than `depth` deep.
pub open spec fn cat_proto_outcome<S>(
    world: World<S>,
    depth: nat,
    digest: DigestView,
    output_format: ArgumentView,
) -> Option<OutcomeView<S>> {
    match required(output_format) {
        Err(defect) => Some(OutcomeView::Defect(defect)),
        Ok(format) => if format == "binary"@ {
            Some(
                blob_outcome(
                    world(QueryView::LoadDirectoryBytes { digest })->Bytes_0,
                    lacking(world, Missing::Directory, digest),
                ),
            )
        } else if format == "text"@ {
            Some(
                match world(QueryView::LoadDirectoryText { digest })->Text_0 {
                    Err(message) => failure(message),
                    Ok(None) => lacking(world, Missing::Directory, digest),
                    Ok(Some(text)) => OutcomeView::Success(
                        OutputView::Stdout(encode_utf8(text + "\n"@)),
                    ),
                },
            )
        } else if format == "recursive-file-list"@ {
            match listing_of(directories_in(world), depth, digest) {
                None => None,
                Some(listed) => Some(list_outcome(world, digest, listed)),
            }
        } else {
            Some(failure("Unexpected value of --output-format arg: "@ + format))
        },
    }
}

/// The end of a run that has saved something: it is uploaded if and only if
/// there is a remote store, and reported.
pub open spec fn saved_outcome<S>(
    world: World<S>,
    has_remote: bool,
    digest: DigestView,
    output_mode: ArgumentView,
) -> OutcomeView<S> {
    if has_remote {
        match world(QueryView::EnsureUploaded { digest })->Uploaded_0 {
            Err(reason) => OutcomeView::Breakdown("Error uploading what was saved: "@ + reason),
            Ok(summary) => reported_outcome(digest, Some(summary), output_mode),
        }
    } else {
        reported_outcome(digest, None, output_mode)
    }
}

/// The end of a run that reports what it has saved.
pub open spec fn reported_outcome<S>(
    digest: DigestView,
    summary: Option<S>,
    output_mode: ArgumentView,
) -> OutcomeView<S> {
    match optional(output_mode) {
        Err(defect) => OutcomeView::Defect(defect),
        Ok(mode) => OutcomeView::Success(
            summary_output(mode, SummaryWithDigestView { digest, summary }),
        ),
    }
}

/// The end of a run that saves a file.
pub open spec fn file_save_outcome<S>(
    world: World<S>,
    has_remote: bool,
    path: Seq<char>,
    output_mode: ArgumentView,
) -> OutcomeView<S> {
    match world(QueryView::FindParent { path })->Parent_0 {
        Err(reason) => failure("Error canonicalizing path "@ + quoted_path(path) + ": "@ + reason),
        Ok(false) => failure(
            "File being saved must have parent but "@ + quoted_path(path) + " did not"@,
        ),
        Ok(true) => match world(QueryView::Stat { path })->Stat_0 {
            Err(reason) => OutcomeView::Breakdown(
                "Error looking at the file being saved: "@ + reason,
            ),
            Ok(StatView::Other(description)) => failure(
                "Tried to save file "@ + quoted_path(path) + " but it was not a file, was a "@
                    + description,
            ),
            Ok(StatView::File) => match world(QueryView::SaveFile { path })->Saved_0 {
                Err(reason) => OutcomeView::Breakdown(
                    "Error storing the file being saved: "@ + reason,
                ),
                Ok(digest) => saved_outcome(world, has_remote, digest, output_mode),
            },
        },
    }
}

/// The end of a run that saves a directory.
pub open spec fn directory_save_outcome<S>(
    world: World<S>,
    has_remote: bool,
    root: Seq<char>,
    globs: Seq<Seq<char>>,
    output_mode: ArgumentView,
) -> OutcomeView<S> {
    match world(directory_query(root, globs))->Snapshot_0 {
        Err(SnapshotFailureView::Globs(message)) => failure(message),
        Err(SnapshotFailureView::Root(reason)) => OutcomeView::Breakdown(
            "Error opening the directory being saved: "@ + reason,
        ),
        Err(SnapshotFailureView::Expand(reason)) => failure("Error expanding globs: "@ + reason),
        Err(SnapshotFailureView::Store(message)) => failure(message),
        Ok(digest) => saved_outcome(world, has_remote, digest, output_mode),
    }
}

/// How a command ends once the store is open. `None` where it lists files and
/// directories lie more than `depth` deep.
pub open spec fn command_outcome<S>(
    world: World<S>,
    depth: nat,
    command: CommandView,
    has_remote: bool,
) -> Option<OutcomeView<S>> {
    match command {
        CommandView::FileCat { digest } => match digest_in(world, digest) {
            Err(outcome) => Some(outcome),
            Ok(digest) => Some(file_cat_outcome(world, digest)),
        },
        CommandView::FileSave { path, output_mode } => match required(path) {
            Err(defect) => Some(OutcomeView::Defect(defect)),
            Ok(path) => Some(file_save_outcome(world, has_remote, path, output_mode)),
        },
        CommandView::DirectoryMaterialize { destination, digest } => match required(destination) {
            Err(defect) => Some(OutcomeView::Defect(defect)),
            Ok(destination) => match digest_in(world, digest) {
                Err(outcome) => Some(outcome),
                Ok(digest) => Some(materialize_outcome(world, destination, digest)),
            },
        },
        CommandView::DirectorySave { root, globs, output_mode } => match required(root) {
            Err(defect) => Some(OutcomeView::Defect(defect)),
            Ok(root) => match required_globs(globs) {
                Err(defect) => Some(OutcomeView::Defect(defect)),
                Ok(globs) => Some(
                    directory_save_outcome(world, has_remote, root, globs, output_mode),
                ),
            },
        },
        CommandView::DirectoryCatProto { digest, output_format } => match digest_in(
            world,
            digest,
        ) {
            Err(outcome) => Some(outcome),
            Ok(digest) => cat_proto_outcome(world, depth, digest, output_format),
        },
        CommandView::Cat { digest } => match digest_in(world, digest) {
            Err(outcome) => Some(outcome),
            Ok(digest) => Some(cat_outcome(world, digest)),
        },
        CommandView::GarbageCollect { target_size_bytes } => match target_size(
            target_size_bytes,
        ) {
            Err(defect) => Some(OutcomeView::Defect(defect)),
            Ok(target_size_bytes) => Some(
                match world(
                    QueryView::CollectGarbage { target_size_bytes, compact: true },
                )->Finished_0 {
                    Ok(()) => OutcomeView::Success(OutputView::Nothing),
                    Err(message) => failure(message),
                },
            ),
        },
        CommandView::Unimplemented => Some(OutcomeView::Defect(Defect::Unimplemented)),
    }
}

/// How a run on a command line ends: the store is opened, and only then the
/// command is carried out. `None` where it lists files and directories lie more
/// than `depth` deep.
pub open spec fn outcome_of<S>(world: World<S>, depth: nat, request: RequestView) -> Option<
    OutcomeView<S>,
> {
    match options_in(world, request) {
        Err(outcome) => Some(outcome),
        Ok(options) => match world(QueryView::OpenStore(options))->Opened_0 {
            Err(refusal) => Some(failure(not_opened_message(options.directory, refusal))),
            Ok(()) => command_outcome(world, depth, request.command, options.remote is Some),
        },
    }
}

proof fn lemma_finish<S>(world: World<S>, outcome: OutcomeView<S>)
    ensures
        ends_with(world, NextView::Finish(outcome), outcome),
{
    assert(run(world, NextView::Finish(outcome), 0) == Some(outcome));
}

proof fn lemma_ask<S>(
    world: World<S>,
    query: QueryView,
    rest: ExecutionView,
    outcome: OutcomeView<S>,
)
    requires
        ends_with(world, resumed(rest, world(query)), outcome),
    ensures
        ends_with(world, NextView::Ask { query, rest }, outcome),
{
    let queries = choose|queries: nat| #[trigger]
        run(world, resumed(rest, world(query)), queries) == Some(outcome);
    assert(run(world, NextView::Ask { query, rest }, queries + 1) == Some(outcome));
}

proof fn lemma_missing<S>(world: World<S>, what: Missing, digest: DigestView)
    requires
        sensible(world),
    ensures
        ends_with(world, missing(what, digest), lacking(world, what, digest)),
{
    let query = QueryView::DescribeDigest { digest };
    let rest = ExecutionView::Describe { missing: what };
    assert(answers(query, world(query)));
    lemma_finish(world, lacking(world, what, digest));
    lemma_ask(world, query, rest, lacking(world, what, digest));
}

proof fn lemma_file_cat<S>(world: World<S>, digest: DigestView)
    requires
        sensible(world),
    ensures
        ends_with(
            world,
            digest_known(PurposeView::FileCat, digest),
            file_cat_outcome(world, digest),
        ),
{
    let query = QueryView::LoadFile { digest };
    assert(answers(query, world(query)));
    lemma_missing(world, Missing::File, digest);
    lemma_finish(world, file_cat_outcome(world, digest));
    lemma_ask(world, query, ExecutionView::FileCat { digest }, file_cat_outcome(world, digest));
}

proof fn lemma_cat<S>(world: World<S>, digest: DigestView)
    requires
        sensible(world),
    ensures
        ends_with(world, digest_known(PurposeView::Cat, digest), cat_outcome(world, digest)),
{
    let query = QueryView::LoadFile { digest };
    let second = QueryView::LoadDirectoryBytes { digest };
    let outcome = cat_outcome(world, digest);
    assert(answers(query, world(query)));
    assert(answers(second, world(second)));
    lemma_missing(world, Missing::Either, digest);
    lemma_finish(world, outcome);
    if world(query)->Bytes_0 == Ok::<Option<Seq<u8>>, Seq<char>>(None) {
        lemma_ask(world, second, ExecutionView::CatDirectory { digest }, outcome);
    }
    lemma_ask(world, query, ExecutionView::CatFile { digest }, outcome);
}

proof fn lemma_materialize<S>(world: World<S>, destination: Seq<char>, digest: DigestView)
    requires
        sensible(world),
    ensures
        ends_with(
            world,
            digest_known(PurposeView::Materialize { destination }, digest),
            materialize_outcome(world, destination, digest),
        ),
{
    let query = QueryView::Materialize { destination, digest };
    let outcome = materialize_outcome(world, destination, digest);
    assert(answers(query, world(query)));
    lemma_finish(world, outcome);
    lemma_ask(world, query, ExecutionView::Materialize, outcome);
}

/// A listing within a run ends as the listing alone does.
proof fn lemma_list<S>(
    world: World<S>,
    digest: DigestView,
    step: ExpandStepView,
    loads: nat,
    listed: ListedView,
)
    requires
        sensible(world),
        walk(directories_in(world), step, loads) == Some(listed),
    ensures
        ends_with(world, listing_step(digest, step), list_outcome(world, digest, listed)),
    decreases loads,
{
    let outcome = list_outcome(world, digest, listed);
    match step {
        ExpandStepView::Done(_) => {
            lemma_missing(world, Missing::Directory, digest);
            lemma_finish(world, outcome);
        },
        ExpandStepView::Load { digest: wanted, rest } => {
            let query = QueryView::LoadDirectory { digest: wanted };
            assert(answers(query, world(query)));
            let next = rest.with(directories_in(world)(wanted));
            lemma_list(world, digest, next, (loads - 1) as nat, listed);
            lemma_ask(
                world,
                query,
                ExecutionView::CatProtoList { digest, expansion: rest },
                outcome,
            );
        },
    }
}

proof fn lemma_cat_proto<S>(
    world: World<S>,
    depth: nat,
    digest: DigestView,
    output_format: ArgumentView,
)
    requires
        sensible(world),
        cat_proto_outcome(world, depth, digest, output_format) is Some,
    ensures
        ends_with(
            world,
            digest_known(PurposeView::CatProto { output_format }, digest),
            cat_proto_outcome(world, depth, digest, output_format)->0,
        ),
{
    let outcome = cat_proto_outcome(world, depth, digest, output_format)->0;
    lemma_finish(world, outcome);
    lemma_missing(world, Missing::Directory, digest);
    if let Ok(format) = required(output_format) {
        if format == "binary"@ {
            let query = QueryView::LoadDirectoryBytes { digest };
            assert(answers(query, world(query)));
            lemma_ask(world, query, ExecutionView::CatProtoBytes { digest }, outcome);
        } else if format == "text"@ {
            let query = QueryView::LoadDirectoryText { digest };
            assert(answers(query, world(query)));
            lemma_ask(world, query, ExecutionView::CatProtoText { digest }, outcome);
        } else if format == "recursive-file-list"@ {
            let directories = directories_in(world);
            let listed = listing_of(directories, depth, digest);
            law_listing_ends(directories, depth, digest);
            let loads = choose|loads: nat| #[trigger]
                walk(directories, listing_from(digest), loads) == listed;
            lemma_list(world, digest, listing_from(digest), loads, listed->0);
        }
    }
}

/// A run that is given an address goes on once the address is known.
proof fn lemma_digest<S>(
    world: World<S>,
    arguments: DigestArgumentsView,
    purpose: PurposeView,
    outcome: OutcomeView<S>,
)
    requires
        sensible(world),
        match digest_in(world, arguments) {
            Err(early) => outcome == early,
            Ok(digest) => ends_with(world, digest_known(purpose, digest), outcome),
        },
    ensures
        ends_with(world, digest_needed(arguments, purpose), outcome),
{
    lemma_finish(world, outcome);
    if let Ok(text) = required(arguments.fingerprint) {
        let query = QueryView::ParseFingerprint { text };
        assert(answers(query, world(query)));
        lemma_ask(
            world,
            query,
            ExecutionView::Fingerprint { size_bytes: arguments.size_bytes, purpose },
            outcome,
        );
    }
}

proof fn lemma_saved<S>(world: World<S>, saving: SavingView, digest: DigestView)
    requires
        sensible(world),
    ensures
        ends_with(
            world,
            saved(saving, digest),
            saved_outcome(world, saving.has_remote, digest, saving.output_mode),
        ),
{
    let outcome = saved_outcome(world, saving.has_remote, digest, saving.output_mode);
    lemma_finish(world, outcome);
    if saving.has_remote {
        let query = QueryView::EnsureUploaded { digest };
        assert(answers(query, world(query)));
        lemma_ask(
            world,
            query,
            ExecutionView::Upload { digest, output_mode: saving.output_mode },
            outcome,
        );
    }
}

proof fn lemma_file_save<S>(world: World<S>, path: Seq<char>, saving: SavingView)
    requires
        sensible(world),
    ensures
        ends_with(
            world,
            NextView::Ask {
                query: QueryView::FindParent { path },
                rest: ExecutionView::FindParent { path, saving },
            },
            file_save_outcome(world, saving.has_remote, path, saving.output_mode),
        ),
{
    let outcome = file_save_outcome(world, saving.has_remote, path, saving.output_mode);
    let first = QueryView::FindParent { path };
    let second = QueryView::Stat { path };
    let third = QueryView::SaveFile { path };
    assert(answers(first, world(first)));
    assert(answers(second, world(second)));
    assert(answers(third, world(third)));
    lemma_finish(world, outcome);
    if let Ok(digest) = world(third)->Saved_0 {
        lemma_saved(world, saving, digest);
    }
    if world(first)->Parent_0 == Ok::<bool, Seq<char>>(true) {
        if world(second)->Stat_0 == Ok::<StatView, Seq<char>>(StatView::File) {
            lemma_ask(world, third, ExecutionView::SaveFile { saving }, outcome);
        }
        lemma_ask(world, second, ExecutionView::Stat { path, saving }, outcome);
    }
    lemma_ask(world, first, ExecutionView::FindParent { path, saving }, outcome);
}

proof fn lemma_directory_save<S>(
    world: World<S>,
    root: Seq<char>,
    globs: Seq<Seq<char>>,
    saving: SavingView,
)
    requires
        sensible(world),
    ensures
        ends_with(
            world,
            NextView::Ask {
                query: directory_query(root, globs),
                rest: ExecutionView::SaveDirectory { saving },
            },
            directory_save_outcome(world, saving.has_remote, root, globs, saving.output_mode),
        ),
{
    let outcome = directory_save_outcome(
        world,
        saving.has_remote,
        root,
        globs,
        saving.output_mode,
    );
    let query = directory_query(root, globs);
    assert(answers(query, world(query)));
    lemma_finish(world, outcome);
    if let Ok(digest) = world(query)->Snapshot_0 {
        lemma_saved(world, saving, digest);
    }
    lemma_ask(world, query, ExecutionView::SaveDirectory { saving }, outcome);
}

proof fn lemma_command<S>(world: World<S>, depth: nat, command: CommandView, has_remote: bool)
    requires
        sensible(world),
        command_outcome(world, depth, command, has_remote) is Some,
    ensures
        ends_with(
            world,
            opened(command, has_remote),
            command_outcome(world, depth, command, has_remote)->0,
        ),
{
    let outcome = command_outcome(world, depth, command, has_remote)->0;
    lemma_finish(world, outcome);
    match command {
        CommandView::FileCat { digest: arguments } => {
            if let Ok(digest) = digest_in(world, arguments) {
                lemma_file_cat(world, digest);
            }
            lemma_digest(world, arguments, PurposeView::FileCat, outcome);
        },
        CommandView::FileSave { path, output_mode } => {
            if let Ok(path) = required(path) {
                lemma_file_save(world, path, SavingView { output_mode, has_remote });
            }
        },
        CommandView::DirectoryMaterialize { destination, digest: arguments } => {
            if let Ok(destination) = required(destination) {
                if let Ok(digest) = digest_in(world, arguments) {
                    lemma_materialize(world, destination, digest);
                }
                lemma_digest(world, arguments, PurposeView::Materialize { destination }, outcome);
            }
        },
        CommandView::DirectorySave { root, globs, output_mode } => {
            if let Ok(root) = required(root) {
                if let Ok(globs) = required_globs(globs) {
                    lemma_directory_save(
                        world,
                        root,
                        globs,
                        SavingView { output_mode, has_remote },
                    );
                }
            }
        },
        CommandView::DirectoryCatProto { digest: arguments, output_format } => {
            if let Ok(digest) = digest_in(world, arguments) {
                lemma_cat_proto(world, depth, digest, output_format);
            }
            lemma_digest(world, arguments, PurposeView::CatProto { output_format }, outcome);
        },
        CommandView::Cat { digest: arguments } => {
            if let Ok(digest) = digest_in(world, arguments) {
                lemma_cat(world, digest);
            }
            lemma_digest(world, arguments, PurposeView::Cat, outcome);
        },
        CommandView::GarbageCollect { target_size_bytes } => {
            if let Ok(target_size_bytes) = target_size(target_size_bytes) {
                let query = QueryView::CollectGarbage { target_size_bytes, compact: true };
                assert(answers(query, world(query)));
                lemma_ask(world, query, ExecutionView::GarbageCollect, outcome);
            }
        },
        CommandView::Unimplemented => {},
    }
}

/// A run whose queries are all answered ends, and ends as `outcome_of` says.
pub proof fn law_run_ends<S>(world: World<S>, depth: nat, request: RequestView)
    requires
        sensible(world),
        outcome_of(world, depth, request) is Some,
    ensures
        ends_with(world, started(request), outcome_of(world, depth, request)->0),
{
    let outcome = outcome_of(world, depth, request)->0;
    lemma_finish(world, outcome);
    if let Ok(options) = options_in(world, request) {
        let query = QueryView::OpenStore(options);
        let has_remote = options.remote is Some;
        assert(answers(query, world(query)));
        if world(query)->Opened_0 is Ok {
            lemma_command(world, depth, request.command, has_remote);
        }
        lemma_ask(
            world,
            query,
            ExecutionView::Opening {
                directory: options.directory,
                has_remote,
                command: request.command,
            },
            outcome,
        );
    }
    if let (Ok(directory), Ok(Some(address)), Ok(chunk_bytes)) = (
        optional(request.local_store_path),
        optional(request.server_address),
        chunk_size(request.chunk_bytes),
    ) {
        let setup = SetupView {
            directory,
            address,
            chunk_bytes,
            remote_instance_name: request.remote_instance_name,
            command: request.command,
        };
        let token_file = request.oauth_bearer_token_file;
        if let Ok(certificates) = certificates_in(world, request.root_ca_cert_file) {
            if let Ok(token) = token_in(world, token_file) {
                assert(ends_with(world, remote_known(setup, certificates, token), outcome));
            }
            if let Ok(Some(path)) = optional(token_file) {
                let query = QueryView::ReadToken { path };
                assert(answers(query, world(query)));
                lemma_ask(
                    world,
                    query,
                    ExecutionView::Token { setup, certificates, path },
                    outcome,
                );
            }
            assert(ends_with(world, token_needed(setup, certificates, token_file), outcome));
        }
        if let Ok(Some(path)) = optional(request.root_ca_cert_file) {
            let query = QueryView::ReadCertificates { path };
            assert(answers(query, world(query)));
            lemma_ask(
                world,
                query,
                ExecutionView::Certificates { setup, token_file, path },
                outcome,
            );
        }
    }
}

/// A run ends in one way only, however many queries it is allowed.
pub proof fn law_run_ends_once<S>(
    world: World<S>,
    next: NextView<S>,
    a: OutcomeView<S>,
    b: OutcomeView<S>,
)
    requires
        ends_with(world, next, a),
        ends_with(world, next, b),
    ensures
        a == b,
{
    let m = choose|queries: nat| #[trigger] run(world, next, queries) == Some(a);
    let n = choose|queries: nat| #[trigger] run(world, next, queries) == Some(b);
    if m <= n {
        lemma_run_longer(world, next, m, n);
    } else {
        lemma_run_longer(world, next, n, m);
    }
}

proof fn lemma_run_longer<S>(world: World<S>, next: NextView<S>, m: nat, n: nat)
    requires
        m <= n,
        run(world, next, m) is Some,
    ensures
        run(world, next, n) == run(world, next, m),
    decreases m,
{
    if let NextView::Ask { query, rest } = next {
        lemma_run_longer(
            world,
            resumed(rest, world(query)),
            (m - 1) as nat,
            (n - 1) as nat,
        );
    }
}

} // verus!
