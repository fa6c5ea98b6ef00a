//! What is handed in and out is what contracts speak of: a view shows every
//! part of a value, unchanged, whatever the value is.

use vstd::prelude::*;

use crate::args::Argument;
use crate::args::Command;
use crate::args::CommandView;
use crate::args::DigestArguments;
use crate::args::Request;
use crate::digest::Digest;
use crate::digest::DigestView;
use crate::execution::Next;
use crate::execution::NextView;
use crate::execution::Outcome;
use crate::execution::OutcomeView;
use crate::exit::ExitError;
use crate::listing::listed_view;
use crate::listing::loaded_view;
use crate::listing::Directory;
use crate::listing::DirectoryNode;
use crate::listing::DirectoryView;
use crate::listing::ExpandStep;
use crate::listing::ExpandStepView;
use crate::listing::Listed;
use crate::listing::Loaded;
use crate::protocol::OpenFailure;
use crate::protocol::Query;
use crate::protocol::QueryView;
use crate::protocol::Reply;
use crate::protocol::ReplyView;
use crate::protocol::SnapshotFailure;
use crate::protocol::SnapshotFailureView;
use crate::protocol::Stat;
use crate::protocol::StatView;
use crate::report::Output;
use crate::report::OutputView;
use crate::report::SummaryWithDigest;
use crate::store::RemoteOptions;
use crate::store::StoreOptions;

verus! {

/// Whether an optional text is shown as this.
pub open spec fn shows_text(text: Option<String>, view: Option<Seq<char>>) -> bool {
    match text {
        None => view is None,
        Some(text) => view == Some(text@),
    }
}

/// Whether a list of texts is shown as this: as many, the same, in the same
/// order.
pub open spec fn shows_texts(texts: Seq<String>, view: Seq<Seq<char>>) -> bool {
    &&& view.len() == texts.len()
    &&& forall|i: int| 0 <= i < texts.len() ==> #[trigger] view[i] == texts[i]@
}

/// The command line is shown as it is.
pub proof fn law_command_lines_are_shown(
    argument: Argument,
    digest: DigestArguments,
    command: Command,
    request: Request,
)
    ensures
        match argument {
            Argument::Absent => argument@ is None,
            Argument::NotUnicode => argument@ == Some(None::<Seq<char>>),
            Argument::Text(text) => argument@ == Some(Some(text@)),
        },
        digest@.fingerprint == digest.fingerprint@,
        digest@.size_bytes == digest.size_bytes@,
        match command {
            Command::FileCat { digest } => command@ == (CommandView::FileCat { digest: digest@ }),
            Command::FileSave { path, output_mode } => command@ == (CommandView::FileSave {
                path: path@,
                output_mode: output_mode@,
            }),
            Command::DirectoryMaterialize { destination, digest } => command@ == (
            CommandView::DirectoryMaterialize { destination: destination@, digest: digest@ }),
            Command::DirectorySave { root, globs, output_mode } => {
                &&& command@ is DirectorySave
                &&& command@->DirectorySave_root == root@
                &&& command@->DirectorySave_output_mode == output_mode@
                &&& match globs {
                    None => command@->DirectorySave_globs is None,
                    Some(list) => {
                        &&& command@->DirectorySave_globs is Some
                        &&& command@->DirectorySave_globs->0.len() == list.len()
                        &&& forall|i: int|
                            0 <= i < list.len() ==> shows_text(
                                #[trigger] list@[i],
                                command@->DirectorySave_globs->0[i],
                            )
                    },
                }
            },
            Command::DirectoryCatProto { digest, output_format } => command@ == (
            CommandView::DirectoryCatProto { digest: digest@, output_format: output_format@ }),
            Command::Cat { digest } => command@ == (CommandView::Cat { digest: digest@ }),
            Command::GarbageCollect { target_size_bytes } => command@ == (
            CommandView::GarbageCollect { target_size_bytes: target_size_bytes@ }),
            Command::Unimplemented => command@ is Unimplemented,
        },
        request@.local_store_path == request.local_store_path@,
        request@.server_address == request.server_address@,
        request@.chunk_bytes == request.chunk_bytes@,
        request@.root_ca_cert_file == request.root_ca_cert_file@,
        request@.oauth_bearer_token_file == request.oauth_bearer_token_file@,
        request@.remote_instance_name == request.remote_instance_name@,
        request@.command == request.command@,
{
}

/// What opens a store is shown as it is.
pub proof fn law_store_options_are_shown(options: StoreOptions, remote: RemoteOptions)
    ensures
        shows_text(options.directory, options@.directory),
        match options.remote {
            None => options@.remote is None,
            Some(remote) => options@.remote == Some(remote@),
        },
        remote@.address == remote.address@,
        shows_text(remote.instance_name, remote@.instance_name),
        match remote.root_ca_certs {
            None => remote@.root_ca_certs is None,
            Some(bytes) => remote@.root_ca_certs == Some(bytes@),
        },
        shows_text(remote.oauth_bearer_token, remote@.oauth_bearer_token),
        remote@.threads == remote.threads,
        remote@.chunk_bytes == remote.chunk_bytes,
        remote@.timeout_seconds == remote.timeout_seconds,
{
}

/// An address is shown as it is.
pub proof fn law_digests_are_shown(digest: Digest)
    ensures
        digest@.fingerprint == digest.fingerprint@,
        digest@.size_bytes == digest.size_bytes,
{
}

/// What a run asks for is shown as it is.
pub proof fn law_queries_are_shown(query: Query)
    ensures
        match query {
            Query::ReadCertificates { path } => query@ == (QueryView::ReadCertificates {
                path: path@,
            }),
            Query::ReadToken { path } => query@ == (QueryView::ReadToken { path: path@ }),
            Query::OpenStore(options) => query@ == QueryView::OpenStore(options@),
            Query::ParseFingerprint { text } => query@ == (QueryView::ParseFingerprint {
                text: text@,
            }),
            Query::DescribeDigest { digest } => query@ == (QueryView::DescribeDigest {
                digest: digest@,
            }),
            Query::LoadFile { digest } => query@ == (QueryView::LoadFile { digest: digest@ }),
            Query::LoadDirectoryBytes { digest } => query@ == (QueryView::LoadDirectoryBytes {
                digest: digest@,
            }),
            Query::LoadDirectoryText { digest } => query@ == (QueryView::LoadDirectoryText {
                digest: digest@,
            }),
            Query::LoadDirectory { digest } => query@ == (QueryView::LoadDirectory {
                digest: digest@,
            }),
            Query::Materialize { destination, digest } => query@ == (QueryView::Materialize {
                destination: destination@,
                digest: digest@,
            }),
            Query::FindParent { path } => query@ == (QueryView::FindParent { path: path@ }),
            Query::Stat { path } => query@ == (QueryView::Stat { path: path@ }),
            Query::SaveFile { path } => query@ == (QueryView::SaveFile { path: path@ }),
            Query::SaveDirectory { root, globs, excluded, ignore_unmatched, take_all } => {
                &&& query@ is SaveDirectory
                &&& query@->root == root@
                &&& shows_texts(globs@, query@->globs)
                &&& shows_texts(excluded@, query@->excluded)
                &&& query@->ignore_unmatched == ignore_unmatched
                &&& query@->take_all == take_all
            },
            Query::EnsureUploaded { digest } => query@ == (QueryView::EnsureUploaded {
                digest: digest@,
            }),
            Query::CollectGarbage { target_size_bytes, compact } => query@ == (
            QueryView::CollectGarbage { target_size_bytes, compact }),
        },
{
}

/// A directory that was loaded, and a listing, are shown as they are.
pub proof fn law_directories_are_shown(
    node: DirectoryNode,
    directory: Directory,
    loaded: Loaded,
    listed: Listed,
)
    ensures
        node@.name == node.name@,
        match node.digest {
            Ok(digest) => node@.digest == Ok::<DigestView, Seq<char>>(digest@),
            Err(message) => node@.digest == Err::<DigestView, Seq<char>>(message@),
        },
        shows_texts(directory.files@, directory@.files),
        directory@.directories.len() == directory.directories.len(),
        forall|i: int|
            0 <= i < directory.directories.len() ==> #[trigger] directory@.directories[i]
                == directory.directories@[i]@,
        match loaded {
            Ok(Some(directory)) => loaded_view(loaded) == Ok::<
                Option<DirectoryView>,
                Seq<char>,
            >(Some(directory@)),
            Ok(None) => loaded_view(loaded) matches Ok(None),
            Err(message) => loaded_view(loaded) == Err::<
                Option<DirectoryView>,
                Seq<char>,
            >(message@),
        },
        match listed {
            Ok(Some(paths)) => {
                &&& listed_view(listed) matches Ok(Some(_))
                &&& shows_texts(paths@, listed_view(listed)->Ok_0->0)
            },
            Ok(None) => listed_view(listed) matches Ok(None),
            Err(message) => listed_view(listed) == Err::<
                Option<Seq<Seq<char>>>,
                Seq<char>,
            >(message@),
        },
{
}

/// What a listing does next is shown as it is.
pub proof fn law_listing_steps_are_shown(step: ExpandStep)
    ensures
        match step {
            ExpandStep::Load { digest, .. } => step@ is Load && step@->digest == digest@,
            ExpandStep::Done(listed) => step@ == ExpandStepView::Done(listed_view(listed)),
        },
{
}

/// What went wrong, and what stands at a path, is shown as it is.
pub proof fn law_findings_are_shown(
    failure: OpenFailure,
    stat: Stat,
    snapshot: SnapshotFailure,
    error: ExitError,
)
    ensures
        failure@.default_directory == failure.default_directory@,
        failure@.reason == failure.reason@,
        match stat {
            Stat::File => stat@ is File,
            Stat::Other(description) => stat@ == StatView::Other(description@),
        },
        match snapshot {
            SnapshotFailure::Globs(message) => snapshot@ == SnapshotFailureView::Globs(message@),
            SnapshotFailure::Root(reason) => snapshot@ == SnapshotFailureView::Root(reason@),
            SnapshotFailure::Expand(reason) => snapshot@ == SnapshotFailureView::Expand(reason@),
            SnapshotFailure::Store(message) => snapshot@ == SnapshotFailureView::Store(message@),
        },
        error@.message == error.0@,
        error@.code == error.1,
{
}

/// What a run is answered is shown as it is.
pub proof fn law_replies_are_shown<S>(reply: Reply<S>)
    ensures
        match reply {
            Reply::Contents(Ok(bytes)) => reply@ == ReplyView::<S>::Contents(Ok(bytes@)),
            Reply::Contents(Err(reason)) => reply@ == ReplyView::<S>::Contents(Err(reason@)),
            Reply::Token(Ok(token)) => reply@ == ReplyView::<S>::Token(Ok(token@)),
            Reply::Token(Err(reason)) => reply@ == ReplyView::<S>::Token(Err(reason@)),
            Reply::Opened(Ok(())) => reply@ == ReplyView::<S>::Opened(Ok(())),
            Reply::Opened(Err(failure)) => reply@ == ReplyView::<S>::Opened(Err(failure@)),
            Reply::Fingerprint(Ok(text)) => reply@ == ReplyView::<S>::Fingerprint(Ok(text@)),
            Reply::Fingerprint(Err(message)) => reply@ == ReplyView::<S>::Fingerprint(
                Err(message@),
            ),
            Reply::Description(text) => reply@ == ReplyView::<S>::Description(text@),
            Reply::Bytes(Ok(Some(bytes))) => reply@ == ReplyView::<S>::Bytes(Ok(Some(bytes@))),
            Reply::Bytes(Ok(None)) => reply@ == ReplyView::<S>::Bytes(Ok(None)),
            Reply::Bytes(Err(message)) => reply@ == ReplyView::<S>::Bytes(Err(message@)),
            Reply::Text(Ok(Some(text))) => reply@ == ReplyView::<S>::Text(Ok(Some(text@))),
            Reply::Text(Ok(None)) => reply@ == ReplyView::<S>::Text(Ok(None)),
            Reply::Text(Err(message)) => reply@ == ReplyView::<S>::Text(Err(message@)),
            Reply::Directory(loaded) => reply@ == ReplyView::<S>::Directory(loaded_view(loaded)),
            Reply::Finished(Ok(())) => reply@ == ReplyView::<S>::Finished(Ok(())),
            Reply::Finished(Err(message)) => reply@ == ReplyView::<S>::Finished(Err(message@)),
            Reply::Parent(Ok(found)) => reply@ == ReplyView::<S>::Parent(Ok(found)),
            Reply::Parent(Err(reason)) => reply@ == ReplyView::<S>::Parent(Err(reason@)),
            Reply::Stat(Ok(stat)) => reply@ == ReplyView::<S>::Stat(Ok(stat@)),
            Reply::Stat(Err(reason)) => reply@ == ReplyView::<S>::Stat(Err(reason@)),
            Reply::Saved(Ok(digest)) => reply@ == ReplyView::<S>::Saved(Ok(digest@)),
            Reply::Saved(Err(reason)) => reply@ == ReplyView::<S>::Saved(Err(reason@)),
            Reply::Snapshot(Ok(digest)) => reply@ == ReplyView::<S>::Snapshot(Ok(digest@)),
            Reply::Snapshot(Err(failure)) => reply@ == ReplyView::<S>::Snapshot(Err(failure@)),
            Reply::Uploaded(Ok(summary)) => reply@ == ReplyView::<S>::Uploaded(Ok(summary)),
            Reply::Uploaded(Err(reason)) => reply@ == ReplyView::<S>::Uploaded(Err(reason@)),
        },
{
}

/// What a run does next, how it ends, and what it prints is shown as it is.
pub proof fn law_ends_are_shown<S>(
    next: Next<S>,
    outcome: Outcome<S>,
    output: Output<S>,
    report: SummaryWithDigest<S>,
)
    ensures
        match next {
            Next::Ask { query, rest } => next@ == (NextView::<S>::Ask {
                query: query@,
                rest: rest@,
            }),
            Next::Finish(outcome) => next@ == NextView::Finish(outcome@),
        },
        match outcome {
            Outcome::Success(output) => outcome@ == OutcomeView::Success(output@),
            Outcome::Failure(error) => outcome@ == OutcomeView::<S>::Failure(error@),
            Outcome::Defect(defect) => outcome@ == OutcomeView::<S>::Defect(defect),
            Outcome::Breakdown(message) => outcome@ == OutcomeView::<S>::Breakdown(message@),
        },
        match output {
            Output::Nothing => output@ is Nothing,
            Output::Stdout(bytes) => output@ == OutputView::<S>::Stdout(bytes@),
            Output::Json(report) => output@ == OutputView::Json(report@),
            Output::Stderr(text) => output@ == OutputView::<S>::Stderr(text@),
        },
        report@.digest == report.digest@,
        report@.summary == report.summary,
{
}

} // verus!
