//! What holds of every run.

use vstd::prelude::*;
use vstd::relations::sorted_by;
use vstd::utf8::encode_utf8;

use crate::args::CommandView;
use crate::args::DigestArgumentsView;
use crate::args::RequestView;
use crate::composition::law_listing_is_composed;
use crate::composition::listings_under;
use crate::digest::DigestView;
use crate::execute::breaks_off;
use crate::execute::directory_query;
use crate::execute::missing_message;
use crate::execute::opened;
use crate::execute::remote_known;
use crate::execute::required;
use crate::execute::required_globs;
use crate::execute::resumed;
use crate::execute::started;
use crate::execute::token_needed;
use crate::execution::Defect;
use crate::execution::ExecutionView;
use crate::execution::Missing;
use crate::execution::NextView;
use crate::execution::OutcomeView;
use crate::exit::ExitCode;
use crate::listing::DirectoryView;
use crate::outcome::digest_in;
use crate::outcome::directories_in;
use crate::outcome::options_in;
use crate::outcome::outcome_of;
use crate::outcome::World;
use crate::protocol::answers;
use crate::protocol::QueryView;
use crate::protocol::ReplyView;
use crate::protocol::StatView;
use crate::report::digest_line;
use crate::report::is_line_of;
use crate::report::is_word;
use crate::report::summary_output;
use crate::report::OutputView;
use crate::report::SummaryWithDigestView;
use crate::order::in_order;
use crate::order::law_in_order;
use crate::order::name_order;
use crate::text::decimal;
use crate::text::law_number_reads_decimal;
use crate::text::lines;
use crate::text::number;
use crate::text::occurs_at;
use crate::text::occurs_in;
use crate::walk::fails_with;
use crate::walk::has_file;
use crate::walk::law_listing_holds_every_file;
use crate::walk::law_listing_succeeds;
use crate::walk::law_listing_tells_what_failed;
use crate::walk::listing_of;
use crate::walk::loads_whole;
use crate::walk::tree;

verus! {

/// Whether a query is part of getting the store open.
pub open spec fn is_preparation(query: QueryView) -> bool {
    query is ReadCertificates || query is ReadToken || query is OpenStore
}

/// Whether a run waits for the reply to a query that is part of getting the
/// store open.
pub open spec fn is_preparing(run: ExecutionView) -> bool {
    run is Certificates || run is Token || run is Opening
}

/// A run begins with getting the store open. It turns to its command if and
/// only if the store was opened, and then does not open a store again.
pub proof fn law_store_is_opened_first<S>(
    request: RequestView,
    run: ExecutionView,
    reply: ReplyView<S>,
)
    ensures
        started::<S>(request) matches NextView::Ask { query, rest } ==> is_preparation(query)
            && is_preparing(rest),
        resumed(run, reply) matches NextView::Ask { query, rest } ==> {
            &&& is_preparation(query) <==> is_preparing(rest)
            &&& is_preparing(run) ==> (!is_preparation(query) <==> run is Opening && (
            reply matches ReplyView::Opened(Ok(_))))
            &&& !is_preparing(run) ==> !is_preparation(query)
        },
{
    match (run, reply) {
        (ExecutionView::Certificates { setup, token_file, .. }, ReplyView::Contents(Ok(bytes))) => {
            assert(is_preparation_step(token_needed::<S>(setup, Some(bytes), token_file)));
        },
        (ExecutionView::Token { setup, certificates, .. }, ReplyView::Token(Ok(token))) => {
            assert(is_preparation_step(remote_known::<S>(setup, certificates, Some(token))));
        },
        (ExecutionView::Opening { has_remote, command, .. }, ReplyView::Opened(Ok(()))) => {
            lemma_command_is_no_preparation::<S>(command, has_remote);
        },
        _ => {},
    }
}

/// Whether a run, if it goes on, goes on with getting the store open.
spec fn is_preparation_step<S>(next: NextView<S>) -> bool {
    next matches NextView::Ask { query, rest } ==> is_preparation(query) && is_preparing(rest)
}

proof fn lemma_command_is_no_preparation<S>(command: CommandView, has_remote: bool)
    ensures
        opened::<S>(command, has_remote) matches NextView::Ask { query, rest } ==> !is_preparation(
            query,
        ) && !is_preparing(rest),
{
}

/// Whether a run waits for the reply to this query.
pub open spec fn awaits(run: ExecutionView, query: QueryView) -> bool {
    match run {
        ExecutionView::Certificates { .. } => query is ReadCertificates,
        ExecutionView::Token { .. } => query is ReadToken,
        ExecutionView::Opening { .. } => query is OpenStore,
        ExecutionView::Fingerprint { .. } => query is ParseFingerprint,
        ExecutionView::FileCat { .. } => query is LoadFile,
        ExecutionView::Materialize => query is Materialize,
        ExecutionView::CatProtoBytes { .. } => query is LoadDirectoryBytes,
        ExecutionView::CatProtoText { .. } => query is LoadDirectoryText,
        ExecutionView::CatProtoList { .. } => query is LoadDirectory,
        ExecutionView::CatFile { .. } => query is LoadFile,
        ExecutionView::CatDirectory { .. } => query is LoadDirectoryBytes,
        ExecutionView::Describe { .. } => query is DescribeDigest,
        ExecutionView::FindParent { .. } => query is FindParent,
        ExecutionView::Stat { .. } => query is Stat,
        ExecutionView::SaveFile { .. } => query is SaveFile,
        ExecutionView::SaveDirectory { .. } => query is SaveDirectory,
        ExecutionView::Upload { .. } => query is EnsureUploaded,
        ExecutionView::GarbageCollect => query is CollectGarbage,
    }
}

/// Whoever answers each query with a reply to it never hears that a reply does
/// not answer the query.
pub proof fn law_replies_are_understood<S>(
    request: RequestView,
    run: ExecutionView,
    query: QueryView,
    reply: ReplyView<S>,
)
    requires
        awaits(run, query),
        answers(query, reply),
    ensures
        started::<S>(request) matches NextView::Ask { query: first, rest } ==> awaits(rest, first),
        resumed(run, reply) matches NextView::Ask { query: next, rest } ==> awaits(rest, next),
        resumed(run, reply) != breaks_off::<S>(Defect::Misanswered),
{
}

/// A reply of the right kind answers a query, whatever the reply holds, and one
/// of another kind does not.
pub proof fn law_replies_answer_by_their_kind<S>(query: QueryView, reply: ReplyView<S>)
    ensures
        answers(query, reply) <==> match reply {
            ReplyView::Contents(_) => query is ReadCertificates,
            ReplyView::Token(_) => query is ReadToken,
            ReplyView::Opened(_) => query is OpenStore,
            ReplyView::Fingerprint(_) => query is ParseFingerprint,
            ReplyView::Description(_) => query is DescribeDigest,
            ReplyView::Bytes(_) => query is LoadFile || query is LoadDirectoryBytes,
            ReplyView::Text(_) => query is LoadDirectoryText,
            ReplyView::Directory(_) => query is LoadDirectory,
            ReplyView::Finished(_) => query is Materialize || query is CollectGarbage,
            ReplyView::Parent(_) => query is FindParent,
            ReplyView::Stat(_) => query is Stat,
            ReplyView::Saved(_) => query is SaveFile,
            ReplyView::Snapshot(_) => query is SaveDirectory,
            ReplyView::Uploaded(_) => query is EnsureUploaded,
        },
{
}

/// A run that is given a reply to something else than it asked for breaks off.
pub proof fn law_misanswered_runs_break_off<S>(
    run: ExecutionView,
    query: QueryView,
    reply: ReplyView<S>,
)
    requires
        awaits(run, query),
        !answers(query, reply),
    ensures
        resumed(run, reply) == NextView::<S>::Finish(OutcomeView::Defect(Defect::Misanswered)),
{
}

/// A run uploads nothing but what it has just saved, and only where it was told
/// that there is a remote store.
pub proof fn law_uploads_what_was_saved<S>(
    request: RequestView,
    run: ExecutionView,
    reply: ReplyView<S>,
    digest: DigestView,
)
    ensures
        !(started::<S>(request) matches NextView::Ask { query, .. } && query is EnsureUploaded),
        (resumed(run, reply) matches NextView::Ask { query, .. } && query
            == (QueryView::EnsureUploaded { digest })) ==> {
            ||| run matches ExecutionView::SaveFile { saving } && saving.has_remote && reply
                == ReplyView::<S>::Saved(Ok(digest))
            ||| run matches ExecutionView::SaveDirectory { saving } && saving.has_remote && reply
                == ReplyView::<S>::Snapshot(Ok(digest))
        },
{
}

/// A run without the address of a server never depends on what an upload would
/// come to.
pub proof fn law_local_runs_do_not_upload<S>(
    a: World<S>,
    b: World<S>,
    depth: nat,
    request: RequestView,
)
    requires
        request.server_address is None,
        forall|query: QueryView| !(query is EnsureUploaded) ==> #[trigger] a(query) == b(query),
    ensures
        outcome_of(a, depth, request) == outcome_of(b, depth, request),
{
    assert(directories_in(a) =~= directories_in(b));
}

/// Whether the store is open once the command line and its files are read.
pub open spec fn store_opens<S>(world: World<S>, request: RequestView) -> bool {
    &&& options_in(world, request) is Ok
    &&& world(QueryView::OpenStore(options_in(world, request)->Ok_0))->Opened_0 is Ok
}

/// Whether the store lacks what a command asks for.
pub open spec fn store_lacks<S>(world: World<S>, command: CommandView) -> bool {
    match command {
        CommandView::FileCat { digest } => match digest_in(world, digest) {
            Ok(digest) => world(QueryView::LoadFile { digest })->Bytes_0 == Ok::<
                Option<Seq<u8>>,
                Seq<char>,
            >(None),
            Err(_) => false,
        },
        CommandView::Cat { digest } => match digest_in(world, digest) {
            Ok(digest) => {
                &&& world(QueryView::LoadFile { digest })->Bytes_0 == Ok::<
                    Option<Seq<u8>>,
                    Seq<char>,
                >(None)
                &&& world(QueryView::LoadDirectoryBytes { digest })->Bytes_0 == Ok::<
                    Option<Seq<u8>>,
                    Seq<char>,
                >(None)
            },
            Err(_) => false,
        },
        CommandView::DirectoryCatProto { digest, output_format } => match (
            digest_in(world, digest),
            required(output_format),
        ) {
            (Ok(digest), Ok(format)) => if format == "binary"@ {
                world(QueryView::LoadDirectoryBytes { digest })->Bytes_0 == Ok::<
                    Option<Seq<u8>>,
                    Seq<char>,
                >(None)
            } else if format == "text"@ {
                world(QueryView::LoadDirectoryText { digest })->Text_0 == Ok::<
                    Option<Seq<char>>,
                    Seq<char>,
                >(None)
            } else if format == "recursive-file-list"@ {
                directories_in(world)(digest) matches Ok(None)
            } else {
                false
            },
            _ => false,
        },
        CommandView::DirectoryMaterialize { destination, digest } => match (
            required(destination),
            digest_in(world, digest),
        ) {
            (Ok(destination), Ok(digest)) => match world(
                QueryView::Materialize { destination, digest },
            )->Finished_0 {
                Err(message) => occurs_in("not found"@, message),
                Ok(()) => false,
            },
            _ => false,
        },
        _ => false,
    }
}

proof fn lemma_missing_message(what: Missing, description: Seq<char>)
    ensures
        occurs_in("not found"@, missing_message(what, description)),
{
    reveal_strlit("not found");
    reveal_strlit(" not found");
    let message = missing_message(what, description);
    let i = message.len() - "not found"@.len();
    assert(message.subrange(i, message.len() as int) =~= "not found"@);
    assert(occurs_at("not found"@, message, i));
}

/// A run fails with the status for what does not exist if and only if the store
/// was opened and lacks what the command asks for. The message of such a failure
/// says that something was not found.
pub proof fn law_not_found_status<S>(world: World<S>, depth: nat, request: RequestView)
    requires
        depth > 0,
    ensures
        (outcome_of(world, depth, request) matches Some(OutcomeView::Failure(error)) && error.code
            == ExitCode::NotFound) <==> store_opens(world, request) && store_lacks(
            world,
            request.command,
        ),
        (outcome_of(world, depth, request) matches Some(OutcomeView::Failure(error)) && error.code
            == ExitCode::NotFound) ==> occurs_in(
            "not found"@,
            outcome_of(world, depth, request)->0->Failure_0.message,
        ),
{
    assert forall|what: Missing, description: Seq<char>| occurs_in(
        "not found"@,
        #[trigger] missing_message(what, description),
    ) by {
        lemma_missing_message(what, description);
    }
    if let CommandView::DirectoryCatProto { digest, .. } = request.command {
        if let Ok(digest) = digest_in(world, digest) {
            law_listing_succeeds(directories_in(world), depth, digest);
        }
    }
}

/// What is stored at an address is what is printed for it: `file cat` prints
/// the bytes of the file, and `cat` prints them too, or the bytes of the
/// directory where there is no such file.
pub proof fn law_cat_prints_what_is_stored<S>(
    world: World<S>,
    depth: nat,
    request: RequestView,
    arguments: DigestArgumentsView,
    bytes: Seq<u8>,
)
    requires
        store_opens(world, request),
        digest_in(world, arguments) is Ok,
    ensures
        ({
            let digest = digest_in(world, arguments)->Ok_0;
            let file = world(QueryView::LoadFile { digest })->Bytes_0;
            let directory = world(QueryView::LoadDirectoryBytes { digest })->Bytes_0;
            let printed = outcome_of(world, depth, request) == Some(
                OutcomeView::<S>::Success(OutputView::Stdout(bytes)),
            );
            &&& request.command == (CommandView::FileCat { digest: arguments }) ==> (printed
                <==> file == Ok::<Option<Seq<u8>>, Seq<char>>(Some(bytes)))
            &&& request.command == (CommandView::Cat { digest: arguments }) ==> (printed <==> {
                ||| file == Ok::<Option<Seq<u8>>, Seq<char>>(Some(bytes))
                ||| file == Ok::<Option<Seq<u8>>, Seq<char>>(None) && directory == Ok::<
                    Option<Seq<u8>>,
                    Seq<char>,
                >(Some(bytes))
            })
        }),
{
}

/// In the simple output mode a report is the same whatever came of an upload:
/// one line of two words, the fingerprint and the size of what was saved.
pub proof fn law_simple_report_is_one_line<S>(
    a: SummaryWithDigestView<S>,
    b: SummaryWithDigestView<S>,
    first: Seq<char>,
    second: Seq<char>,
)
    requires
        a.digest == b.digest,
    ensures
        ({
            let printed = encode_utf8(digest_line(a.digest));
            &&& summary_output(Some("simple"@), a) == OutputView::<S>::Stdout(printed)
            &&& summary_output(Some("simple"@), b) == OutputView::<S>::Stdout(printed)
            &&& is_line_of(printed, first, second) <==> {
                &&& is_word(a.digest.fingerprint)
                &&& first == a.digest.fingerprint
                &&& second == decimal(a.digest.size_bytes as nat)
            }
        }),
{
    reveal_strlit("simple");
    reveal_strlit("json");
    assert("simple"@.len() != "json"@.len());
    let size = decimal(a.digest.size_bytes as nat);
    law_number_reads_decimal(a.digest.size_bytes);
    assert(is_word(size));
    if is_line_of(encode_utf8(digest_line(a.digest)), first, second) {
        lemma_words_of_line(a.digest.fingerprint, size, first, second);
    }
}

proof fn lemma_words_of_line(a: Seq<char>, b: Seq<char>, first: Seq<char>, second: Seq<char>)
    requires
        is_word(b),
        is_line_of(encode_utf8(a + " "@ + b + "\n"@), first, second),
    ensures
        a == first,
        b == second,
{
    reveal_strlit(" ");
    reveal_strlit("\n");
    let left = a + " "@ + b + "\n"@;
    let right = first + " "@ + second + "\n"@;
    assert(left == right) by {
        vstd::utf8::encode_utf8_decode_utf8(left);
        vstd::utf8::encode_utf8_decode_utf8(right);
    }
    assert(right[a.len() as int] == ' ') by {
        assert(left[a.len() as int] == ' ');
    }
    if a.len() < first.len() {
        assert(right[a.len() as int] == first[a.len() as int]);
        assert(first.contains(' '));
    }
    if a.len() > first.len() {
        let i = a.len() - first.len() - 1;
        assert(right.len() == left.len());
        assert(i < second.len());
        assert(right[a.len() as int] == second[i]);
        assert(second.contains(' '));
    }
    assert(a =~= left.subrange(0, a.len() as int));
    assert(first =~= right.subrange(0, a.len() as int));
    assert(b =~= left.subrange(a.len() as int + 1, left.len() - 1));
    assert(second =~= right.subrange(a.len() as int + 1, right.len() - 1));
}

/// The arguments that give these two words as a digest.
pub open spec fn digest_words(first: Seq<char>, second: Seq<char>) -> DigestArgumentsView {
    DigestArgumentsView { fingerprint: Some(Some(first)), size_bytes: Some(Some(second)) }
}

/// Whether a printed fingerprint is read as itself.
pub open spec fn reads_fingerprint<S>(world: World<S>, fingerprint: Seq<char>) -> bool {
    world(QueryView::ParseFingerprint { text: fingerprint })->Fingerprint_0 == Ok::<
        Seq<char>,
        Seq<char>,
    >(fingerprint)
}

/// The fingerprint and the size that are printed for what was saved, given back
/// as arguments, address the same blob, provided that a printed fingerprint is
/// read as itself.
pub proof fn law_printed_digest_reads_back<S>(world: World<S>, digest: DigestView)
    requires
        reads_fingerprint(world, digest.fingerprint),
    ensures
        digest_in(
            world,
            digest_words(digest.fingerprint, decimal(digest.size_bytes as nat)),
        ) == Ok::<DigestView, OutcomeView<S>>(digest),
{
    law_number_reads_decimal(digest.size_bytes);
}

/// The two words of the line that the simple output mode prints for a report,
/// given back as arguments, address what was saved, provided that a printed
/// fingerprint is read as itself.
pub proof fn law_simple_report_reads_back<S>(
    world: World<S>,
    report: SummaryWithDigestView<S>,
    first: Seq<char>,
    second: Seq<char>,
)
    requires
        reads_fingerprint(world, report.digest.fingerprint),
        summary_output(Some("simple"@), report) matches OutputView::Stdout(printed) && is_line_of(
            printed,
            first,
            second,
        ),
    ensures
        digest_in(world, digest_words(first, second)) == Ok::<DigestView, OutcomeView<S>>(
            report.digest,
        ),
{
    law_simple_report_is_one_line(report, report, first, second);
    law_printed_digest_reads_back(world, report.digest);
}

/// Whether what was saved is uploaded where the command line gives the address
/// of a server.
pub open spec fn uploads<S>(world: World<S>, request: RequestView, digest: DigestView) -> bool {
    request.server_address is Some ==> world(
        QueryView::EnsureUploaded { digest },
    )->Uploaded_0 is Ok
}

/// A file that was saved is printed back. In a world that saves the regular
/// file at `path`, whose bytes are `bytes`, and uploads it where there is a
/// server, `file save` prints one line of two words in the simple output mode,
/// the second the number of the bytes. In a later world that reads the printed
/// fingerprint as itself and loads what was saved, `file cat` and `cat` on
/// these two words print the bytes.
pub proof fn law_saved_file_is_printed_back<S>(
    saving: World<S>,
    later: World<S>,
    depth: nat,
    save: RequestView,
    read: RequestView,
    path: Seq<char>,
    bytes: Seq<u8>,
    first: Seq<char>,
    second: Seq<char>,
)
    requires
        store_opens(saving, save),
        save.command == (CommandView::FileSave {
            path: Some(Some(path)),
            output_mode: Some(Some("simple"@)),
        }),
        saving(QueryView::FindParent { path })->Parent_0 == Ok::<bool, Seq<char>>(true),
        saving(QueryView::Stat { path })->Stat_0 == Ok::<StatView, Seq<char>>(StatView::File),
        saving(QueryView::SaveFile { path })->Saved_0 is Ok,
        uploads(
            saving,
            save,
            saving(QueryView::SaveFile { path })->Saved_0->Ok_0,
        ),
        store_opens(later, read),
        ({
            let digest = saving(QueryView::SaveFile { path })->Saved_0->Ok_0;
            &&& digest.size_bytes == bytes.len()
            &&& reads_fingerprint(later, digest.fingerprint)
            &&& later(QueryView::LoadFile { digest })->Bytes_0 == Ok::<
                Option<Seq<u8>>,
                Seq<char>,
            >(Some(bytes))
        }),
    ensures
        ({
            let fingerprint = saving(QueryView::SaveFile { path })->Saved_0->Ok_0.fingerprint;
            let size = decimal(bytes.len());
            let printed = encode_utf8(fingerprint + " "@ + size + "\n"@);
            &&& outcome_of(saving, depth, save) == Some(
                OutcomeView::<S>::Success(OutputView::Stdout(printed)),
            )
            &&& is_word(fingerprint) ==> is_line_of(printed, fingerprint, size)
            &&& is_line_of(printed, first, second) && {
                ||| read.command == (CommandView::FileCat { digest: digest_words(first, second) })
                ||| read.command == (CommandView::Cat { digest: digest_words(first, second) })
            } ==> outcome_of(later, depth, read) == Some(
                OutcomeView::<S>::Success(OutputView::Stdout(bytes)),
            )
        }),
{
    let digest = saving(QueryView::SaveFile { path })->Saved_0->Ok_0;
    let report = SummaryWithDigestView::<S> { digest, summary: None };
    law_simple_report_is_one_line(report, report, first, second);
    law_simple_report_is_one_line(
        report,
        report,
        digest.fingerprint,
        decimal(digest.size_bytes as nat),
    );
    if is_line_of(encode_utf8(digest_line(digest)), first, second) {
        law_simple_report_reads_back(later, report, first, second);
    }
}

/// A directory that was saved is printed back. In a world that saves what the
/// globs match below `root`, and uploads it where there is a server, `directory
/// save` prints one line in the simple output mode. In a later world that reads
/// the printed fingerprint as itself and loads `bytes` as the directory that
/// was saved, `directory cat-proto` prints them for the two words of the line
/// in its binary format, and so does `cat`, unless a file has the same address.
pub proof fn law_saved_directory_is_printed_back<S>(
    saving: World<S>,
    later: World<S>,
    depth: nat,
    save: RequestView,
    read: RequestView,
    root: Seq<char>,
    globs: Seq<Seq<char>>,
    bytes: Seq<u8>,
    first: Seq<char>,
    second: Seq<char>,
)
    requires
        store_opens(saving, save),
        save.command is DirectorySave,
        required(save.command->DirectorySave_root) == Ok::<Seq<char>, Defect>(root),
        required_globs(save.command->DirectorySave_globs) == Ok::<Seq<Seq<char>>, Defect>(globs),
        save.command->DirectorySave_output_mode == Some(Some("simple"@)),
        saving(directory_query(root, globs))->Snapshot_0 is Ok,
        uploads(saving, save, saving(directory_query(root, globs))->Snapshot_0->Ok_0),
        store_opens(later, read),
        ({
            let digest = saving(directory_query(root, globs))->Snapshot_0->Ok_0;
            &&& reads_fingerprint(later, digest.fingerprint)
            &&& later(QueryView::LoadDirectoryBytes { digest })->Bytes_0 == Ok::<
                Option<Seq<u8>>,
                Seq<char>,
            >(Some(bytes))
        }),
    ensures
        ({
            let digest = saving(directory_query(root, globs))->Snapshot_0->Ok_0;
            let printed = encode_utf8(digest_line(digest));
            &&& outcome_of(saving, depth, save) == Some(
                OutcomeView::<S>::Success(OutputView::Stdout(printed)),
            )
            &&& is_word(digest.fingerprint) ==> is_line_of(
                printed,
                digest.fingerprint,
                decimal(digest.size_bytes as nat),
            )
            &&& is_line_of(printed, first, second) && {
                ||| read.command == (CommandView::DirectoryCatProto {
                    digest: digest_words(first, second),
                    output_format: Some(Some("binary"@)),
                })
                ||| read.command == (CommandView::Cat { digest: digest_words(first, second) })
                    && later(QueryView::LoadFile { digest })->Bytes_0 == Ok::<
                    Option<Seq<u8>>,
                    Seq<char>,
                >(None)
            } ==> outcome_of(later, depth, read) == Some(
                OutcomeView::<S>::Success(OutputView::Stdout(bytes)),
            )
        }),
{
    let digest = saving(directory_query(root, globs))->Snapshot_0->Ok_0;
    let report = SummaryWithDigestView::<S> { digest, summary: None };
    law_simple_report_is_one_line(report, report, first, second);
    law_simple_report_is_one_line(
        report,
        report,
        digest.fingerprint,
        decimal(digest.size_bytes as nat),
    );
    if is_line_of(encode_utf8(digest_line(digest)), first, second) {
        law_simple_report_reads_back(later, report, first, second);
    }
}

/// The store has a remote store behind it if and only if the command line gives
/// the address of a server. The connection has certificates, and a token, if
/// and only if the command line names a file with them.
pub proof fn law_remote_is_as_asked<S>(world: World<S>, request: RequestView)
    ensures
        options_in(world, request) matches Ok(options) ==> {
            &&& options.remote is Some <==> request.server_address is Some
            &&& options.remote matches Some(remote) ==> {
                &&& request.server_address == Some(Some(remote.address))
                &&& remote.root_ca_certs is Some <==> request.root_ca_cert_file is Some
                &&& remote.oauth_bearer_token is Some <==> request.oauth_bearer_token_file is Some
                &&& remote.instance_name is Some <==> request.remote_instance_name is Some
                &&& request.chunk_bytes matches Some(Some(text))
                &&& number(text) == Some(remote.chunk_bytes)
            }
        },
{
}

/// Where every directory on the way loads or is missing, the recursive file
/// list of a directory that is there is printed: one path to a line, in order,
/// those of all the files below the directory and no others: its own files, and
/// the listings of the directories in it under their names, each path as often
/// as it is there.
pub proof fn law_file_list_is_complete<S>(
    world: World<S>,
    depth: nat,
    request: RequestView,
    arguments: DigestArgumentsView,
)
    requires
        store_opens(world, request),
        request.command == (CommandView::DirectoryCatProto {
            digest: arguments,
            output_format: Some(Some("recursive-file-list"@)),
        }),
        digest_in(world, arguments) is Ok,
        loads_whole(directories_in(world), depth, digest_in(world, arguments)->Ok_0),
        !(directories_in(world)(digest_in(world, arguments)->Ok_0) matches Ok(None)),
    ensures
        exists|paths: Seq<Seq<char>>|
            {
                &&& outcome_of(world, depth, request) == Some(
                    OutcomeView::<S>::Success(
                        OutputView::Stdout(encode_utf8(#[trigger] lines(paths))),
                    ),
                )
                &&& sorted_by(paths, name_order())
                &&& forall|path: Seq<char>| #[trigger]
                    paths.contains(path) <==> has_file(
                        directories_in(world),
                        depth,
                        digest_in(world, arguments)->Ok_0,
                        Seq::empty(),
                        path,
                    )
                &&& directories_in(world)(digest_in(world, arguments)->Ok_0) matches Ok(
                    Some(directory),
                )
                &&& paths.to_multiset() == directory.files.to_multiset().add(
                    listings_under(
                        directories_in(world),
                        (depth - 1) as nat,
                        directory.directories,
                    ).to_multiset(),
                )
            },
{
    reveal_strlit("binary");
    reveal_strlit("text");
    reveal_strlit("recursive-file-list");
    assert("recursive-file-list"@.len() != "binary"@.len());
    assert("recursive-file-list"@.len() != "text"@.len());
    let directories = directories_in(world);
    let digest = digest_in(world, arguments)->Ok_0;
    law_listing_succeeds(directories, depth, digest);
    let found = tree(directories, depth, digest, Seq::empty())->0->Ok_0->0;
    let paths = in_order(found);
    assert(listing_of(directories, depth, digest) == Some(
        Ok::<Option<Seq<Seq<char>>>, Seq<char>>(Some(paths)),
    ));
    law_in_order(found, Seq::empty());
    assert forall|path: Seq<char>| #[trigger] paths.contains(path) <==> has_file(
        directories,
        depth,
        digest,
        Seq::empty(),
        path,
    ) by {
        law_listing_holds_every_file(directories, depth, digest, path);
    }
    law_listing_is_composed(directories, depth, digest, directories(digest)->Ok_0->0);
    assert(outcome_of(world, depth, request) == Some(
        OutcomeView::<S>::Success(OutputView::Stdout(encode_utf8(lines(paths)))),
    ));
}

/// A recursive file list that fails, but not for want of the directory, tells
/// the message of a directory on the way that fails to load, or of an unusable
/// address on the way.
pub proof fn law_file_list_tells_what_failed<S>(
    world: World<S>,
    depth: nat,
    request: RequestView,
    arguments: DigestArgumentsView,
)
    requires
        store_opens(world, request),
        request.command == (CommandView::DirectoryCatProto {
            digest: arguments,
            output_format: Some(Some("recursive-file-list"@)),
        }),
        digest_in(world, arguments) is Ok,
    ensures
        outcome_of(world, depth, request) matches Some(OutcomeView::Failure(error)) ==> {
            ||| error.code == ExitCode::UnknownError && fails_with(
                directories_in(world),
                depth,
                digest_in(world, arguments)->Ok_0,
                error.message,
            )
            ||| error.code == ExitCode::NotFound && directories_in(world)(
                digest_in(world, arguments)->Ok_0,
            ) == Ok::<Option<DirectoryView>, Seq<char>>(None)
        },
{
    reveal_strlit("binary");
    reveal_strlit("text");
    reveal_strlit("recursive-file-list");
    assert("recursive-file-list"@.len() != "binary"@.len());
    assert("recursive-file-list"@.len() != "text"@.len());
    let directories = directories_in(world);
    let digest = digest_in(world, arguments)->Ok_0;
    law_listing_succeeds(directories, depth, digest);
    if let Some(Err(message)) = listing_of(directories, depth, digest) {
        law_listing_tells_what_failed(directories, depth, digest, message);
    }
}

} // verus!
