//! What each command asks for, in order, once the store is open, and how it
//! ends.

use vstd::prelude::*;
use vstd::utf8::encode_utf8;

use crate::args::ArgumentView;
use crate::args::CommandView;
use crate::args::DigestArgumentsView;
use crate::digest::DigestView;
use crate::execute::listing_step;
use crate::execute::opened;
use crate::execute::resumed;
use crate::execute::saved;
use crate::execution::Defect;
use crate::execution::ExecutionView;
use crate::execution::Missing;
use crate::execution::NextView;
use crate::execution::OutcomeView;
use crate::execution::PurposeView;
use crate::execution::SavingView;
use crate::exit::ExitCode;
use crate::listing::children;
use crate::listing::first_bad_digest;
use crate::listing::listing_from;
use crate::listing::prefixed;
use crate::listing::proceed;
use crate::listing::ExpandStepView;
use crate::listing::ExpansionView;
use crate::listing::ListedView;
use crate::listing::LoadedView;
use crate::outcome::sensible;
use crate::outcome::World;
use crate::protocol::answers;
use crate::protocol::QueryView;
use crate::protocol::SnapshotFailureView;
use crate::protocol::StatView;
use crate::report::OutputView;
use crate::report::SummaryWithDigestView;
use crate::text::decimal;
use crate::text::law_occurs_in;
use crate::text::lines;
use crate::text::number;
use crate::text::quoted_path;
use crate::transcript::broken_down;
use crate::transcript::broken_off;
use crate::transcript::law_transcripts_join;
use crate::transcript::lemma_more;
use crate::transcript::lemma_none;
use crate::transcript::lemma_one;
use crate::transcript::lemma_three;
use crate::transcript::lemma_two;
use crate::transcript::reaches;
use crate::transcript::shown;
use crate::transcript::told;
use crate::walk::law_listing_ends;
use crate::walk::lemma_good_digests;
use crate::walk::listing_of;
use crate::walk::walk;
use crate::walk::Directories;

verus! {

// ---- Addresses ----

/// Whether a command is about the blob that these arguments address, and lacks
/// nothing else that it has to know before it reads them.
pub open spec fn is_about(command: CommandView, arguments: DigestArgumentsView) -> bool {
    match command {
        CommandView::FileCat { digest } => digest == arguments,
        CommandView::Cat { digest } => digest == arguments,
        CommandView::DirectoryCatProto { digest, .. } => digest == arguments,
        CommandView::DirectoryMaterialize { destination, digest } => {
            &&& destination is Some
            &&& destination->0 is Some
            &&& digest == arguments
        },
        _ => false,
    }
}

/// The query that reads the fingerprint of an address.
pub open spec fn reads_fingerprint_of(arguments: DigestArgumentsView) -> QueryView {
    QueryView::ParseFingerprint { text: arguments.fingerprint->0->0 }
}

/// Whether two arguments give this address: the first is read as its
/// fingerprint, and the second is its size.
pub open spec fn gives_address<S>(
    world: World<S>,
    arguments: DigestArgumentsView,
    digest: DigestView,
) -> bool {
    &&& arguments.fingerprint is Some
    &&& arguments.fingerprint->0 is Some
    &&& world(reads_fingerprint_of(arguments))->Fingerprint_0 == Ok::<Seq<char>, Seq<char>>(
        digest.fingerprint,
    )
    &&& arguments.size_bytes is Some
    &&& arguments.size_bytes->0 is Some
    &&& number(arguments.size_bytes->0->0) == Some(digest.size_bytes)
}

/// A command that is about a blob ends before it has asked for it where its
/// arguments give no address. It reads the fingerprint first, and asks for
/// nothing but that.
pub proof fn law_bad_address_ends_the_run<S>(
    world: World<S>,
    command: CommandView,
    has_remote: bool,
    arguments: DigestArgumentsView,
)
    requires
        sensible(world),
        is_about(command, arguments),
    ensures
        ({
            let start = opened::<S>(command, has_remote);
            let read = reads_fingerprint_of(arguments);
            match arguments.fingerprint {
                None => reaches(world, start, seq![], broken_off(Defect::MissingArgument)),
                Some(None) => reaches(world, start, seq![], broken_off(Defect::NotUnicode)),
                Some(Some(_)) => match world(read)->Fingerprint_0 {
                    Err(message) => reaches(
                        world,
                        start,
                        seq![read],
                        told(message, ExitCode::UnknownError),
                    ),
                    Ok(_) => match arguments.size_bytes {
                        None => reaches(
                            world,
                            start,
                            seq![read],
                            broken_off(Defect::MissingArgument),
                        ),
                        Some(None) => reaches(
                            world,
                            start,
                            seq![read],
                            broken_off(Defect::NotUnicode),
                        ),
                        Some(Some(size)) => number(size) is None ==> reaches(
                            world,
                            start,
                            seq![read],
                            broken_off(Defect::BadSizeBytes),
                        ),
                    },
                },
            }
        }),
{
    let start = opened::<S>(command, has_remote);
    lemma_none(world, start);
    if let Some(Some(_)) = arguments.fingerprint {
        let read = reads_fingerprint_of(arguments);
        assert(answers(read, world(read)));
        let rest = start->rest;
        lemma_one(world, read, rest, resumed(rest, world(read)));
    }
}

// ---- Printing ----

/// `file cat` reads the address and loads the file at it. It prints the bytes
/// of the file; where the store has no such file, it asks how the address is
/// named, and says so.
pub proof fn law_file_cat<S>(
    world: World<S>,
    has_remote: bool,
    arguments: DigestArgumentsView,
    digest: DigestView,
)
    requires
        sensible(world),
        gives_address(world, arguments, digest),
    ensures
        ({
            let start = opened::<S>(CommandView::FileCat { digest: arguments }, has_remote);
            let read = reads_fingerprint_of(arguments);
            let load = QueryView::LoadFile { digest };
            let describe = QueryView::DescribeDigest { digest };
            match world(load)->Bytes_0 {
                Err(message) => reaches(
                    world,
                    start,
                    seq![read, load],
                    told(message, ExitCode::UnknownError),
                ),
                Ok(Some(bytes)) => reaches(world, start, seq![read, load], shown(bytes)),
                Ok(None) => reaches(
                    world,
                    start,
                    seq![read, load, describe],
                    told(
                        "File with digest "@ + world(describe)->Description_0 + " not found"@,
                        ExitCode::NotFound,
                    ),
                ),
            }
        }),
{
    let read = reads_fingerprint_of(arguments);
    let load = QueryView::LoadFile { digest };
    let describe = QueryView::DescribeDigest { digest };
    assert(answers(read, world(read)));
    assert(answers(load, world(load)));
    assert(answers(describe, world(describe)));
    let a = ExecutionView::Fingerprint {
        size_bytes: arguments.size_bytes,
        purpose: PurposeView::FileCat,
    };
    let b = ExecutionView::FileCat { digest };
    let c = ExecutionView::Describe { missing: Missing::File };
    if world(load)->Bytes_0 == Ok::<Option<Seq<u8>>, Seq<char>>(None) {
        lemma_three(world, read, a, load, b, describe, c, resumed(c, world(describe)));
    } else {
        lemma_two(world, read, a, load, b, resumed(b, world(load)));
    }
}

/// `cat` reads the address and loads the file at it; only where the store has
/// no such file, it loads the directory. It prints the bytes of what it finds
/// first; where the store has neither, it asks how the address is named, and
/// says so.
pub proof fn law_cat<S>(
    world: World<S>,
    has_remote: bool,
    arguments: DigestArgumentsView,
    digest: DigestView,
)
    requires
        sensible(world),
        gives_address(world, arguments, digest),
    ensures
        ({
            let start = opened::<S>(CommandView::Cat { digest: arguments }, has_remote);
            let read = reads_fingerprint_of(arguments);
            let file = QueryView::LoadFile { digest };
            let directory = QueryView::LoadDirectoryBytes { digest };
            let describe = QueryView::DescribeDigest { digest };
            match world(file)->Bytes_0 {
                Err(message) => reaches(
                    world,
                    start,
                    seq![read, file],
                    told(message, ExitCode::UnknownError),
                ),
                Ok(Some(bytes)) => reaches(world, start, seq![read, file], shown(bytes)),
                Ok(None) => match world(directory)->Bytes_0 {
                    Err(message) => reaches(
                        world,
                        start,
                        seq![read, file, directory],
                        told(message, ExitCode::UnknownError),
                    ),
                    Ok(Some(bytes)) => reaches(
                        world,
                        start,
                        seq![read, file, directory],
                        shown(bytes),
                    ),
                    Ok(None) => reaches(
                        world,
                        start,
                        seq![read, file, directory, describe],
                        told(
                            "Digest "@ + world(describe)->Description_0 + " not found"@,
                            ExitCode::NotFound,
                        ),
                    ),
                },
            }
        }),
{
    let read = reads_fingerprint_of(arguments);
    let file = QueryView::LoadFile { digest };
    let directory = QueryView::LoadDirectoryBytes { digest };
    let describe = QueryView::DescribeDigest { digest };
    assert(answers(read, world(read)));
    assert(answers(file, world(file)));
    assert(answers(directory, world(directory)));
    assert(answers(describe, world(describe)));
    let a = ExecutionView::Fingerprint {
        size_bytes: arguments.size_bytes,
        purpose: PurposeView::Cat,
    };
    let b = ExecutionView::CatFile { digest };
    let c = ExecutionView::CatDirectory { digest };
    let d = ExecutionView::Describe { missing: Missing::Either };
    if world(file)->Bytes_0 == Ok::<Option<Seq<u8>>, Seq<char>>(None) {
        if world(directory)->Bytes_0 == Ok::<Option<Seq<u8>>, Seq<char>>(None) {
            let last = resumed(d, world(describe));
            lemma_three(world, file, b, directory, c, describe, d, last);
            lemma_more(world, read, a, seq![file, directory, describe], last);
            assert(seq![read] + seq![file, directory, describe] =~= seq![
                read,
                file,
                directory,
                describe,
            ]);
        } else {
            lemma_three(world, read, a, file, b, directory, c, resumed(c, world(directory)));
        }
    } else {
        lemma_two(world, read, a, file, b, resumed(b, world(file)));
    }
}

/// `directory cat-proto` in the binary format reads the address, loads the
/// bytes that stand for the directory, and prints them; in the text format it
/// loads the text of the directory, and prints it with a line break. Where the
/// store has no such directory, it asks how the address is named, and says so.
pub proof fn law_cat_proto<S>(
    world: World<S>,
    has_remote: bool,
    arguments: DigestArgumentsView,
    digest: DigestView,
)
    requires
        sensible(world),
        gives_address(world, arguments, digest),
    ensures
        ({
            let read = reads_fingerprint_of(arguments);
            let describe = QueryView::DescribeDigest { digest };
            let absence = told::<S>(
                "Directory with digest "@ + world(describe)->Description_0 + " not found"@,
                ExitCode::NotFound,
            );
            &&& {
                let start = opened::<S>(
                    CommandView::DirectoryCatProto {
                        digest: arguments,
                        output_format: Some(Some("binary"@)),
                    },
                    has_remote,
                );
                let load = QueryView::LoadDirectoryBytes { digest };
                match world(load)->Bytes_0 {
                    Err(message) => reaches(
                        world,
                        start,
                        seq![read, load],
                        told(message, ExitCode::UnknownError),
                    ),
                    Ok(Some(bytes)) => reaches(world, start, seq![read, load], shown(bytes)),
                    Ok(None) => reaches(world, start, seq![read, load, describe], absence),
                }
            }
            &&& {
                let start = opened::<S>(
                    CommandView::DirectoryCatProto {
                        digest: arguments,
                        output_format: Some(Some("text"@)),
                    },
                    has_remote,
                );
                let load = QueryView::LoadDirectoryText { digest };
                match world(load)->Text_0 {
                    Err(message) => reaches(
                        world,
                        start,
                        seq![read, load],
                        told(message, ExitCode::UnknownError),
                    ),
                    Ok(Some(text)) => reaches(
                        world,
                        start,
                        seq![read, load],
                        shown(encode_utf8(text + "\n"@)),
                    ),
                    Ok(None) => reaches(world, start, seq![read, load, describe], absence),
                }
            }
        }),
{
    reveal_strlit("binary");
    reveal_strlit("text");
    assert("binary"@.len() != "text"@.len());
    let read = reads_fingerprint_of(arguments);
    let bytes = QueryView::LoadDirectoryBytes { digest };
    let text = QueryView::LoadDirectoryText { digest };
    let describe = QueryView::DescribeDigest { digest };
    assert(answers(read, world(read)));
    assert(answers(bytes, world(bytes)));
    assert(answers(text, world(text)));
    assert(answers(describe, world(describe)));
    let size_bytes = arguments.size_bytes;
    let c = ExecutionView::Describe { missing: Missing::Directory };
    {
        let purpose = PurposeView::CatProto { output_format: Some(Some("binary"@)) };
        let a = ExecutionView::Fingerprint { size_bytes, purpose };
        let b = ExecutionView::CatProtoBytes { digest };
        if world(bytes)->Bytes_0 == Ok::<Option<Seq<u8>>, Seq<char>>(None) {
            lemma_three(world, read, a, bytes, b, describe, c, resumed(c, world(describe)));
        } else {
            lemma_two(world, read, a, bytes, b, resumed(b, world(bytes)));
        }
    }
    {
        let purpose = PurposeView::CatProto { output_format: Some(Some("text"@)) };
        let a = ExecutionView::Fingerprint { size_bytes, purpose };
        let b = ExecutionView::CatProtoText { digest };
        if world(text)->Text_0 == Ok::<Option<Seq<char>>, Seq<char>>(None) {
            lemma_three(world, read, a, text, b, describe, c, resumed(c, world(describe)));
        } else {
            lemma_two(world, read, a, text, b, resumed(b, world(text)));
        }
    }
}

/// `directory cat-proto` needs a format, and tells one that it does not know.
/// It asks for nothing but the fingerprint then.
pub proof fn law_cat_proto_needs_a_format<S>(
    world: World<S>,
    has_remote: bool,
    arguments: DigestArgumentsView,
    digest: DigestView,
    output_format: ArgumentView,
)
    requires
        sensible(world),
        gives_address(world, arguments, digest),
    ensures
        ({
            let start = opened::<S>(
                CommandView::DirectoryCatProto { digest: arguments, output_format },
                has_remote,
            );
            let queries = seq![reads_fingerprint_of(arguments)];
            match output_format {
                None => reaches(world, start, queries, broken_off(Defect::MissingArgument)),
                Some(None) => reaches(world, start, queries, broken_off(Defect::NotUnicode)),
                Some(Some(format)) => {
                    ||| format == "binary"@
                    ||| format == "text"@
                    ||| format == "recursive-file-list"@
                    ||| reaches(
                        world,
                        start,
                        queries,
                        told(
                            "Unexpected value of --output-format arg: "@ + format,
                            ExitCode::UnknownError,
                        ),
                    )
                },
            }
        }),
{
    let read = reads_fingerprint_of(arguments);
    assert(answers(read, world(read)));
    let rest = ExecutionView::Fingerprint {
        size_bytes: arguments.size_bytes,
        purpose: PurposeView::CatProto { output_format },
    };
    lemma_one(world, read, rest, resumed(rest, world(read)));
}

/// Whether directories lead from the one at `root` to the one at `digest`, in so
/// many steps.
pub open spec fn leads_down(
    directories: Directories,
    root: DigestView,
    steps: nat,
    digest: DigestView,
) -> bool
    decreases steps,
{
    if steps == 0 {
        digest == root
    } else {
        exists|above: DigestView| #[trigger]
            holds_directory(directories(above), digest) && leads_down(
                directories,
                root,
                (steps - 1) as nat,
                above,
            )
    }
}

/// Whether what was loaded is a directory that holds one at this address.
pub open spec fn holds_directory(loaded: LoadedView, digest: DigestView) -> bool {
    match loaded {
        Ok(Some(directory)) => exists|i: int|
            0 <= i < directory.directories.len() && (#[trigger] directory.directories[i]).digest
                == Ok::<DigestView, Seq<char>>(digest),
        _ => false,
    }
}

/// Whether directories lead from the one at `root` to the one at `digest`.
pub open spec fn is_below(directories: Directories, root: DigestView, digest: DigestView) -> bool {
    exists|steps: nat| #[trigger] leads_down(directories, root, steps, digest)
}

/// Whether all of these queries load directories that the one at `root` leads
/// to.
pub open spec fn load_directories(
    directories: Directories,
    root: DigestView,
    queries: Seq<QueryView>,
) -> bool {
    forall|i: int|
        0 <= i < queries.len() ==> (#[trigger] queries[i]) is LoadDirectory && is_below(
            directories,
            root,
            queries[i]->LoadDirectory_digest,
        )
}

/// Whether the directories that a listing is still to load are all led to.
spec fn stays_below(directories: Directories, root: DigestView, step: ExpandStepView) -> bool {
    match step {
        ExpandStepView::Done(_) => true,
        ExpandStepView::Load { digest, rest } => {
            &&& is_below(directories, root, digest)
            &&& all_below(directories, root, rest.pending)
        },
    }
}

/// Whether these directories are all led to.
spec fn all_below(
    directories: Directories,
    root: DigestView,
    pending: Seq<(DigestView, Seq<char>)>,
) -> bool {
    forall|i: int| 0 <= i < pending.len() ==> is_below(directories, root, (#[trigger] pending[i]).0)
}

proof fn lemma_proceeds_below(
    directories: Directories,
    root: DigestView,
    files: Seq<Seq<char>>,
    pending: Seq<(DigestView, Seq<char>)>,
)
    requires
        all_below(directories, root, pending),
    ensures
        stays_below(directories, root, proceed(files, pending)),
{
    if pending.len() > 0 {
        assert(pending.last() == pending[pending.len() - 1]);
        let left = pending.drop_last();
        assert(forall|i: int| 0 <= i < left.len() ==> #[trigger] left[i] == pending[i]);
    }
}

proof fn lemma_stays_below(
    directories: Directories,
    root: DigestView,
    digest: DigestView,
    rest: ExpansionView,
)
    requires
        stays_below(directories, root, ExpandStepView::Load { digest, rest }),
    ensures
        stays_below(directories, root, rest.with(directories(digest))),
{
    if let Ok(Some(directory)) = directories(digest) {
        let nodes = directory.directories;
        lemma_good_digests(nodes);
        if first_bad_digest(nodes) is None {
            let found = children(rest.prefix, nodes).reverse();
            let pending = rest.pending + found;
            assert forall|i: int| 0 <= i < pending.len() implies is_below(
                directories,
                root,
                (#[trigger] pending[i]).0,
            ) by {
                if i < rest.pending.len() {
                    assert(pending[i] == rest.pending[i]);
                } else {
                    let k = nodes.len() - 1 - (i - rest.pending.len());
                    assert(pending[i] == found[i - rest.pending.len()]);
                    assert(pending[i].0 == nodes[k].digest->Ok_0);
                    assert(nodes[k].digest is Ok);
                    let below = pending[i].0;
                    assert(nodes[k].digest == Ok::<DigestView, Seq<char>>(below));
                    assert(holds_directory(directories(digest), below));
                    let steps = choose|steps: nat| #[trigger]
                        leads_down(directories, root, steps, digest);
                    assert(leads_down(directories, root, steps + 1, below));
                    assert(is_below(directories, root, below));
                }
            }
            lemma_proceeds_below(
                directories,
                root,
                rest.files + prefixed(rest.prefix, directory.files),
                pending,
            );
        }
    } else {
        lemma_proceeds_below(directories, root, rest.files, rest.pending);
    }
}

proof fn lemma_listing_runs<S>(
    world: World<S>,
    directories: Directories,
    digest: DigestView,
    step: ExpandStepView,
    loads: nat,
    listed: ListedView,
) -> (queries: Seq<QueryView>)
    requires
        sensible(world),
        forall|d: DigestView| #[trigger]
            directories(d) == world(QueryView::LoadDirectory { digest: d })->Directory_0,
        walk(directories, step, loads) == Some(listed),
        stays_below(directories, digest, step),
    ensures
        load_directories(directories, digest, queries),
        reaches(
            world,
            listing_step(digest, step),
            queries,
            listing_step(digest, ExpandStepView::Done(listed)),
        ),
    decreases loads,
{
    match step {
        ExpandStepView::Done(_) => Seq::empty(),
        ExpandStepView::Load { digest: wanted, rest } => {
            let query = QueryView::LoadDirectory { digest: wanted };
            assert(answers(query, world(query)));
            let next = rest.with(directories(wanted));
            lemma_stays_below(directories, digest, wanted, rest);
            let queries = lemma_listing_runs(
                world,
                directories,
                digest,
                next,
                (loads - 1) as nat,
                listed,
            );
            lemma_more(
                world,
                query,
                ExecutionView::CatProtoList { digest, expansion: rest },
                queries,
                listing_step(digest, ExpandStepView::Done(listed)),
            );
            seq![query] + queries
        },
    }
}

/// `directory cat-proto` in the format of a recursive file list reads the
/// address, and loads directories that the one at the address leads to, and
/// nothing else. It prints the paths of the
/// listing, each with a line break, or tells the message of a listing that
/// fails; where the store has no such directory, it asks how the address is
/// named, and says so.
pub proof fn law_recursive_file_list<S>(
    world: World<S>,
    directories: Directories,
    depth: nat,
    has_remote: bool,
    arguments: DigestArgumentsView,
    digest: DigestView,
)
    requires
        sensible(world),
        forall|d: DigestView| #[trigger]
            directories(d) == world(QueryView::LoadDirectory { digest: d })->Directory_0,
        gives_address(world, arguments, digest),
        listing_of(directories, depth, digest) is Some,
    ensures
        exists|loads: Seq<QueryView>|
            {
                let start = opened::<S>(
                    CommandView::DirectoryCatProto {
                        digest: arguments,
                        output_format: Some(Some("recursive-file-list"@)),
                    },
                    has_remote,
                );
                let queries = seq![reads_fingerprint_of(arguments)] + loads;
                let describe = QueryView::DescribeDigest { digest };
                &&& #[trigger] load_directories(directories, digest, loads)
                &&& match listing_of(directories, depth, digest)->0 {
                    Err(message) => reaches(
                        world,
                        start,
                        queries,
                        told(message, ExitCode::UnknownError),
                    ),
                    Ok(Some(paths)) => reaches(
                        world,
                        start,
                        queries,
                        shown(encode_utf8(lines(paths))),
                    ),
                    Ok(None) => reaches(
                        world,
                        start,
                        queries + seq![describe],
                        told(
                            "Directory with digest "@ + world(describe)->Description_0
                                + " not found"@,
                            ExitCode::NotFound,
                        ),
                    ),
                }
            },
{
    reveal_strlit("binary");
    reveal_strlit("text");
    reveal_strlit("recursive-file-list");
    assert("recursive-file-list"@.len() != "binary"@.len());
    assert("recursive-file-list"@.len() != "text"@.len());
    law_listing_ends(directories, depth, digest);
    let listed = listing_of(directories, depth, digest)->0;
    let n = choose|n: nat| #[trigger]
        walk(directories, listing_from(digest), n) == listing_of(directories, depth, digest);
    assert(leads_down(directories, digest, 0, digest));
    let loads = lemma_listing_runs(world, directories, digest, listing_from(digest), n, listed);
    let last = listing_step::<S>(digest, ExpandStepView::Done(listed));
    let read = reads_fingerprint_of(arguments);
    assert(answers(read, world(read)));
    let rest = ExecutionView::Fingerprint {
        size_bytes: arguments.size_bytes,
        purpose: PurposeView::CatProto { output_format: Some(Some("recursive-file-list"@)) },
    };
    lemma_more(world, read, rest, loads, last);
    let describe = QueryView::DescribeDigest { digest };
    assert(answers(describe, world(describe)));
    if let Ok(None) = listed {
        let missing = ExecutionView::Describe { missing: Missing::Directory };
        let end = resumed(missing, world(describe));
        lemma_one(world, describe, missing, end);
        law_transcripts_join(
            world,
            NextView::Ask { query: read, rest },
            seq![read] + loads,
            last,
            seq![describe],
            end,
        );
    }
}

// ---- Writing ----

/// `directory materialize` needs a destination. It reads the address and has
/// the directory at it written to the destination. Where that fails and the
/// message says somewhere that something was not found, the failure has the
/// status for that.
pub proof fn law_materialize<S>(
    world: World<S>,
    has_remote: bool,
    destination: ArgumentView,
    arguments: DigestArgumentsView,
    digest: DigestView,
)
    requires
        sensible(world),
    ensures
        ({
            let start = opened::<S>(
                CommandView::DirectoryMaterialize { destination, digest: arguments },
                has_remote,
            );
            match destination {
                None => reaches(world, start, seq![], broken_off(Defect::MissingArgument)),
                Some(None) => reaches(world, start, seq![], broken_off(Defect::NotUnicode)),
                Some(Some(path)) => gives_address(world, arguments, digest) ==> {
                    let write = QueryView::Materialize { destination: path, digest };
                    let queries = seq![reads_fingerprint_of(arguments), write];
                    match world(write)->Finished_0 {
                        Ok(()) => reaches(
                            world,
                            start,
                            queries,
                            NextView::Finish(OutcomeView::Success(OutputView::Nothing)),
                        ),
                        Err(message) => if exists|before: Seq<char>, after: Seq<char>|
                            message == #[trigger] (before + "not found"@ + after) {
                            reaches(world, start, queries, told(message, ExitCode::NotFound))
                        } else {
                            reaches(world, start, queries, told(message, ExitCode::UnknownError))
                        },
                    }
                },
            }
        }),
{
    let start = opened::<S>(
        CommandView::DirectoryMaterialize { destination, digest: arguments },
        has_remote,
    );
    lemma_none(world, start);
    if let Some(Some(path)) = destination {
        if gives_address(world, arguments, digest) {
            let read = reads_fingerprint_of(arguments);
            let write = QueryView::Materialize { destination: path, digest };
            assert(answers(read, world(read)));
            assert(answers(write, world(write)));
            let a = ExecutionView::Fingerprint {
                size_bytes: arguments.size_bytes,
                purpose: PurposeView::Materialize { destination: path },
            };
            let b = ExecutionView::Materialize;
            lemma_two(world, read, a, write, b, resumed(b, world(write)));
            if let Err(message) = world(write)->Finished_0 {
                law_occurs_in("not found"@, message);
            }
        }
    }
}

/// `gc` needs a target that is a number, and has the store shrunk to that many
/// bytes, and compacted.
pub proof fn law_garbage_is_collected<S>(
    world: World<S>,
    has_remote: bool,
    target: ArgumentView,
)
    requires
        sensible(world),
    ensures
        ({
            let start = opened::<S>(
                CommandView::GarbageCollect { target_size_bytes: target },
                has_remote,
            );
            match target {
                None => reaches(world, start, seq![], broken_off(Defect::BadTargetSize)),
                Some(None) => reaches(world, start, seq![], broken_off(Defect::NotUnicode)),
                Some(Some(text)) => match number(text) {
                    None => reaches(world, start, seq![], broken_off(Defect::BadTargetSize)),
                    Some(n) => {
                        let collect = QueryView::CollectGarbage {
                            target_size_bytes: n,
                            compact: true,
                        };
                        match world(collect)->Finished_0 {
                            Ok(()) => reaches(
                                world,
                                start,
                                seq![collect],
                                NextView::Finish(OutcomeView::Success(OutputView::Nothing)),
                            ),
                            Err(message) => reaches(
                                world,
                                start,
                                seq![collect],
                                told(message, ExitCode::UnknownError),
                            ),
                        }
                    },
                },
            }
        }),
{
    let start = opened::<S>(CommandView::GarbageCollect { target_size_bytes: target }, has_remote);
    lemma_none(world, start);
    if let Some(Some(text)) = target {
        if let Some(n) = number(text) {
            let collect = QueryView::CollectGarbage { target_size_bytes: n, compact: true };
            assert(answers(collect, world(collect)));
            let rest = ExecutionView::GarbageCollect;
            lemma_one(world, collect, rest, resumed(rest, world(collect)));
        }
    }
}

/// A command line without a command that does anything breaks off once the
/// store is open.
pub proof fn law_nothing_to_do<S>(world: World<S>, has_remote: bool)
    ensures
        reaches(
            world,
            opened::<S>(CommandView::Unimplemented, has_remote),
            seq![],
            broken_off(Defect::Unimplemented),
        ),
{
    lemma_none(world, opened::<S>(CommandView::Unimplemented, has_remote));
}

// ---- Saving ----

/// How a run ends that has saved something and, where it uploaded it, got this
/// summary: in the output mode `json` it prints both as JSON, in the mode
/// `simple` a line with the fingerprint, a space and the size; of any other
/// mode, and of none, it complains.
pub open spec fn report_of<S>(
    output_mode: ArgumentView,
    digest: DigestView,
    summary: Option<S>,
) -> NextView<S> {
    match output_mode {
        Some(None) => broken_off(Defect::NotUnicode),
        Some(Some(mode)) => if mode == "json"@ {
            NextView::Finish(
                OutcomeView::Success(OutputView::Json(SummaryWithDigestView { digest, summary })),
            )
        } else if mode == "simple"@ {
            shown(
                encode_utf8(
                    digest.fingerprint + " "@ + decimal(digest.size_bytes as nat) + "\n"@,
                ),
            )
        } else {
            NextView::Finish(
                OutcomeView::Success(OutputView::Stderr("Unknown summary format.\n"@)),
            )
        },
        None => NextView::Finish(
            OutcomeView::Success(OutputView::Stderr("Unknown summary format.\n"@)),
        ),
    }
}

/// Whether a run that is at `start` gets something saved by these queries, of
/// this address, and goes on as it has to: where there is a remote store, what
/// was saved is uploaded, whatever the output mode, and the run breaks down
/// where that fails; where there is none, nothing is uploaded. What was saved
/// is reported then.
pub open spec fn uploads_and_reports<S>(
    world: World<S>,
    start: NextView<S>,
    queries: Seq<QueryView>,
    has_remote: bool,
    digest: DigestView,
    output_mode: ArgumentView,
) -> bool {
    let upload = QueryView::EnsureUploaded { digest };
    if has_remote {
        match world(upload)->Uploaded_0 {
            Err(reason) => reaches(
                world,
                start,
                queries + seq![upload],
                broken_down("Error uploading what was saved: "@ + reason),
            ),
            Ok(summary) => reaches(
                world,
                start,
                queries + seq![upload],
                report_of(output_mode, digest, Some(summary)),
            ),
        }
    } else {
        reaches(world, start, queries, report_of(output_mode, digest, None))
    }
}

/// What was saved is uploaded and reported as [`uploads_and_reports`] says.
pub proof fn law_what_is_saved_is_uploaded<S>(
    world: World<S>,
    saving: SavingView,
    digest: DigestView,
)
    requires
        sensible(world),
    ensures
        uploads_and_reports(
            world,
            saved(saving, digest),
            seq![],
            saving.has_remote,
            digest,
            saving.output_mode,
        ),
{
    reveal_strlit("json");
    reveal_strlit("simple");
    assert("simple"@.len() != "json"@.len());
    let upload = QueryView::EnsureUploaded { digest };
    assert(answers(upload, world(upload)));
    if saving.has_remote {
        let rest = ExecutionView::Upload { digest, output_mode: saving.output_mode };
        lemma_one(world, upload, rest, resumed(rest, world(upload)));
        assert(seq![] + seq![upload] =~= seq![upload]);
    }
}

proof fn lemma_goes_on_to_upload<S>(
    world: World<S>,
    start: NextView<S>,
    queries: Seq<QueryView>,
    saving: SavingView,
    digest: DigestView,
)
    requires
        sensible(world),
        reaches(world, start, queries, saved(saving, digest)),
    ensures
        uploads_and_reports(
            world,
            start,
            queries,
            saving.has_remote,
            digest,
            saving.output_mode,
        ),
{
    law_what_is_saved_is_uploaded(world, saving, digest);
    let upload = QueryView::EnsureUploaded { digest };
    let middle = saved::<S>(saving, digest);
    assert(seq![] + seq![upload] =~= seq![upload]);
    if saving.has_remote {
        let last = match world(upload)->Uploaded_0 {
            Err(reason) => broken_down("Error uploading what was saved: "@ + reason),
            Ok(summary) => report_of(saving.output_mode, digest, Some(summary)),
        };
        law_transcripts_join(world, start, queries, middle, seq![upload], last);
    }
}

/// `file save` needs a path. It finds the directory that the file is in, looks
/// at the file, and saves it, and only a regular file; what was saved is
/// uploaded and reported as [`uploads_and_reports`] says. Each failure on the
/// way ends the run with its own message.
pub proof fn law_file_save<S>(
    world: World<S>,
    has_remote: bool,
    path: ArgumentView,
    output_mode: ArgumentView,
)
    requires
        sensible(world),
    ensures
        ({
            let start = opened::<S>(CommandView::FileSave { path, output_mode }, has_remote);
            match path {
                None => reaches(world, start, seq![], broken_off(Defect::MissingArgument)),
                Some(None) => reaches(world, start, seq![], broken_off(Defect::NotUnicode)),
                Some(Some(path)) => {
                    let find = QueryView::FindParent { path };
                    let stat = QueryView::Stat { path };
                    let save = QueryView::SaveFile { path };
                    match world(find)->Parent_0 {
                        Err(reason) => reaches(
                            world,
                            start,
                            seq![find],
                            told(
                                "Error canonicalizing path "@ + quoted_path(path) + ": "@ + reason,
                                ExitCode::UnknownError,
                            ),
                        ),
                        Ok(false) => reaches(
                            world,
                            start,
                            seq![find],
                            told(
                                "File being saved must have parent but "@ + quoted_path(path)
                                    + " did not"@,
                                ExitCode::UnknownError,
                            ),
                        ),
                        Ok(true) => match world(stat)->Stat_0 {
                            Err(reason) => reaches(
                                world,
                                start,
                                seq![find, stat],
                                broken_down("Error looking at the file being saved: "@ + reason),
                            ),
                            Ok(StatView::Other(description)) => reaches(
                                world,
                                start,
                                seq![find, stat],
                                told(
                                    "Tried to save file "@ + quoted_path(path)
                                        + " but it was not a file, was a "@ + description,
                                    ExitCode::UnknownError,
                                ),
                            ),
                            Ok(StatView::File) => match world(save)->Saved_0 {
                                Err(reason) => reaches(
                                    world,
                                    start,
                                    seq![find, stat, save],
                                    broken_down("Error storing the file being saved: "@ + reason),
                                ),
                                Ok(digest) => uploads_and_reports(
                                    world,
                                    start,
                                    seq![find, stat, save],
                                    has_remote,
                                    digest,
                                    output_mode,
                                ),
                            },
                        },
                    }
                },
            }
        }),
{
    let start = opened::<S>(CommandView::FileSave { path, output_mode }, has_remote);
    lemma_none(world, start);
    if let Some(Some(path)) = path {
        let find = QueryView::FindParent { path };
        let stat = QueryView::Stat { path };
        let save = QueryView::SaveFile { path };
        assert(answers(find, world(find)));
        assert(answers(stat, world(stat)));
        assert(answers(save, world(save)));
        let saving = SavingView { output_mode, has_remote };
        let a = ExecutionView::FindParent { path, saving };
        let b = ExecutionView::Stat { path, saving };
        let c = ExecutionView::SaveFile { saving };
        if world(find)->Parent_0 != Ok::<bool, Seq<char>>(true) {
            lemma_one(world, find, a, resumed(a, world(find)));
        } else if world(stat)->Stat_0 != Ok::<StatView, Seq<char>>(StatView::File) {
            lemma_two(world, find, a, stat, b, resumed(b, world(stat)));
        } else {
            lemma_three(world, find, a, stat, b, save, c, resumed(c, world(save)));
            if let Ok(digest) = world(save)->Saved_0 {
                lemma_goes_on_to_upload(world, start, seq![find, stat, save], saving, digest);
            }
        }
    }
}

/// Whether these values are all Unicode, and are these texts, in the same order.
pub open spec fn are_texts(values: Seq<Option<Seq<char>>>, texts: Seq<Seq<char>>) -> bool {
    &&& values.len() == texts.len()
    &&& forall|i: int| 0 <= i < values.len() ==> #[trigger] values[i] == Some(texts[i])
}

/// `directory save` needs a root and globs. It saves what all the globs match
/// below the root, leaves nothing out, and passes over globs that match
/// nothing; what was saved is uploaded and reported as [`uploads_and_reports`]
/// says. Each failure ends the run with its own message.
pub proof fn law_directory_save<S>(
    world: World<S>,
    has_remote: bool,
    root: ArgumentView,
    globs: Option<Seq<Option<Seq<char>>>>,
    output_mode: ArgumentView,
    patterns: Seq<Seq<char>>,
)
    requires
        sensible(world),
    ensures
        ({
            let start = opened::<S>(
                CommandView::DirectorySave { root, globs, output_mode },
                has_remote,
            );
            match (root, globs) {
                (None, _) => reaches(world, start, seq![], broken_off(Defect::MissingArgument)),
                (Some(None), _) => reaches(world, start, seq![], broken_off(Defect::NotUnicode)),
                (Some(Some(_)), None) => reaches(
                    world,
                    start,
                    seq![],
                    broken_off(Defect::MissingArgument),
                ),
                (Some(Some(root)), Some(list)) => {
                    let save = QueryView::SaveDirectory {
                        root,
                        globs: patterns,
                        excluded: seq![],
                        ignore_unmatched: true,
                        take_all: true,
                    };
                    &&& list.contains(None) ==> reaches(
                        world,
                        start,
                        seq![],
                        broken_off(Defect::NotUnicode),
                    )
                    &&& are_texts(list, patterns) ==> match world(save)->Snapshot_0 {
                        Err(SnapshotFailureView::Globs(message)) => reaches(
                            world,
                            start,
                            seq![save],
                            told(message, ExitCode::UnknownError),
                        ),
                        Err(SnapshotFailureView::Root(reason)) => reaches(
                            world,
                            start,
                            seq![save],
                            broken_down("Error opening the directory being saved: "@ + reason),
                        ),
                        Err(SnapshotFailureView::Expand(reason)) => reaches(
                            world,
                            start,
                            seq![save],
                            told("Error expanding globs: "@ + reason, ExitCode::UnknownError),
                        ),
                        Err(SnapshotFailureView::Store(message)) => reaches(
                            world,
                            start,
                            seq![save],
                            told(message, ExitCode::UnknownError),
                        ),
                        Ok(digest) => uploads_and_reports(
                            world,
                            start,
                            seq![save],
                            has_remote,
                            digest,
                            output_mode,
                        ),
                    }
                },
            }
        }),
{
    let start = opened::<S>(CommandView::DirectorySave { root, globs, output_mode }, has_remote);
    lemma_none(world, start);
    if let (Some(Some(root)), Some(list)) = (root, globs) {
        if list.contains(None) {
            let i = list.index_of(None);
            assert(!(list[i] is Some));
        }
        if are_texts(list, patterns) {
            assert(list.map_values(|glob: Option<Seq<char>>| glob->0) =~= patterns);
            let save = QueryView::SaveDirectory {
                root,
                globs: patterns,
                excluded: seq![],
                ignore_unmatched: true,
                take_all: true,
            };
            assert(answers(save, world(save)));
            let saving = SavingView { output_mode, has_remote };
            let rest = ExecutionView::SaveDirectory { saving };
            lemma_one(world, save, rest, resumed(rest, world(save)));
            if let Ok(digest) = world(save)->Snapshot_0 {
                lemma_goes_on_to_upload(world, start, seq![save], saving, digest);
            }
        }
    }
}

} // verus!
