//! What a run asks for, in order, and how the store is opened.

use vstd::prelude::*;

use crate::args::RequestView;
use crate::execute::opened;
use crate::execute::remote_known;
use crate::execute::resumed;
use crate::execute::started;
use crate::execute::token_needed;
use crate::execution::Defect;
use crate::execution::ExecutionView;
use crate::execution::NextView;
use crate::execution::OutcomeView;
use crate::execution::SetupView;
use crate::exit::ExitCode;
use crate::exit::ExitErrorView;
use crate::outcome::run;
use crate::outcome::sensible;
use crate::outcome::World;
use crate::protocol::answers;
use crate::protocol::QueryView;
use crate::report::OutputView;
use crate::store::RemoteOptionsView;
use crate::store::StoreOptionsView;
use crate::text::number;
use crate::text::quoted;
use crate::text::quoted_path;

verus! {

/// Whether a run that is at `next` asks these queries, in this order and no
/// others, and is at `last` then.
pub open spec fn reaches<S>(
    world: World<S>,
    next: NextView<S>,
    queries: Seq<QueryView>,
    last: NextView<S>,
) -> bool
    decreases queries.len(),
{
    if queries.len() == 0 {
        next == last
    } else {
        match next {
            NextView::Ask { query, rest } => query == queries[0] && reaches(
                world,
                resumed(rest, world(query)),
                queries.drop_first(),
                last,
            ),
            NextView::Finish(_) => false,
        }
    }
}

/// The end of a run that fails and tells this message.
pub open spec fn told<S>(message: Seq<char>, code: ExitCode) -> NextView<S> {
    NextView::Finish(OutcomeView::Failure(ExitErrorView { message, code }))
}

/// The end of a run that succeeds and prints these bytes.
pub open spec fn shown<S>(bytes: Seq<u8>) -> NextView<S> {
    NextView::Finish(OutcomeView::Success(OutputView::Stdout(bytes)))
}

/// The end of a run on a command line that the tool was not made for.
pub open spec fn broken_off<S>(defect: Defect) -> NextView<S> {
    NextView::Finish(OutcomeView::Defect(defect))
}

/// The end of a run because something failed that it counts on.
pub open spec fn broken_down<S>(message: Seq<char>) -> NextView<S> {
    NextView::Finish(OutcomeView::Breakdown(message))
}

/// What a run asks for on the way from one place to a second, and then on the
/// way to a third, it asks for on the way from the first to the third.
pub proof fn law_transcripts_join<S>(
    world: World<S>,
    a: NextView<S>,
    p: Seq<QueryView>,
    b: NextView<S>,
    q: Seq<QueryView>,
    c: NextView<S>,
)
    requires
        reaches(world, a, p, b),
        reaches(world, b, q, c),
    ensures
        reaches(world, a, p + q, c),
    decreases p.len(),
{
    if p.len() == 0 {
        assert(p + q =~= q);
    } else {
        let query = a->query;
        law_transcripts_join(
            world,
            resumed(a->rest, world(query)),
            p.drop_first(),
            b,
            q,
            c,
        );
        assert((p + q).drop_first() =~= p.drop_first() + q);
    }
}

/// A run that asks these queries and ends, ends that way once it has asked as
/// many.
pub proof fn law_transcript_ends<S>(
    world: World<S>,
    next: NextView<S>,
    queries: Seq<QueryView>,
    outcome: OutcomeView<S>,
)
    requires
        reaches(world, next, queries, NextView::Finish(outcome)),
    ensures
        run(world, next, queries.len()) == Some(outcome),
    decreases queries.len(),
{
    if queries.len() > 0 {
        law_transcript_ends(
            world,
            resumed(next->rest, world(next->query)),
            queries.drop_first(),
            outcome,
        );
    }
}

/// What a run asks for, and how it ends, is settled by the world.
pub proof fn law_transcript_is_settled<S>(
    world: World<S>,
    next: NextView<S>,
    a: Seq<QueryView>,
    x: OutcomeView<S>,
    b: Seq<QueryView>,
    y: OutcomeView<S>,
)
    requires
        reaches(world, next, a, NextView::Finish(x)),
        reaches(world, next, b, NextView::Finish(y)),
    ensures
        a == b,
        x == y,
    decreases a.len(),
{
    if a.len() > 0 && b.len() > 0 {
        law_transcript_is_settled(
            world,
            resumed(next->rest, world(next->query)),
            a.drop_first(),
            x,
            b.drop_first(),
            y,
        );
        assert(a =~= seq![a[0]] + a.drop_first());
        assert(b =~= seq![b[0]] + b.drop_first());
    } else {
        assert(a =~= b);
    }
}

pub(crate) proof fn lemma_none<S>(world: World<S>, next: NextView<S>)
    ensures
        reaches(world, next, seq![], next),
{
}

pub(crate) proof fn lemma_one<S>(
    world: World<S>,
    q: QueryView,
    r: ExecutionView,
    last: NextView<S>,
)
    requires
        resumed(r, world(q)) == last,
    ensures
        reaches(world, NextView::Ask { query: q, rest: r }, seq![q], last),
{
    reveal_with_fuel(reaches, 2);
    assert(seq![q].drop_first() =~= seq![]);
}

pub(crate) proof fn lemma_more<S>(
    world: World<S>,
    q: QueryView,
    r: ExecutionView,
    queries: Seq<QueryView>,
    last: NextView<S>,
)
    requires
        reaches(world, resumed(r, world(q)), queries, last),
    ensures
        reaches(world, NextView::Ask { query: q, rest: r }, seq![q] + queries, last),
{
    lemma_one(world, q, r, resumed(r, world(q)));
    law_transcripts_join(
        world,
        NextView::Ask { query: q, rest: r },
        seq![q],
        resumed(r, world(q)),
        queries,
        last,
    );
}

pub(crate) proof fn lemma_two<S>(
    world: World<S>,
    q1: QueryView,
    r1: ExecutionView,
    q2: QueryView,
    r2: ExecutionView,
    last: NextView<S>,
)
    requires
        resumed(r1, world(q1)) == (NextView::<S>::Ask { query: q2, rest: r2 }),
        resumed(r2, world(q2)) == last,
    ensures
        reaches(world, NextView::Ask { query: q1, rest: r1 }, seq![q1, q2], last),
{
    lemma_one(world, q2, r2, last);
    lemma_more(world, q1, r1, seq![q2], last);
    assert(seq![q1] + seq![q2] =~= seq![q1, q2]);
}

pub(crate) proof fn lemma_three<S>(
    world: World<S>,
    q1: QueryView,
    r1: ExecutionView,
    q2: QueryView,
    r2: ExecutionView,
    q3: QueryView,
    r3: ExecutionView,
    last: NextView<S>,
)
    requires
        resumed(r1, world(q1)) == (NextView::<S>::Ask { query: q2, rest: r2 }),
        resumed(r2, world(q2)) == (NextView::<S>::Ask { query: q3, rest: r3 }),
        resumed(r3, world(q3)) == last,
    ensures
        reaches(world, NextView::Ask { query: q1, rest: r1 }, seq![q1, q2, q3], last),
{
    lemma_two(world, q2, r2, q3, r3, last);
    lemma_more(world, q1, r1, seq![q2, q3], last);
    assert(seq![q1] + seq![q2, q3] =~= seq![q1, q2, q3]);
}

/// The local store is opened in the directory that the command line names, or
/// in the default one, and nothing else is asked for before. No remote store is
/// behind it where no server is given. Where the store does not open, the run
/// fails, and names the directory.
pub proof fn law_local_store_is_opened<S>(world: World<S>, request: RequestView)
    requires
        sensible(world),
        request.server_address is None,
        !(request.local_store_path matches Some(None)),
    ensures
        ({
            let directory = match request.local_store_path {
                Some(path) => path,
                None => None,
            };
            let open = QueryView::OpenStore(StoreOptionsView { directory, remote: None });
            match world(open)->Opened_0 {
                Ok(()) => reaches(
                    world,
                    started(request),
                    seq![open],
                    opened(request.command, false),
                ),
                Err(failure) => reaches(
                    world,
                    started(request),
                    seq![open],
                    told(
                        "Failed to open/create store for directory "@ + (match directory {
                            Some(path) => quoted_path(path),
                            None => failure.default_directory,
                        }) + ": "@ + failure.reason,
                        ExitCode::UnknownError,
                    ),
                ),
            }
        }),
{
    let directory = match request.local_store_path {
        Some(path) => path,
        None => None,
    };
    let open = QueryView::OpenStore(StoreOptionsView { directory, remote: None });
    assert(answers(open, world(open)));
    let rest = ExecutionView::Opening { directory, has_remote: false, command: request.command };
    lemma_one(world, open, rest, resumed(rest, world(open)));
}

/// The queries that read the file with the certificates, where one is named.
pub open spec fn reads_certificates(request: RequestView) -> Seq<QueryView> {
    match request.root_ca_cert_file {
        Some(Some(path)) => seq![QueryView::ReadCertificates { path }],
        _ => seq![],
    }
}

/// The queries that read the file with the token, where one is named.
pub open spec fn reads_token(request: RequestView) -> Seq<QueryView> {
    match request.oauth_bearer_token_file {
        Some(Some(path)) => seq![QueryView::ReadToken { path }],
        _ => seq![],
    }
}

/// The remote store is opened as the command line asks for: at the address that
/// it gives, with the certificates and the token in the files that it names and
/// with none where it names no file, with its instance name and its chunk size,
/// one thread, and half an hour for a request; and the local store before it is
/// in the directory that the command line names, or in the default one. The
/// files are read before, and nothing else is asked for. Where the store does
/// not open, the run fails, and names the directory.
pub proof fn law_remote_store_is_opened<S>(
    world: World<S>,
    request: RequestView,
    address: Seq<char>,
    chunk_bytes: usize,
)
    requires
        sensible(world),
        request.server_address == Some(Some(address)),
        !(request.local_store_path matches Some(None)),
        request.chunk_bytes is Some,
        request.chunk_bytes->0 is Some,
        number(request.chunk_bytes->0->0) == Some(chunk_bytes),
        request.root_ca_cert_file matches Some(file) ==> file is Some && world(
            QueryView::ReadCertificates { path: file->0 },
        )->Contents_0 is Ok,
        request.oauth_bearer_token_file matches Some(file) ==> file is Some && world(
            QueryView::ReadToken { path: file->0 },
        )->Token_0 is Ok,
        !(request.remote_instance_name matches Some(None)),
    ensures
        ({
            let directory = match request.local_store_path {
                Some(path) => path,
                None => None,
            };
            let remote = RemoteOptionsView {
                address,
                instance_name: match request.remote_instance_name {
                    Some(name) => name,
                    None => None,
                },
                root_ca_certs: match request.root_ca_cert_file {
                    Some(Some(path)) => Some(
                        world(QueryView::ReadCertificates { path })->Contents_0->Ok_0,
                    ),
                    _ => None,
                },
                oauth_bearer_token: match request.oauth_bearer_token_file {
                    Some(Some(path)) => Some(world(QueryView::ReadToken { path })->Token_0->Ok_0),
                    _ => None,
                },
                threads: 1,
                chunk_bytes,
                timeout_seconds: 1800,
            };
            let open = QueryView::OpenStore(StoreOptionsView { directory, remote: Some(remote) });
            let queries = reads_certificates(request) + reads_token(request) + seq![open];
            match world(open)->Opened_0 {
                Ok(()) => reaches(
                    world,
                    started(request),
                    queries,
                    opened(request.command, true),
                ),
                Err(failure) => reaches(
                    world,
                    started(request),
                    queries,
                    told(
                        "Failed to open/create store for directory "@ + (match directory {
                            Some(path) => quoted_path(path),
                            None => failure.default_directory,
                        }) + ": "@ + failure.reason,
                        ExitCode::UnknownError,
                    ),
                ),
            }
        }),
{
    let directory = match request.local_store_path {
        Some(path) => path,
        None => None,
    };
    let certificates = match request.root_ca_cert_file {
        Some(Some(path)) => Some(world(QueryView::ReadCertificates { path })->Contents_0->Ok_0),
        _ => None,
    };
    let token = match request.oauth_bearer_token_file {
        Some(Some(path)) => Some(world(QueryView::ReadToken { path })->Token_0->Ok_0),
        _ => None,
    };
    let remote = RemoteOptionsView {
        address,
        instance_name: match request.remote_instance_name {
            Some(name) => name,
            None => None,
        },
        root_ca_certs: certificates,
        oauth_bearer_token: token,
        threads: 1,
        chunk_bytes,
        timeout_seconds: 1800,
    };
    let open = QueryView::OpenStore(StoreOptionsView { directory, remote: Some(remote) });
    let rest = ExecutionView::Opening { directory, has_remote: true, command: request.command };
    let last = resumed(rest, world(open));
    assert(answers(open, world(open)));
    lemma_one(world, open, rest, last);
    let (_, b) = lemma_files_are_read(world, request, address, chunk_bytes);
    assert(b == (NextView::<S>::Ask { query: open, rest }));
    law_transcripts_join(
        world,
        started(request),
        reads_certificates(request) + reads_token(request),
        b,
        seq![open],
        last,
    );
}

/// The places of a run once the certificates, and then the token, are read.
proof fn lemma_files_are_read<S>(
    world: World<S>,
    request: RequestView,
    address: Seq<char>,
    chunk_bytes: usize,
) -> (r: (NextView<S>, NextView<S>))
    requires
        sensible(world),
        request.server_address == Some(Some(address)),
        !(request.local_store_path matches Some(None)),
        request.chunk_bytes is Some,
        request.chunk_bytes->0 is Some,
        number(request.chunk_bytes->0->0) == Some(chunk_bytes),
        request.root_ca_cert_file matches Some(file) ==> file is Some && world(
            QueryView::ReadCertificates { path: file->0 },
        )->Contents_0 is Ok,
        request.oauth_bearer_token_file matches Some(file) ==> file is Some && world(
            QueryView::ReadToken { path: file->0 },
        )->Token_0 is Ok,
    ensures
        ({
            let setup = SetupView {
                directory: match request.local_store_path {
                    Some(path) => path,
                    None => None,
                },
                address,
                chunk_bytes,
                remote_instance_name: request.remote_instance_name,
                command: request.command,
            };
            let certificates = match request.root_ca_cert_file {
                Some(Some(path)) => Some(
                    world(QueryView::ReadCertificates { path })->Contents_0->Ok_0,
                ),
                _ => None,
            };
            let token = match request.oauth_bearer_token_file {
                Some(Some(path)) => Some(world(QueryView::ReadToken { path })->Token_0->Ok_0),
                _ => None,
            };
            &&& r.0 == token_needed::<S>(
                setup,
                certificates,
                request.oauth_bearer_token_file,
            )
            &&& r.1 == remote_known::<S>(setup, certificates, token)
        }),
        reaches(world, started(request), reads_certificates(request), r.0),
        reaches(
            world,
            started(request),
            reads_certificates(request) + reads_token(request),
            r.1,
        ),
{
    let setup = SetupView {
        directory: match request.local_store_path {
            Some(path) => path,
            None => None,
        },
        address,
        chunk_bytes,
        remote_instance_name: request.remote_instance_name,
        command: request.command,
    };
    let token_file = request.oauth_bearer_token_file;
    let certificates = match request.root_ca_cert_file {
        Some(Some(path)) => Some(world(QueryView::ReadCertificates { path })->Contents_0->Ok_0),
        _ => None,
    };
    let token = match request.oauth_bearer_token_file {
        Some(Some(path)) => Some(world(QueryView::ReadToken { path })->Token_0->Ok_0),
        _ => None,
    };
    let a = token_needed::<S>(setup, certificates, token_file);
    let b = remote_known::<S>(setup, certificates, token);
    if let Some(Some(path)) = request.root_ca_cert_file {
        let query = QueryView::ReadCertificates { path };
        assert(answers(query, world(query)));
        lemma_one(world, query, ExecutionView::Certificates { setup, token_file, path }, a);
    }
    if let Some(Some(path)) = token_file {
        let query = QueryView::ReadToken { path };
        assert(answers(query, world(query)));
        lemma_one(world, query, ExecutionView::Token { setup, certificates, path }, b);
    }
    law_transcripts_join(
        world,
        started(request),
        reads_certificates(request),
        a,
        reads_token(request),
        b,
    );
    (a, b)
}

/// Whether the command line names a file, and the file can be read; or names
/// none.
pub open spec fn certificates_are_read<S>(world: World<S>, request: RequestView) -> bool {
    match request.root_ca_cert_file {
        None => true,
        Some(None) => false,
        Some(Some(path)) => world(QueryView::ReadCertificates { path })->Contents_0 is Ok,
    }
}

/// Whether the command line names a file, and the file can be read; or names
/// none.
pub open spec fn token_is_read<S>(world: World<S>, request: RequestView) -> bool {
    match request.oauth_bearer_token_file {
        None => true,
        Some(None) => false,
        Some(Some(path)) => world(QueryView::ReadToken { path })->Token_0 is Ok,
    }
}

/// A run never gets to opening a store where the command line does not say
/// which: where an option is not Unicode, where a server is given without a
/// chunk size that is a number, and where a file that it names cannot be read,
/// which it is told. What is wrong is found in this order.
pub proof fn law_unusable_options_end_the_run<S>(
    world: World<S>,
    request: RequestView,
    address: Seq<char>,
    chunk_bytes: usize,
)
    requires
        sensible(world),
    ensures
        request.local_store_path matches Some(None) ==> reaches(
            world,
            started(request),
            seq![],
            broken_off(Defect::NotUnicode),
        ),
        request.server_address matches Some(None) ==> reaches(
            world,
            started(request),
            seq![],
            broken_off(Defect::NotUnicode),
        ),
        !(request.local_store_path matches Some(None)) && request.server_address == Some(
            Some(address),
        ) ==> {
            &&& request.chunk_bytes is None ==> reaches(
                world,
                started(request),
                seq![],
                broken_off(Defect::BadChunkBytes),
            )
            &&& request.chunk_bytes matches Some(None) ==> reaches(
                world,
                started(request),
                seq![],
                broken_off(Defect::NotUnicode),
            )
            &&& (request.chunk_bytes matches Some(Some(text)) && number(text) is None) ==> reaches(
                world,
                started(request),
                seq![],
                broken_off(Defect::BadChunkBytes),
            )
            &&& (request.chunk_bytes matches Some(Some(text)) && number(text) == Some(chunk_bytes))
                ==> {
                &&& request.root_ca_cert_file matches Some(None) ==> reaches(
                    world,
                    started(request),
                    seq![],
                    broken_off(Defect::NotUnicode),
                )
                &&& request.root_ca_cert_file matches Some(Some(path)) ==> {
                    let read = QueryView::ReadCertificates { path };
                    world(read)->Contents_0 matches Err(reason) ==> reaches(
                        world,
                        started(request),
                        seq![read],
                        told(
                            "Error reading root CA certs file "@ + path + ": "@ + reason,
                            ExitCode::UnknownError,
                        ),
                    )
                }
                &&& certificates_are_read(world, request) ==> {
                    &&& request.oauth_bearer_token_file matches Some(None) ==> reaches(
                        world,
                        started(request),
                        reads_certificates(request),
                        broken_off(Defect::NotUnicode),
                    )
                    &&& request.oauth_bearer_token_file matches Some(Some(path)) ==> {
                        let read = QueryView::ReadToken { path };
                        world(read)->Token_0 matches Err(reason) ==> reaches(
                            world,
                            started(request),
                            reads_certificates(request) + seq![read],
                            told(
                                "Error reading oauth bearer token from "@ + quoted(path) + ": "@
                                    + reason,
                                ExitCode::UnknownError,
                            ),
                        )
                    }
                    &&& token_is_read(world, request) && request.remote_instance_name == Some(
                        None::<Seq<char>>,
                    ) ==> reaches(
                        world,
                        started(request),
                        reads_certificates(request) + reads_token(request),
                        broken_off(Defect::NotUnicode),
                    )
                }
            }
        },
{
    let setup = SetupView {
        directory: match request.local_store_path {
            Some(path) => path,
            None => None,
        },
        address,
        chunk_bytes,
        remote_instance_name: request.remote_instance_name,
        command: request.command,
    };
    let token_file = request.oauth_bearer_token_file;
    if !(request.local_store_path matches Some(None)) && request.server_address == Some(
        Some(address),
    ) && (request.chunk_bytes matches Some(Some(text)) && number(text) == Some(chunk_bytes)) {
        if let Some(Some(path)) = request.root_ca_cert_file {
            let read = QueryView::ReadCertificates { path };
            let rest = ExecutionView::Certificates { setup, token_file, path };
            assert(answers(read, world(read)));
            lemma_one(world, read, rest, resumed(rest, world(read)));
        }
        if certificates_are_read(world, request) {
            let certificates = match request.root_ca_cert_file {
                Some(Some(path)) => Some(
                    world(QueryView::ReadCertificates { path })->Contents_0->Ok_0,
                ),
                _ => None,
            };
            let a = token_needed::<S>(setup, certificates, token_file);
            assert(reaches(world, started(request), reads_certificates(request), a));
            if let Some(Some(path)) = token_file {
                let read = QueryView::ReadToken { path };
                let rest = ExecutionView::Token { setup, certificates, path };
                assert(answers(read, world(read)));
                lemma_one(world, read, rest, resumed(rest, world(read)));
                law_transcripts_join(
                    world,
                    started(request),
                    reads_certificates(request),
                    a,
                    seq![read],
                    resumed(rest, world(read)),
                );
            }
            if token_is_read(world, request) {
                let places = lemma_files_are_read(world, request, address, chunk_bytes);
            }
        }
    }
}

} // verus!
