//! A run of the tool: where it stands, and how it ends.

use vstd::prelude::*;

use crate::args::Argument;
use crate::args::ArgumentView;
use crate::args::Command;
use crate::args::CommandView;
use crate::digest::Digest;
use crate::digest::DigestView;
use crate::exit::ExitError;
use crate::exit::ExitErrorView;
use crate::listing::Expansion;
use crate::listing::ExpansionView;
use crate::protocol::Query;
use crate::protocol::QueryView;
use crate::report::Output;
use crate::report::OutputView;
use crate::store::bytes_of;
use crate::store::text_of;

verus! {

/// Why a run cannot go on at all: the command line is not one that the tool was
/// made for.
#[derive(Clone, Copy, Debug, PartialEq, Eq, Structural)]
pub enum Defect {
    /// A required argument is absent.
    MissingArgument,
    /// An argument is not Unicode.
    NotUnicode,
    /// `chunk-bytes` is not a number.
    BadChunkBytes,
    /// `size_bytes` is not a number.
    BadSizeBytes,
    /// `target-size-bytes` is not a number.
    BadTargetSize,
    /// There is no subcommand, or none that does anything.
    Unimplemented,
    /// A reply does not answer the query.
    Misanswered,
}

impl Defect {
    /// What to tell the user.
    pub open spec fn text(self) -> Seq<char> {
        match self {
            Defect::MissingArgument => "required argument is missing"@,
            Defect::NotUnicode => "unexpected invalid UTF-8 code point"@,
            Defect::BadChunkBytes => "Bad chunk-bytes flag"@,
            Defect::BadSizeBytes => "size_bytes must be a non-negative number"@,
            Defect::BadTargetSize =>
                "--target-size-bytes must be passed as a non-negative integer"@,
            Defect::Unimplemented => "not implemented"@,
            Defect::Misanswered => "the reply does not answer the query"@,
        }
    }

    /// What to tell the user.
    pub fn message(self) -> (r: &'static str)
        ensures
            r@ == self.text(),
    {
        match self {
            Defect::MissingArgument => "required argument is missing",
            Defect::NotUnicode => "unexpected invalid UTF-8 code point",
            Defect::BadChunkBytes => "Bad chunk-bytes flag",
            Defect::BadSizeBytes => "size_bytes must be a non-negative number",
            Defect::BadTargetSize =>
                "--target-size-bytes must be passed as a non-negative integer",
            Defect::Unimplemented => "not implemented",
            Defect::Misanswered => "the reply does not answer the query",
        }
    }
}

/// How a run ends.
#[derive(Debug)]
pub enum Outcome<S> {
    Success(Output<S>),
    Failure(ExitError),
    /// It cannot go on, because of the command line.
    Defect(Defect),
    /// It cannot go on, because something failed that it counts on. The message
    /// says what, and why.
    Breakdown(String),
}

/// What an [`Outcome`] holds.
pub enum OutcomeView<S> {
    Success(OutputView<S>),
    Failure(ExitErrorView),
    Defect(Defect),
    Breakdown(Seq<char>),
}

impl<S> View for Outcome<S> {
    type V = OutcomeView<S>;

    open spec fn view(&self) -> OutcomeView<S> {
        match *self {
            Outcome::Success(output) => OutcomeView::Success(output@),
            Outcome::Failure(error) => OutcomeView::Failure(error@),
            Outcome::Defect(defect) => OutcomeView::Defect(defect),
            Outcome::Breakdown(message) => OutcomeView::Breakdown(message@),
        }
    }
}

/// What is known of the remote store before its files are read.
#[derive(Debug)]
pub struct Setup {
    /// The directory of the local store, `None` for the default one.
    pub directory: Option<String>,
    pub address: String,
    pub chunk_bytes: usize,
    pub remote_instance_name: Argument,
    /// What is to be done once the store is open.
    pub command: Command,
}

/// What a [`Setup`] holds.
pub struct SetupView {
    pub directory: Option<Seq<char>>,
    pub address: Seq<char>,
    pub chunk_bytes: usize,
    pub remote_instance_name: ArgumentView,
    pub command: CommandView,
}

impl View for Setup {
    type V = SetupView;

    open spec fn view(&self) -> SetupView {
        SetupView {
            directory: text_of(self.directory),
            address: self.address@,
            chunk_bytes: self.chunk_bytes,
            remote_instance_name: self.remote_instance_name@,
            command: self.command@,
        }
    }
}

/// What is to be done with what a digest addresses.
#[derive(Debug)]
pub enum Purpose {
    FileCat,
    Materialize { destination: String },
    CatProto { output_format: Argument },
    Cat,
}

/// What a [`Purpose`] holds.
pub enum PurposeView {
    FileCat,
    Materialize { destination: Seq<char> },
    CatProto { output_format: ArgumentView },
    Cat,
}

impl View for Purpose {
    type V = PurposeView;

    open spec fn view(&self) -> PurposeView {
        match *self {
            Purpose::FileCat => PurposeView::FileCat,
            Purpose::Materialize { destination } => PurposeView::Materialize {
                destination: destination@,
            },
            Purpose::CatProto { output_format } => PurposeView::CatProto {
                output_format: output_format@,
            },
            Purpose::Cat => PurposeView::Cat,
        }
    }
}

/// What the store turned out not to have.
#[derive(Clone, Copy, Debug, PartialEq, Eq, Structural)]
pub enum Missing {
    File,
    Directory,
    /// Neither a file nor a directory.
    Either,
}

/// What is to be done with what is saved.
#[derive(Debug)]
pub struct Saving {
    pub output_mode: Argument,
    pub has_remote: bool,
}

/// What a [`Saving`] holds.
pub struct SavingView {
    pub output_mode: ArgumentView,
    pub has_remote: bool,
}

impl View for Saving {
    type V = SavingView;

    open spec fn view(&self) -> SavingView {
        SavingView { output_mode: self.output_mode@, has_remote: self.has_remote }
    }
}

/// Where a run stands while it waits for a reply.
#[derive(Debug)]
pub enum Execution {
    Certificates { setup: Setup, token_file: Argument, path: String },
    Token { setup: Setup, certificates: Option<Vec<u8>>, path: String },
    /// `directory` is that of the local store, `None` for the default one.
    Opening { directory: Option<String>, has_remote: bool, command: Command },
    Fingerprint { size_bytes: Argument, purpose: Purpose },
    FileCat { digest: Digest },
    Materialize,
    CatProtoBytes { digest: Digest },
    CatProtoText { digest: Digest },
    CatProtoList { digest: Digest, expansion: Expansion },
    CatFile { digest: Digest },
    CatDirectory { digest: Digest },
    Describe { missing: Missing },
    FindParent { path: String, saving: Saving },
    Stat { path: String, saving: Saving },
    SaveFile { saving: Saving },
    SaveDirectory { saving: Saving },
    Upload { digest: Digest, output_mode: Argument },
    GarbageCollect,
}

/// What an [`Execution`] holds.
pub enum ExecutionView {
    Certificates { setup: SetupView, token_file: ArgumentView, path: Seq<char> },
    Token { setup: SetupView, certificates: Option<Seq<u8>>, path: Seq<char> },
    Opening { directory: Option<Seq<char>>, has_remote: bool, command: CommandView },
    Fingerprint { size_bytes: ArgumentView, purpose: PurposeView },
    FileCat { digest: DigestView },
    Materialize,
    CatProtoBytes { digest: DigestView },
    CatProtoText { digest: DigestView },
    CatProtoList { digest: DigestView, expansion: ExpansionView },
    CatFile { digest: DigestView },
    CatDirectory { digest: DigestView },
    Describe { missing: Missing },
    FindParent { path: Seq<char>, saving: SavingView },
    Stat { path: Seq<char>, saving: SavingView },
    SaveFile { saving: SavingView },
    SaveDirectory { saving: SavingView },
    Upload { digest: DigestView, output_mode: ArgumentView },
    GarbageCollect,
}

impl View for Execution {
    type V = ExecutionView;

    open spec fn view(&self) -> ExecutionView {
        match *self {
            Execution::Certificates { setup, token_file, path } => ExecutionView::Certificates {
                setup: setup@,
                token_file: token_file@,
                path: path@,
            },
            Execution::Token { setup, certificates, path } => ExecutionView::Token {
                setup: setup@,
                certificates: bytes_of(certificates),
                path: path@,
            },
            Execution::Opening { directory, has_remote, command } => ExecutionView::Opening {
                directory: text_of(directory),
                has_remote,
                command: command@,
            },
            Execution::Fingerprint { size_bytes, purpose } => ExecutionView::Fingerprint {
                size_bytes: size_bytes@,
                purpose: purpose@,
            },
            Execution::FileCat { digest } => ExecutionView::FileCat { digest: digest@ },
            Execution::Materialize => ExecutionView::Materialize,
            Execution::CatProtoBytes { digest } => ExecutionView::CatProtoBytes {
                digest: digest@,
            },
            Execution::CatProtoText { digest } => ExecutionView::CatProtoText { digest: digest@ },
            Execution::CatProtoList { digest, expansion } => ExecutionView::CatProtoList {
                digest: digest@,
                expansion: expansion@,
            },
            Execution::CatFile { digest } => ExecutionView::CatFile { digest: digest@ },
            Execution::CatDirectory { digest } => ExecutionView::CatDirectory { digest: digest@ },
            Execution::Describe { missing } => ExecutionView::Describe { missing },
            Execution::FindParent { path, saving } => ExecutionView::FindParent {
                path: path@,
                saving: saving@,
            },
            Execution::Stat { path, saving } => ExecutionView::Stat {
                path: path@,
                saving: saving@,
            },
            Execution::SaveFile { saving } => ExecutionView::SaveFile { saving: saving@ },
            Execution::SaveDirectory { saving } => ExecutionView::SaveDirectory {
                saving: saving@,
            },
            Execution::Upload { digest, output_mode } => ExecutionView::Upload {
                digest: digest@,
                output_mode: output_mode@,
            },
            Execution::GarbageCollect => ExecutionView::GarbageCollect,
        }
    }
}

/// What a run does next.
#[derive(Debug)]
pub enum Next<S> {
    /// It asks for something to be done, and goes on from `rest` with the
    /// reply.
    Ask { query: Query, rest: Execution },
    /// It ends.
    Finish(Outcome<S>),
}

/// What a [`Next`] holds.
pub enum NextView<S> {
    Ask { query: QueryView, rest: ExecutionView },
    Finish(OutcomeView<S>),
}

impl<S> View for Next<S> {
    type V = NextView<S>;

    open spec fn view(&self) -> NextView<S> {
        match *self {
            Next::Ask { query, rest } => NextView::Ask { query: query@, rest: rest@ },
            Next::Finish(outcome) => NextView::Finish(outcome@),
        }
    }
}

} // verus!
