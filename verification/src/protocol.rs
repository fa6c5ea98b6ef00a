//! What the tool asks of the world outside it, and what it is answered.

use vstd::prelude::*;

use crate::digest::Digest;
use crate::digest::DigestView;
use crate::listing::loaded_view;
use crate::listing::Loaded;
use crate::listing::LoadedView;
use crate::order::texts;
use crate::store::bytes_of;
use crate::store::text_of;
use crate::store::StoreOptions;
use crate::store::StoreOptionsView;

verus! {

/// Something to be done outside.
#[derive(Debug)]
pub enum Query {
    /// Read the file with the certificates of the remote store. Answered with
    /// [`Reply::Contents`].
    ReadCertificates { path: String },
    /// Read the file with the bearer token. Answered with [`Reply::Token`].
    ReadToken { path: String },
    /// Open the store. Answered with [`Reply::Opened`].
    OpenStore(StoreOptions),
    /// Read a fingerprint from its text. Answered with [`Reply::Fingerprint`].
    ParseFingerprint { text: String },
    /// Tell how a digest is named in a message. Answered with
    /// [`Reply::Description`].
    DescribeDigest { digest: Digest },
    /// Load a file from the store. Answered with [`Reply::Bytes`].
    LoadFile { digest: Digest },
    /// Load a directory from the store, as the bytes that stand for it.
    /// Answered with [`Reply::Bytes`].
    LoadDirectoryBytes { digest: Digest },
    /// Load a directory from the store, as text. Answered with
    /// [`Reply::Text`].
    LoadDirectoryText { digest: Digest },
    /// Load a directory from the store. Answered with [`Reply::Directory`].
    LoadDirectory { digest: Digest },
    /// Write a directory of the store to the file system. Answered with
    /// [`Reply::Finished`].
    Materialize { destination: String, digest: Digest },
    /// Find the directory that a file is in. Answered with [`Reply::Parent`].
    FindParent { path: String },
    /// Look at the file in the directory that was found. Answered with
    /// [`Reply::Stat`].
    Stat { path: String },
    /// Save the file that was looked at in the store. Answered with
    /// [`Reply::Saved`].
    SaveFile { path: String },
    /// Save what the globs match below the root in the store. Answered with
    /// [`Reply::Snapshot`].
    SaveDirectory {
        root: String,
        globs: Vec<String>,
        /// The globs whose matches are left out.
        excluded: Vec<String>,
        /// Whether a glob that matches nothing is passed over.
        ignore_unmatched: bool,
        /// Whether all the globs are taken, not only one of them.
        take_all: bool,
    },
    /// Upload what the digest addresses to the remote store, with all that it
    /// refers to. Answered with [`Reply::Uploaded`].
    EnsureUploaded { digest: Digest },
    /// Shrink the local store to this size. Answered with
    /// [`Reply::Finished`].
    CollectGarbage {
        target_size_bytes: usize,
        /// Whether the files of the store are compacted as well.
        compact: bool,
    },
}

/// What a [`Query`] holds.
pub enum QueryView {
    ReadCertificates { path: Seq<char> },
    ReadToken { path: Seq<char> },
    OpenStore(StoreOptionsView),
    ParseFingerprint { text: Seq<char> },
    DescribeDigest { digest: DigestView },
    LoadFile { digest: DigestView },
    LoadDirectoryBytes { digest: DigestView },
    LoadDirectoryText { digest: DigestView },
    LoadDirectory { digest: DigestView },
    Materialize { destination: Seq<char>, digest: DigestView },
    FindParent { path: Seq<char> },
    Stat { path: Seq<char> },
    SaveFile { path: Seq<char> },
    SaveDirectory {
        root: Seq<char>,
        globs: Seq<Seq<char>>,
        excluded: Seq<Seq<char>>,
        ignore_unmatched: bool,
        take_all: bool,
    },
    EnsureUploaded { digest: DigestView },
    CollectGarbage { target_size_bytes: usize, compact: bool },
}

impl View for Query {
    type V = QueryView;

    open spec fn view(&self) -> QueryView {
        match *self {
            Query::ReadCertificates { path } => QueryView::ReadCertificates { path: path@ },
            Query::ReadToken { path } => QueryView::ReadToken { path: path@ },
            Query::OpenStore(options) => QueryView::OpenStore(options@),
            Query::ParseFingerprint { text } => QueryView::ParseFingerprint { text: text@ },
            Query::DescribeDigest { digest } => QueryView::DescribeDigest { digest: digest@ },
            Query::LoadFile { digest } => QueryView::LoadFile { digest: digest@ },
            Query::LoadDirectoryBytes { digest } => QueryView::LoadDirectoryBytes {
                digest: digest@,
            },
            Query::LoadDirectoryText { digest } => QueryView::LoadDirectoryText { digest: digest@ },
            Query::LoadDirectory { digest } => QueryView::LoadDirectory { digest: digest@ },
            Query::Materialize { destination, digest } => QueryView::Materialize {
                destination: destination@,
                digest: digest@,
            },
            Query::FindParent { path } => QueryView::FindParent { path: path@ },
            Query::Stat { path } => QueryView::Stat { path: path@ },
            Query::SaveFile { path } => QueryView::SaveFile { path: path@ },
            Query::SaveDirectory {
                root,
                globs,
                excluded,
                ignore_unmatched,
                take_all,
            } => QueryView::SaveDirectory {
                root: root@,
                globs: texts(globs@),
                excluded: texts(excluded@),
                ignore_unmatched,
                take_all,
            },
            Query::EnsureUploaded { digest } => QueryView::EnsureUploaded { digest: digest@ },
            Query::CollectGarbage { target_size_bytes, compact } => QueryView::CollectGarbage {
                target_size_bytes,
                compact,
            },
        }
    }
}

/// Why the store could not be opened.
#[derive(Debug)]
pub struct OpenFailure {
    /// The default directory of the local store, as it is shown in a message.
    /// It matters only where the store was to be opened there.
    pub default_directory: String,
    pub reason: String,
}

/// What an [`OpenFailure`] holds.
pub struct OpenFailureView {
    pub default_directory: Seq<char>,
    pub reason: Seq<char>,
}

impl View for OpenFailure {
    type V = OpenFailureView;

    open spec fn view(&self) -> OpenFailureView {
        OpenFailureView {
            default_directory: self.default_directory@,
            reason: self.reason@,
        }
    }
}

/// What stands at a path.
#[derive(Debug)]
pub enum Stat {
    File,
    /// Something else, as it is shown in a message.
    Other(String),
}

/// What a [`Stat`] holds.
pub enum StatView {
    File,
    Other(Seq<char>),
}

impl View for Stat {
    type V = StatView;

    open spec fn view(&self) -> StatView {
        match *self {
            Stat::File => StatView::File,
            Stat::Other(description) => StatView::Other(description@),
        }
    }
}

/// Why a directory could not be saved.
#[derive(Debug)]
pub enum SnapshotFailure {
    /// The globs are not well formed.
    Globs(String),
    /// The root could not be opened; the reason is given as it is shown in a
    /// message.
    Root(String),
    /// The globs could not be expanded; the reason is given as it is shown in
    /// a message.
    Expand(String),
    /// What they match could not be stored.
    Store(String),
}

/// What a [`SnapshotFailure`] holds.
pub enum SnapshotFailureView {
    Globs(Seq<char>),
    Root(Seq<char>),
    Expand(Seq<char>),
    Store(Seq<char>),
}

impl View for SnapshotFailure {
    type V = SnapshotFailureView;

    open spec fn view(&self) -> SnapshotFailureView {
        match *self {
            SnapshotFailure::Globs(message) => SnapshotFailureView::Globs(message@),
            SnapshotFailure::Root(reason) => SnapshotFailureView::Root(reason@),
            SnapshotFailure::Expand(reason) => SnapshotFailureView::Expand(reason@),
            SnapshotFailure::Store(message) => SnapshotFailureView::Store(message@),
        }
    }
}

/// The answer to a [`Query`].
#[derive(Debug)]
pub enum Reply<S> {
    Contents(Result<Vec<u8>, String>),
    Token(Result<String, String>),
    Opened(Result<(), OpenFailure>),
    /// The fingerprint as it is printed.
    Fingerprint(Result<String, String>),
    Description(String),
    Bytes(Result<Option<Vec<u8>>, String>),
    Text(Result<Option<String>, String>),
    Directory(Loaded),
    Finished(Result<(), String>),
    /// Whether the file is in a directory at all, or why that cannot be told,
    /// as it is shown in a message.
    Parent(Result<bool, String>),
    /// What stands at the path, or why that cannot be told, as it is shown in a
    /// message.
    Stat(Result<Stat, String>),
    /// What the file was saved as, or why it was not, as it is shown in a
    /// message.
    Saved(Result<Digest, String>),
    Snapshot(Result<Digest, SnapshotFailure>),
    /// A summary of the upload, or why it failed, as it is shown in a message.
    Uploaded(Result<S, String>),
}

/// What a [`Reply`] holds.
pub enum ReplyView<S> {
    Contents(Result<Seq<u8>, Seq<char>>),
    Token(Result<Seq<char>, Seq<char>>),
    Opened(Result<(), OpenFailureView>),
    Fingerprint(Result<Seq<char>, Seq<char>>),
    Description(Seq<char>),
    Bytes(Result<Option<Seq<u8>>, Seq<char>>),
    Text(Result<Option<Seq<char>>, Seq<char>>),
    Directory(LoadedView),
    Finished(Result<(), Seq<char>>),
    Parent(Result<bool, Seq<char>>),
    Stat(Result<StatView, Seq<char>>),
    Saved(Result<DigestView, Seq<char>>),
    Snapshot(Result<DigestView, SnapshotFailureView>),
    Uploaded(Result<S, Seq<char>>),
}

impl<S> View for Reply<S> {
    type V = ReplyView<S>;

    open spec fn view(&self) -> ReplyView<S> {
        match *self {
            Reply::Contents(Ok(bytes)) => ReplyView::Contents(Ok(bytes@)),
            Reply::Contents(Err(reason)) => ReplyView::Contents(Err(reason@)),
            Reply::Token(Ok(token)) => ReplyView::Token(Ok(token@)),
            Reply::Token(Err(reason)) => ReplyView::Token(Err(reason@)),
            Reply::Opened(Ok(())) => ReplyView::Opened(Ok(())),
            Reply::Opened(Err(failure)) => ReplyView::Opened(Err(failure@)),
            Reply::Fingerprint(Ok(text)) => ReplyView::Fingerprint(Ok(text@)),
            Reply::Fingerprint(Err(message)) => ReplyView::Fingerprint(Err(message@)),
            Reply::Description(text) => ReplyView::Description(text@),
            Reply::Bytes(Ok(bytes)) => ReplyView::Bytes(Ok(bytes_of(bytes))),
            Reply::Bytes(Err(message)) => ReplyView::Bytes(Err(message@)),
            Reply::Text(Ok(text)) => ReplyView::Text(Ok(text_of(text))),
            Reply::Text(Err(message)) => ReplyView::Text(Err(message@)),
            Reply::Directory(loaded) => ReplyView::Directory(loaded_view(loaded)),
            Reply::Finished(Ok(())) => ReplyView::Finished(Ok(())),
            Reply::Finished(Err(message)) => ReplyView::Finished(Err(message@)),
            Reply::Parent(Ok(found)) => ReplyView::Parent(Ok(found)),
            Reply::Parent(Err(reason)) => ReplyView::Parent(Err(reason@)),
            Reply::Stat(Ok(stat)) => ReplyView::Stat(Ok(stat@)),
            Reply::Stat(Err(reason)) => ReplyView::Stat(Err(reason@)),
            Reply::Saved(Ok(digest)) => ReplyView::Saved(Ok(digest@)),
            Reply::Saved(Err(reason)) => ReplyView::Saved(Err(reason@)),
            Reply::Snapshot(Ok(digest)) => ReplyView::Snapshot(Ok(digest@)),
            Reply::Snapshot(Err(failure)) => ReplyView::Snapshot(Err(failure@)),
            Reply::Uploaded(Ok(summary)) => ReplyView::Uploaded(Ok(summary)),
            Reply::Uploaded(Err(reason)) => ReplyView::Uploaded(Err(reason@)),
        }
    }
}

/// Whether a reply answers a query.
pub open spec fn answers<S>(query: QueryView, reply: ReplyView<S>) -> bool {
    match query {
        QueryView::ReadCertificates { .. } => reply is Contents,
        QueryView::ReadToken { .. } => reply is Token,
        QueryView::OpenStore(_) => reply is Opened,
        QueryView::ParseFingerprint { .. } => reply is Fingerprint,
        QueryView::DescribeDigest { .. } => reply is Description,
        QueryView::LoadFile { .. } => reply is Bytes,
        QueryView::LoadDirectoryBytes { .. } => reply is Bytes,
        QueryView::LoadDirectoryText { .. } => reply is Text,
        QueryView::LoadDirectory { .. } => reply is Directory,
        QueryView::Materialize { .. } => reply is Finished,
        QueryView::FindParent { .. } => reply is Parent,
        QueryView::Stat { .. } => reply is Stat,
        QueryView::SaveFile { .. } => reply is Saved,
        QueryView::SaveDirectory { .. } => reply is Snapshot,
        QueryView::EnsureUploaded { .. } => reply is Uploaded,
        QueryView::CollectGarbage { .. } => reply is Finished,
    }
}

} // verus!
