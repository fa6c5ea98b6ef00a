//! Listing every file below a directory, one directory at a time.

use vstd::prelude::*;

use crate::digest::Digest;
use crate::digest::DigestView;
use crate::order;
use crate::order::in_order;
use crate::order::texts;
use crate::text;

verus! {

/// A directory as the store keeps it.
#[derive(Debug)]
pub struct Directory {
    /// The names of its files.
    pub files: Vec<String>,
    pub directories: Vec<DirectoryNode>,
}

/// A directory within another.
#[derive(Debug)]
pub struct DirectoryNode {
    pub name: String,
    /// Its address, or what is wrong with the address that is kept.
    pub digest: Result<Digest, String>,
}

/// What a [`Directory`] holds.
pub struct DirectoryView {
    pub files: Seq<Seq<char>>,
    pub directories: Seq<DirectoryNodeView>,
}

/// What a [`DirectoryNode`] holds.
pub struct DirectoryNodeView {
    pub name: Seq<char>,
    pub digest: Result<DigestView, Seq<char>>,
}

impl View for DirectoryNode {
    type V = DirectoryNodeView;

    open spec fn view(&self) -> DirectoryNodeView {
        DirectoryNodeView {
            name: self.name@,
            digest: match self.digest {
                Ok(digest) => Ok(digest@),
                Err(message) => Err(message@),
            },
        }
    }
}

impl View for Directory {
    type V = DirectoryView;

    open spec fn view(&self) -> DirectoryView {
        DirectoryView {
            files: texts(self.files@),
            directories: self.directories@.map_values(|node: DirectoryNode| node@),
        }
    }
}

/// What loading a directory gave: nothing where the store has none at that
/// address.
pub type Loaded = Result<Option<Directory>, String>;

/// What a [`Loaded`] holds.
pub type LoadedView = Result<Option<DirectoryView>, Seq<char>>;

/// What a [`Loaded`] holds.
pub open spec fn loaded_view(loaded: Loaded) -> LoadedView {
    match loaded {
        Ok(Some(directory)) => Ok(Some(directory@)),
        Ok(None) => Ok(None),
        Err(message) => Err(message@),
    }
}

/// What a listing came to: the paths of the files in order, or nothing where
/// the store does not have the directory.
pub type Listed = Result<Option<Vec<String>>, String>;

/// What a [`Listed`] holds.
pub type ListedView = Result<Option<Seq<Seq<char>>>, Seq<char>>;

/// What a [`Listed`] holds.
pub open spec fn listed_view(listed: Listed) -> ListedView {
    match listed {
        Ok(Some(paths)) => Ok(Some(texts(paths@))),
        Ok(None) => Ok(None),
        Err(message) => Err(message@),
    }
}

/// A listing that waits for a directory to be loaded.
#[derive(Debug)]
pub struct Expansion {
    /// What stands before the names in the awaited directory.
    prefix: String,
    /// Whether the awaited directory is the one that the listing began at.
    is_root: bool,
    /// The paths of the files found so far.
    files: Vec<String>,
    /// The directories to load later, the next one last, each with what stands
    /// before the names in it.
    pending: Vec<(Digest, String)>,
}

/// What an [`Expansion`] holds.
pub struct ExpansionView {
    pub prefix: Seq<char>,
    pub is_root: bool,
    pub files: Seq<Seq<char>>,
    pub pending: Seq<(DigestView, Seq<char>)>,
}

/// What [`Expansion::pending`] holds.
pub open spec fn pending_view(pending: Seq<(Digest, String)>) -> Seq<(DigestView, Seq<char>)> {
    pending.map_values(|p: (Digest, String)| (p.0@, p.1@))
}

impl View for Expansion {
    type V = ExpansionView;

    closed spec fn view(&self) -> ExpansionView {
        ExpansionView {
            prefix: self.prefix@,
            is_root: self.is_root,
            files: texts(self.files@),
            pending: pending_view(self.pending@),
        }
    }
}

/// What a listing does next.
#[derive(Debug)]
pub enum ExpandStep {
    /// It has the directory at this address loaded.
    Load { digest: Digest, rest: Expansion },
    /// It is done.
    Done(Listed),
}

/// What an [`ExpandStep`] holds.
pub enum ExpandStepView {
    Load { digest: DigestView, rest: ExpansionView },
    Done(ListedView),
}

impl View for ExpandStep {
    type V = ExpandStepView;

    open spec fn view(&self) -> ExpandStepView {
        match *self {
            ExpandStep::Load { digest, rest } => ExpandStepView::Load {
                digest: digest@,
                rest: rest@,
            },
            ExpandStep::Done(listed) => ExpandStepView::Done(listed_view(listed)),
        }
    }
}

/// The names with the same text before each.
pub open spec fn prefixed(prefix: Seq<char>, names: Seq<Seq<char>>) -> Seq<Seq<char>> {
    names.map_values(|name: Seq<char>| prefix + name)
}

/// What is wrong with the first unusable address in a list of directories.
pub open spec fn first_bad_digest(nodes: Seq<DirectoryNodeView>) -> Option<Seq<char>>
    decreases nodes.len(),
{
    if nodes.len() == 0 {
        None
    } else {
        match nodes[0].digest {
            Err(message) => Some(message),
            Ok(_) => first_bad_digest(nodes.drop_first()),
        }
    }
}

/// Where the directories of a list are, each with what stands before the names
/// in it.
pub open spec fn children(prefix: Seq<char>, nodes: Seq<DirectoryNodeView>) -> Seq<
    (DigestView, Seq<char>),
> {
    nodes.map_values(
        |node: DirectoryNodeView| (node.digest->Ok_0, prefix + node.name + "/"@),
    )
}

/// What a listing does once it has found `files` and is left with `pending`.
pub open spec fn proceed(
    files: Seq<Seq<char>>,
    pending: Seq<(DigestView, Seq<char>)>,
) -> ExpandStepView {
    if pending.len() == 0 {
        ExpandStepView::Done(Ok(Some(in_order(files))))
    } else {
        ExpandStepView::Load {
            digest: pending.last().0,
            rest: ExpansionView {
                prefix: pending.last().1,
                is_root: false,
                files,
                pending: pending.drop_last(),
            },
        }
    }
}

impl ExpansionView {
    /// What a listing does with the directory that it waited for.
    ///
    /// A directory that the store does not have ends the listing only where the
    /// listing began at it; below that, it counts as empty.
    pub open spec fn with(self, loaded: LoadedView) -> ExpandStepView {
        match loaded {
            Err(message) => ExpandStepView::Done(Err(message)),
            Ok(None) => if self.is_root {
                ExpandStepView::Done(Ok(None))
            } else {
                proceed(self.files, self.pending)
            },
            Ok(Some(directory)) => match first_bad_digest(directory.directories) {
                Some(message) => ExpandStepView::Done(Err(message)),
                None => proceed(
                    self.files + prefixed(self.prefix, directory.files),
                    self.pending + children(self.prefix, directory.directories).reverse(),
                ),
            },
        }
    }
}

/// The start of a listing of the directory at this address.
pub open spec fn listing_from(digest: DigestView) -> ExpandStepView {
    ExpandStepView::Load {
        digest,
        rest: ExpansionView {
            prefix: Seq::empty(),
            is_root: true,
            files: Seq::empty(),
            pending: Seq::empty(),
        },
    }
}

/// Starts to list the files below the directory at this address.
pub fn expand_files(digest: Digest) -> (r: ExpandStep)
    ensures
        r@ == listing_from(digest@),
{
    let rest = Expansion {
        prefix: String::new(),
        is_root: true,
        files: Vec::new(),
        pending: Vec::new(),
    };
    assert(rest@.files =~= Seq::empty());
    assert(rest@.pending =~= Seq::empty());
    ExpandStep::Load { digest, rest }
}

impl Expansion {
    /// Goes on with the next directory, or ends the listing where none is left.
    fn proceed(self) -> (r: ExpandStep)
        ensures
            r@ == proceed(self@.files, self@.pending),
    {
        let mut pending = self.pending;
        let ghost before = pending_view(pending@);
        match pending.pop() {
            None => {
                ExpandStep::Done(Ok(Some(order::sorted(self.files))))
            },
            Some((digest, prefix)) => {
                assert(pending_view(pending@) =~= before.drop_last());
                ExpandStep::Load {
                    digest,
                    rest: Expansion { prefix, is_root: false, files: self.files, pending },
                }
            },
        }
    }

    /// Takes in the directory that the listing waited for.
    pub fn expand_files_helper(self, loaded: Loaded) -> (r: ExpandStep)
        ensures
            r@ == self@.with(loaded_view(loaded)),
    {
        match loaded {
            Err(message) => ExpandStep::Done(Err(message)),
            Ok(None) => {
                if self.is_root {
                    ExpandStep::Done(Ok(None))
                } else {
                    self.proceed()
                }
            },
            Ok(Some(directory)) => {
                let mut rest = self;
                rest.add_files(directory.files);
                match rest.add_directories(directory.directories) {
                    Some(message) => ExpandStep::Done(Err(message)),
                    None => rest.proceed(),
                }
            },
        }
    }

    /// Notes the files of the awaited directory.
    fn add_files(&mut self, names: Vec<String>)
        ensures
            final(self)@ == (ExpansionView {
                files: old(self)@.files + prefixed(old(self)@.prefix, texts(names@)),
                ..old(self)@
            }),
    {
        let ghost found = prefixed(self@.prefix, texts(names@));
        let mut i: usize = 0;
        assert(found.take(0) =~= Seq::empty());
        assert(self@.files =~= old(self)@.files + found.take(0));
        while i < names.len()
            invariant
                i <= names.len(),
                found == prefixed(old(self)@.prefix, texts(names@)),
                self@.prefix == old(self)@.prefix,
                self@.is_root == old(self)@.is_root,
                self@.pending == old(self)@.pending,
                self@.files == old(self)@.files + found.take(i as int),
            decreases names.len() - i,
        {
            let ghost before = self@;
            let path = text::join(self.prefix.as_str(), names[i].as_str());
            assert(path@ == found[i as int]);
            self.files.push(path);
            assert(self@.files =~= before.files.push(path@));
            assert(found.take(i + 1) =~= found.take(i as int).push(path@));
            i = i + 1;
        }
        assert(found.take(i as int) =~= found);
    }

    /// Notes the directories of the awaited directory, to be loaded later, or
    /// says what is wrong with the first unusable address among them.
    fn add_directories(&mut self, nodes: Vec<DirectoryNode>) -> (r: Option<String>)
        ensures
            match r {
                Some(message) => first_bad_digest(nodes@.map_values(|n: DirectoryNode| n@))
                    == Some(message@),
                None => {
                    &&& first_bad_digest(nodes@.map_values(|n: DirectoryNode| n@)) is None
                    &&& final(self)@ == (ExpansionView {
                        pending: old(self)@.pending + children(
                            old(self)@.prefix,
                            nodes@.map_values(|n: DirectoryNode| n@),
                        ).reverse(),
                        ..old(self)@
                    })
                },
            },
    {
        let ghost all = nodes@.map_values(|n: DirectoryNode| n@);
        let ghost found = children(self@.prefix, all);
        let mut nodes = nodes;
        let mut bad: Option<String> = None;
        assert(all.skip(all.len() as int) =~= Seq::empty());
        assert(found.skip(all.len() as int).reverse() =~= Seq::empty());
        assert(self@.pending =~= old(self)@.pending + found.skip(all.len() as int).reverse());
        while nodes.len() > 0
            invariant
                nodes.len() <= all.len(),
                nodes@.map_values(|n: DirectoryNode| n@) == all.take(nodes.len() as int),
                found == children(old(self)@.prefix, all),
                self@.prefix == old(self)@.prefix,
                self@.is_root == old(self)@.is_root,
                self@.files == old(self)@.files,
                match bad {
                    Some(message) => first_bad_digest(all.skip(nodes.len() as int)) == Some(
                        message@,
                    ),
                    None => {
                        &&& first_bad_digest(all.skip(nodes.len() as int)) is None
                        &&& self@.pending == old(self)@.pending + found.skip(
                            nodes.len() as int,
                        ).reverse()
                    },
                },
            decreases nodes.len(),
        {
            let ghost before = self@;
            let ghost n = nodes.len() as int;
            let ghost left = nodes@.map_values(|n: DirectoryNode| n@);
            let node = nodes.pop().unwrap();
            proof {
                assert(left[n - 1] == node@);
                assert(all[n - 1] == node@);
                assert(nodes@.map_values(|n: DirectoryNode| n@) =~= all.take(n - 1));
                assert(all.skip(n - 1).drop_first() =~= all.skip(n));
                assert(all.skip(n - 1)[0] == node@);
                assert(found.skip(n - 1).reverse() =~= found.skip(n).reverse().push(found[n - 1]));
            }
            match node.digest {
                Err(message) => {
                    bad = Some(message);
                },
                Ok(digest) => {
                    let mut prefix = text::join(self.prefix.as_str(), node.name.as_str());
                    prefix.append("/");
                    self.pending.push((digest, prefix));
                    assert(self@.pending =~= before.pending.push(found[n - 1]));
                },
            }
        }
        assert(all.skip(0) =~= all);
        assert(found.skip(0) =~= found);
        bad
    }
}

} // verus!
