//! What a listing comes to when every directory that it asks for is loaded.

use vstd::prelude::*;

use crate::digest::DigestView;
use crate::listing::children;
use crate::listing::first_bad_digest;
use crate::listing::listing_from;
use crate::listing::prefixed;
use crate::listing::proceed;
use crate::listing::DirectoryNodeView;
use crate::listing::ExpandStepView;
use crate::listing::ExpansionView;
use crate::listing::ListedView;
use crate::listing::LoadedView;
use crate::order::in_order;
use crate::order::law_in_order;

verus! {

/// What comes of loading the directory at each address.
pub type Directories = spec_fn(DigestView) -> LoadedView;

/// The paths of the files in a directory and below it, in the order of the
/// directories that hold them: nothing where there is no such directory, and
/// otherwise the files of the directory itself and then those of each of its
/// directories. `None` where directories lie more than `depth` deep.
pub open spec fn tree(
    directories: Directories,
    depth: nat,
    digest: DigestView,
    prefix: Seq<char>,
) -> Option<ListedView>
    decreases depth, 0nat,
{
    if depth == 0 {
        None
    } else {
        match directories(digest) {
            Err(message) => Some(Err(message)),
            Ok(None) => Some(Ok(None)),
            Ok(Some(directory)) => match first_bad_digest(directory.directories) {
                Some(message) => Some(Err(message)),
                None => match forest(
                    directories,
                    (depth - 1) as nat,
                    children(prefix, directory.directories),
                ) {
                    None => None,
                    Some(Err(message)) => Some(Err(message)),
                    Some(Ok(below)) => Some(Ok(Some(prefixed(prefix, directory.files) + below))),
                },
            },
        }
    }
}

/// The paths of the files in and below each of a list of directories, those
/// that the store does not have left out.
pub open spec fn forest(
    directories: Directories,
    depth: nat,
    nodes: Seq<(DigestView, Seq<char>)>,
) -> Option<Result<Seq<Seq<char>>, Seq<char>>>
    decreases depth, nodes.len() + 1,
{
    if nodes.len() == 0 {
        Some(Ok(Seq::empty()))
    } else {
        match tree(directories, depth, nodes[0].0, nodes[0].1) {
            None => None,
            Some(Err(message)) => Some(Err(message)),
            Some(Ok(found)) => match forest(directories, depth, nodes.drop_first()) {
                None => None,
                Some(Err(message)) => Some(Err(message)),
                Some(Ok(rest)) => Some(Ok(found.unwrap_or(Seq::empty()) + rest)),
            },
        }
    }
}

/// What `expand_files` answers for the directory at this address: the paths
/// below it in order. `None` where directories lie more than `depth` deep.
pub open spec fn listing_of(directories: Directories, depth: nat, digest: DigestView) -> Option<
    ListedView,
> {
    match tree(directories, depth, digest, Seq::empty()) {
        Some(Ok(Some(paths))) => Some(Ok(Some(in_order(paths)))),
        other => other,
    }
}

/// What a listing ends with when at most `loads` directories are loaded for it,
/// `None` where it asks for more.
pub open spec fn walk(directories: Directories, step: ExpandStepView, loads: nat) -> Option<
    ListedView,
>
    decreases loads,
{
    match step {
        ExpandStepView::Done(listed) => Some(listed),
        ExpandStepView::Load { digest, rest } => if loads == 0 {
            None
        } else {
            walk(directories, rest.with(directories(digest)), (loads - 1) as nat)
        },
    }
}

/// Whether a listing at `from` gets to `to` once `loads` directories are loaded.
spec fn leads_to(
    directories: Directories,
    from: ExpandStepView,
    loads: nat,
    to: ExpandStepView,
) -> bool {
    forall|more: nat|
        walk(directories, from, loads + more) == #[trigger] walk(directories, to, more)
}

proof fn lemma_leads_one(directories: Directories, digest: DigestView, rest: ExpansionView)
    ensures
        leads_to(
            directories,
            ExpandStepView::Load { digest, rest },
            1,
            rest.with(directories(digest)),
        ),
{
}

proof fn lemma_leads_on(
    directories: Directories,
    a: ExpandStepView,
    m: nat,
    b: ExpandStepView,
    n: nat,
    c: ExpandStepView,
)
    requires
        leads_to(directories, a, m, b),
        leads_to(directories, b, n, c),
    ensures
        leads_to(directories, a, m + n, c),
{
    assert forall|more: nat|
        walk(directories, a, m + n + more) == #[trigger] walk(directories, c, more) by {
        assert(walk(directories, b, n + more) == walk(directories, c, more));
        assert(walk(directories, a, m + (n + more)) == walk(directories, b, n + more));
    }
}

/// Where a listing is once it has worked off `nodes`, given what they hold.
spec fn after(
    found: Result<Seq<Seq<char>>, Seq<char>>,
    files: Seq<Seq<char>>,
    later: Seq<(DigestView, Seq<char>)>,
) -> ExpandStepView {
    match found {
        Ok(paths) => proceed(files + paths, later),
        Err(message) => ExpandStepView::Done(Err(message)),
    }
}

/// A list of pending directories is worked off as `forest` says.
proof fn lemma_walk_forest(
    directories: Directories,
    depth: nat,
    nodes: Seq<(DigestView, Seq<char>)>,
    files: Seq<Seq<char>>,
    later: Seq<(DigestView, Seq<char>)>,
) -> (loads: nat)
    requires
        forest(directories, depth, nodes) is Some,
    ensures
        leads_to(
            directories,
            proceed(files, later + nodes.reverse()),
            loads,
            after(forest(directories, depth, nodes)->0, files, later),
        ),
    decreases depth, nodes.len(),
{
    reveal_with_fuel(tree, 2);
    reveal_with_fuel(forest, 2);
    if nodes.len() == 0 {
        assert(later + nodes.reverse() =~= later);
        assert(files + Seq::<Seq<char>>::empty() =~= files);
        0
    } else {
        let (digest, prefix) = nodes[0];
        let nodes_left = nodes.drop_first();
        let pending = later + nodes.reverse();
        let left = later + nodes_left.reverse();
        assert(pending.last() == nodes[0]);
        assert(pending.drop_last() =~= left);
        let rest = ExpansionView { prefix, is_root: false, files, pending: left };
        let start = ExpandStepView::Load { digest, rest };
        assert(proceed(files, pending) == start);
        let next = rest.with(directories(digest));
        lemma_leads_one(directories, digest, rest);
        let goal = after(forest(directories, depth, nodes)->0, files, later);
        assert(tree(directories, depth, digest, prefix) is Some);
        match directories(digest) {
            Err(message) => 1,
            Ok(None) => {
                let n = lemma_walk_forest(directories, depth, nodes_left, files, later);
                if let Ok(found) = forest(directories, depth, nodes_left)->0 {
                    assert(Seq::<Seq<char>>::empty() + found =~= found);
                }
                lemma_leads_on(directories, start, 1, next, n, goal);
                1 + n
            },
            Ok(Some(directory)) => {
                match first_bad_digest(directory.directories) {
                    Some(message) => 1,
                    None => {
                        let below = children(prefix, directory.directories);
                        let own = prefixed(prefix, directory.files);
                        let inner = forest(directories, (depth - 1) as nat, below);
                        let m = lemma_walk_forest(
                            directories,
                            (depth - 1) as nat,
                            below,
                            files + own,
                            left,
                        );
                        let middle = after(inner->0, files + own, left);
                        lemma_leads_on(directories, start, 1, next, m, middle);
                        match inner->0 {
                            Err(message) => 1 + m,
                            Ok(paths) => {
                                let n = lemma_walk_forest(
                                    directories,
                                    depth,
                                    nodes_left,
                                    files + own + paths,
                                    later,
                                );
                                if let Ok(found) = forest(directories, depth, nodes_left)->0 {
                                    assert(files + own + paths + found =~= files + ((own + paths)
                                        + found));
                                }
                                lemma_leads_on(directories, start, 1 + m, middle, n, goal);
                                1 + m + n
                            },
                        }
                    },
                }
            },
        }
    }
}

/// A listing whose directories are all loaded as it asks for them ends, and
/// ends with what `listing_of` says: where the store has the directory, the
/// paths of all the files below it, in order. Only the directory that it began
/// at can be missing: one that is missing further down counts as empty.
pub proof fn law_listing_ends(directories: Directories, depth: nat, digest: DigestView)
    requires
        listing_of(directories, depth, digest) is Some,
    ensures
        exists|loads: nat| #[trigger]
            walk(directories, listing_from(digest), loads) == listing_of(
                directories,
                depth,
                digest,
            ),
{
    reveal_with_fuel(tree, 2);
    let start = listing_from(digest);
    let rest = start->rest;
    let next = rest.with(directories(digest));
    lemma_leads_one(directories, digest, rest);
    let expected = listing_of(directories, depth, digest);
    match directories(digest) {
        Ok(Some(directory)) if first_bad_digest(directory.directories) is None => {
            let below = children(Seq::empty(), directory.directories);
            let own = prefixed(Seq::empty(), directory.files);
            assert(Seq::<Seq<char>>::empty() + own =~= own);
            let inner = forest(directories, (depth - 1) as nat, below);
            let n = lemma_walk_forest(
                directories,
                (depth - 1) as nat,
                below,
                own,
                Seq::empty(),
            );
            let end = after(inner->0, own, Seq::empty());
            lemma_leads_on(directories, start, 1, next, n, end);
            assert(walk(directories, end, 0) == expected);
            assert(walk(directories, start, 1 + n + 0) == expected);
        },
        _ => {
            assert(walk(directories, next, 0) == expected);
            assert(walk(directories, start, 1 + 0) == expected);
        },
    }
}

/// Whether directories lead from this one to a file of this path.
pub open spec fn has_file(
    directories: Directories,
    depth: nat,
    digest: DigestView,
    prefix: Seq<char>,
    path: Seq<char>,
) -> bool
    decreases depth, 0nat,
{
    if depth == 0 {
        false
    } else {
        match directories(digest) {
            Ok(Some(directory)) => {
                ||| prefixed(prefix, directory.files).contains(path)
                ||| some_has_file(
                    directories,
                    (depth - 1) as nat,
                    children(prefix, directory.directories),
                    path,
                )
            },
            _ => false,
        }
    }
}

/// Whether directories lead from one of a list to a file of this path.
pub open spec fn some_has_file(
    directories: Directories,
    depth: nat,
    nodes: Seq<(DigestView, Seq<char>)>,
    path: Seq<char>,
) -> bool
    decreases depth, 1nat,
{
    exists|i: int|
        0 <= i < nodes.len() && has_file(
            directories,
            depth,
            (#[trigger] nodes[i]).0,
            nodes[i].1,
            path,
        )
}

/// Whether every directory that this one leads to loads, or is missing, and
/// every address on the way is usable.
pub open spec fn loads_whole(directories: Directories, depth: nat, digest: DigestView) -> bool
    decreases depth,
{
    &&& depth > 0
    &&& match directories(digest) {
        Err(_) => false,
        Ok(None) => true,
        Ok(Some(directory)) => forall|i: int|
            0 <= i < directory.directories.len() ==> (#[trigger] directory.directories[i]).digest is Ok
                && loads_whole(
                directories,
                (depth - 1) as nat,
                directory.directories[i].digest->Ok_0,
            ),
    }
}

pub(crate) proof fn lemma_good_digests(nodes: Seq<DirectoryNodeView>)
    ensures
        first_bad_digest(nodes) is None <==> forall|i: int|
            0 <= i < nodes.len() ==> (#[trigger] nodes[i]).digest is Ok,
    decreases nodes.len(),
{
    if nodes.len() > 0 {
        let rest = nodes.drop_first();
        lemma_good_digests(rest);
        assert(forall|i: int| 0 <= i < rest.len() ==> #[trigger] rest[i] == nodes[i + 1]);
        assert(forall|i: int| 0 < i < nodes.len() ==> #[trigger] nodes[i] == rest[i - 1]);
    }
}

proof fn lemma_forest_files(
    directories: Directories,
    depth: nat,
    nodes: Seq<(DigestView, Seq<char>)>,
    path: Seq<char>,
)
    ensures
        forest(directories, depth, nodes) matches Some(Ok(paths)) ==> (paths.contains(path)
            <==> some_has_file(directories, depth, nodes, path)),
    decreases depth, nodes.len() + 1,
{
    reveal_with_fuel(forest, 2);
    reveal_with_fuel(some_has_file, 2);
    if nodes.len() > 0 {
        let rest = nodes.drop_first();
        lemma_tree_files(directories, depth, nodes[0].0, nodes[0].1, path);
        lemma_forest_files(directories, depth, rest, path);
        assert(forall|i: int| 0 <= i < rest.len() ==> #[trigger] rest[i] == nodes[i + 1]);
        assert(forall|i: int| 0 < i < nodes.len() ==> #[trigger] nodes[i] == rest[i - 1]);
        if let Some(Ok(paths)) = forest(directories, depth, nodes) {
            let own = tree(directories, depth, nodes[0].0, nodes[0].1)->0->Ok_0.unwrap_or(
                Seq::empty(),
            );
            let others = forest(directories, depth, rest)->0->Ok_0;
            lemma_contains_either(own, others, path);
        }
    }
}

proof fn lemma_contains_either(a: Seq<Seq<char>>, b: Seq<Seq<char>>, path: Seq<char>)
    ensures
        (a + b).contains(path) <==> a.contains(path) || b.contains(path),
{
    if a.contains(path) {
        assert((a + b)[a.index_of(path)] == path);
    }
    if b.contains(path) {
        assert((a + b)[a.len() + b.index_of(path)] == path);
    }
}

proof fn lemma_tree_files(
    directories: Directories,
    depth: nat,
    digest: DigestView,
    prefix: Seq<char>,
    path: Seq<char>,
)
    ensures
        tree(directories, depth, digest, prefix) matches Some(Ok(Some(paths))) ==> (paths.contains(
            path,
        ) <==> has_file(directories, depth, digest, prefix, path)),
        tree(directories, depth, digest, prefix) matches Some(Ok(None)) ==> !has_file(
            directories,
            depth,
            digest,
            prefix,
            path,
        ),
    decreases depth, 0nat,
{
    reveal_with_fuel(tree, 2);
    reveal_with_fuel(has_file, 2);
    if depth > 0 {
        if let Ok(Some(directory)) = directories(digest) {
            let below = children(prefix, directory.directories);
            lemma_forest_files(directories, (depth - 1) as nat, below, path);
            if let Some(Ok(paths)) = forest(directories, (depth - 1) as nat, below) {
                lemma_contains_either(prefixed(prefix, directory.files), paths, path);
            }
        }
    }
}

/// A listing holds the path of a file if and only if directories lead to it.
pub proof fn law_listing_holds_every_file(
    directories: Directories,
    depth: nat,
    digest: DigestView,
    path: Seq<char>,
)
    ensures
        listing_of(directories, depth, digest) matches Some(Ok(Some(paths))) ==> (paths.contains(
            path,
        ) <==> has_file(directories, depth, digest, Seq::empty(), path)),
{
    broadcast use vstd::seq_lib::group_to_multiset_ensures;

    lemma_tree_files(directories, depth, digest, Seq::empty(), path);
    if let Some(Ok(Some(paths))) = tree(directories, depth, digest, Seq::empty()) {
        law_in_order(paths, Seq::empty());
        assert(paths.to_multiset().contains(path) == in_order(paths).to_multiset().contains(path));
    }
}

proof fn lemma_forest_whole(
    directories: Directories,
    depth: nat,
    nodes: Seq<(DigestView, Seq<char>)>,
)
    ensures
        (forest(directories, depth, nodes) matches Some(Ok(_))) <==> forall|i: int|
            0 <= i < nodes.len() ==> loads_whole(directories, depth, (#[trigger] nodes[i]).0),
    decreases depth, nodes.len() + 1,
{
    reveal_with_fuel(forest, 2);
    if nodes.len() > 0 {
        let rest = nodes.drop_first();
        lemma_tree_whole(directories, depth, nodes[0].0, nodes[0].1);
        lemma_forest_whole(directories, depth, rest);
        assert(forall|i: int| 0 <= i < rest.len() ==> #[trigger] rest[i] == nodes[i + 1]);
        assert(forall|i: int| 0 < i < nodes.len() ==> #[trigger] nodes[i] == rest[i - 1]);
    }
}

proof fn lemma_tree_whole(
    directories: Directories,
    depth: nat,
    digest: DigestView,
    prefix: Seq<char>,
)
    ensures
        (tree(directories, depth, digest, prefix) matches Some(Ok(_))) <==> loads_whole(
            directories,
            depth,
            digest,
        ),
    decreases depth, 0nat,
{
    reveal_with_fuel(tree, 2);
    if depth > 0 {
        if let Ok(Some(directory)) = directories(digest) {
            let nodes = directory.directories;
            let below = children(prefix, nodes);
            lemma_good_digests(nodes);
            lemma_forest_whole(directories, (depth - 1) as nat, below);
            assert(forall|i: int|
                0 <= i < nodes.len() ==> (#[trigger] below[i]).0 == nodes[i].digest->Ok_0);
            assert(forall|i: int|
                0 <= i < nodes.len() ==> (#[trigger] nodes[i]).digest->Ok_0 == below[i].0);
        }
    }
}

/// A listing succeeds if and only if every directory on the way loads or is
/// missing and every address on the way is usable. It answers that the store
/// does not have the directory if and only if that directory itself is missing.
pub proof fn law_listing_succeeds(directories: Directories, depth: nat, digest: DigestView)
    ensures
        (listing_of(directories, depth, digest) matches Some(Ok(_))) <==> loads_whole(
            directories,
            depth,
            digest,
        ),
        (listing_of(directories, depth, digest) matches Some(Ok(None))) <==> depth > 0
            && directories(digest) matches Ok(None),
{
    reveal_with_fuel(tree, 2);
    lemma_tree_whole(directories, depth, digest, Seq::empty());
}

/// Whether this is the message of a directory that fails to load and that this
/// one leads to, or of an unusable address on the way.
pub open spec fn fails_with(
    directories: Directories,
    depth: nat,
    digest: DigestView,
    message: Seq<char>,
) -> bool
    decreases depth,
{
    &&& depth > 0
    &&& match directories(digest) {
        Err(reason) => reason == message,
        Ok(None) => false,
        Ok(Some(directory)) => exists|i: int|
            0 <= i < directory.directories.len() && match (
            #[trigger] directory.directories[i]).digest {
                Err(reason) => reason == message,
                Ok(below) => fails_with(directories, (depth - 1) as nat, below, message),
            },
    }
}

proof fn lemma_bad_digest(nodes: Seq<DirectoryNodeView>)
    requires
        first_bad_digest(nodes) is Some,
    ensures
        exists|i: int|
            0 <= i < nodes.len() && (#[trigger] nodes[i]).digest == Err::<DigestView, Seq<char>>(
                first_bad_digest(nodes)->0,
            ),
    decreases nodes.len(),
{
    if nodes[0].digest is Ok {
        let rest = nodes.drop_first();
        lemma_bad_digest(rest);
        let i = choose|i: int|
            0 <= i < rest.len() && (#[trigger] rest[i]).digest == Err::<DigestView, Seq<char>>(
                first_bad_digest(rest)->0,
            );
        assert(nodes[i + 1] == rest[i]);
    }
}

proof fn lemma_forest_fails(
    directories: Directories,
    depth: nat,
    nodes: Seq<(DigestView, Seq<char>)>,
)
    ensures
        forest(directories, depth, nodes) matches Some(Err(message)) ==> exists|i: int|
            0 <= i < nodes.len() && fails_with(
                directories,
                depth,
                (#[trigger] nodes[i]).0,
                message,
            ),
    decreases depth, nodes.len() + 1,
{
    reveal_with_fuel(forest, 2);
    if nodes.len() > 0 {
        let rest = nodes.drop_first();
        lemma_tree_fails(directories, depth, nodes[0].0, nodes[0].1);
        lemma_forest_fails(directories, depth, rest);
        assert(forall|i: int| 0 <= i < rest.len() ==> #[trigger] rest[i] == nodes[i + 1]);
    }
}

proof fn lemma_tree_fails(
    directories: Directories,
    depth: nat,
    digest: DigestView,
    prefix: Seq<char>,
)
    ensures
        tree(directories, depth, digest, prefix) matches Some(Err(message)) ==> fails_with(
            directories,
            depth,
            digest,
            message,
        ),
    decreases depth, 0nat,
{
    reveal_with_fuel(tree, 2);
    if depth > 0 {
        if let Ok(Some(directory)) = directories(digest) {
            let nodes = directory.directories;
            let below = children(prefix, nodes);
            lemma_good_digests(nodes);
            if first_bad_digest(nodes) is Some {
                lemma_bad_digest(nodes);
            } else {
                lemma_forest_fails(directories, (depth - 1) as nat, below);
                assert(forall|i: int|
                    0 <= i < nodes.len() ==> (#[trigger] below[i]).0 == nodes[i].digest->Ok_0);
            }
        }
    }
}

proof fn lemma_failing_is_not_whole(
    directories: Directories,
    depth: nat,
    digest: DigestView,
    message: Seq<char>,
)
    requires
        fails_with(directories, depth, digest, message),
    ensures
        !loads_whole(directories, depth, digest),
    decreases depth,
{
    if let Ok(Some(directory)) = directories(digest) {
        let i = choose|i: int|
            0 <= i < directory.directories.len() && match (
            #[trigger] directory.directories[i]).digest {
                Err(reason) => reason == message,
                Ok(below) => fails_with(directories, (depth - 1) as nat, below, message),
            };
        if let Ok(below) = directory.directories[i].digest {
            lemma_failing_is_not_whole(directories, (depth - 1) as nat, below, message);
        }
    }
}

/// A listing that fails tells the message of a directory on the way that fails
/// to load, or of an unusable address on the way. Where there is such a
/// directory or address, no listing succeeds.
pub proof fn law_listing_tells_what_failed(
    directories: Directories,
    depth: nat,
    digest: DigestView,
    message: Seq<char>,
)
    ensures
        listing_of(directories, depth, digest) == Some(
            Err::<Option<Seq<Seq<char>>>, Seq<char>>(message),
        ) ==> fails_with(directories, depth, digest, message),
        fails_with(directories, depth, digest, message) ==> !(listing_of(
            directories,
            depth,
            digest,
        ) matches Some(Ok(_))),
{
    lemma_tree_fails(directories, depth, digest, Seq::empty());
    if fails_with(directories, depth, digest, message) {
        lemma_failing_is_not_whole(directories, depth, digest, message);
        law_listing_succeeds(directories, depth, digest);
    }
}

proof fn lemma_forest_depth(
    directories: Directories,
    m: nat,
    n: nat,
    nodes: Seq<(DigestView, Seq<char>)>,
)
    requires
        m <= n,
        forest(directories, m, nodes) is Some,
    ensures
        forest(directories, n, nodes) == forest(directories, m, nodes),
    decreases m, nodes.len() + 1,
{
    reveal_with_fuel(forest, 2);
    if nodes.len() > 0 {
        lemma_tree_depth(directories, m, n, nodes[0].0, nodes[0].1);
        if tree(directories, m, nodes[0].0, nodes[0].1)->0 is Ok {
            lemma_forest_depth(directories, m, n, nodes.drop_first());
        }
    }
}

proof fn lemma_tree_depth(
    directories: Directories,
    m: nat,
    n: nat,
    digest: DigestView,
    prefix: Seq<char>,
)
    requires
        m <= n,
        tree(directories, m, digest, prefix) is Some,
    ensures
        tree(directories, n, digest, prefix) == tree(directories, m, digest, prefix),
    decreases m, 0nat,
{
    reveal_with_fuel(tree, 2);
    if let Ok(Some(directory)) = directories(digest) {
        if first_bad_digest(directory.directories) is None {
            lemma_forest_depth(
                directories,
                (m - 1) as nat,
                (n - 1) as nat,
                children(prefix, directory.directories),
            );
        }
    }
}

/// How deep directories are followed does not matter to a listing, as long as
/// it is deep enough.
pub proof fn law_depth_does_not_matter(
    directories: Directories,
    m: nat,
    n: nat,
    digest: DigestView,
)
    requires
        listing_of(directories, m, digest) is Some,
        listing_of(directories, n, digest) is Some,
    ensures
        listing_of(directories, m, digest) == listing_of(directories, n, digest),
{
    if m <= n {
        lemma_tree_depth(directories, m, n, digest, Seq::empty());
    } else {
        lemma_tree_depth(directories, n, m, digest, Seq::empty());
    }
}

/// Whether directories lie more than `depth` deep, from this one on.
pub open spec fn is_too_deep(directories: Directories, depth: nat, digest: DigestView) -> bool
    decreases depth,
{
    depth == 0 || match directories(digest) {
        Ok(Some(directory)) => exists|i: int|
            0 <= i < directory.directories.len() && (#[trigger] directory.directories[i]).digest is Ok
                && is_too_deep(
                directories,
                (depth - 1) as nat,
                directory.directories[i].digest->Ok_0,
            ),
        _ => false,
    }
}

proof fn lemma_forest_too_deep(
    directories: Directories,
    depth: nat,
    nodes: Seq<(DigestView, Seq<char>)>,
)
    ensures
        forest(directories, depth, nodes) is None ==> exists|i: int|
            0 <= i < nodes.len() && is_too_deep(directories, depth, (#[trigger] nodes[i]).0),
    decreases depth, nodes.len() + 1,
{
    reveal_with_fuel(forest, 2);
    if nodes.len() > 0 {
        let rest = nodes.drop_first();
        lemma_tree_too_deep(directories, depth, nodes[0].0, nodes[0].1);
        lemma_forest_too_deep(directories, depth, rest);
        assert(forall|i: int| 0 <= i < rest.len() ==> #[trigger] rest[i] == nodes[i + 1]);
    }
}

proof fn lemma_tree_too_deep(
    directories: Directories,
    depth: nat,
    digest: DigestView,
    prefix: Seq<char>,
)
    ensures
        tree(directories, depth, digest, prefix) is None ==> is_too_deep(
            directories,
            depth,
            digest,
        ),
    decreases depth, 0nat,
{
    reveal_with_fuel(tree, 2);
    if depth > 0 {
        if let Ok(Some(directory)) = directories(digest) {
            let nodes = directory.directories;
            let below = children(prefix, nodes);
            lemma_good_digests(nodes);
            lemma_forest_too_deep(directories, (depth - 1) as nat, below);
            assert(forall|i: int|
                0 <= i < nodes.len() ==> (#[trigger] below[i]).0 == nodes[i].digest->Ok_0);
        }
    }
}

/// A listing says how it ends wherever directories do not lie too deep.
pub proof fn law_listing_is_told(directories: Directories, depth: nat, digest: DigestView)
    requires
        !is_too_deep(directories, depth, digest),
    ensures
        listing_of(directories, depth, digest) is Some,
{
    lemma_tree_too_deep(directories, depth, digest, Seq::empty());
}

} // verus!
