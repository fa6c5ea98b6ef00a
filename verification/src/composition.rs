//! How the listing of a directory is made up of the listings of the directories
//! in it.

use vstd::prelude::*;
use vstd::seq_lib::group_to_multiset_ensures;
use vstd::seq_lib::lemma_multiset_commutative;

use crate::digest::DigestView;
use crate::listing::children;
use crate::listing::prefixed;
use crate::listing::DirectoryNodeView;
use crate::listing::DirectoryView;
use crate::listing::ListedView;
use crate::order::in_order;
use crate::order::law_in_order;
use crate::walk::forest;
use crate::walk::law_listing_succeeds;
use crate::walk::listing_of;
use crate::walk::loads_whole;
use crate::walk::tree;
use crate::walk::Directories;

verus! {

/// A listing with a text put before each of its paths.
pub open spec fn under(prefix: Seq<char>, listed: Option<ListedView>) -> Option<ListedView> {
    match listed {
        Some(Ok(Some(paths))) => Some(
            Ok(Some(paths.map_values(|path: Seq<char>| prefix + path))),
        ),
        other => other,
    }
}

/// Directories to list, with a text put before what stands before the names in
/// each.
spec fn shifted(prefix: Seq<char>, nodes: Seq<(DigestView, Seq<char>)>) -> Seq<
    (DigestView, Seq<char>),
> {
    nodes.map_values(|node: (DigestView, Seq<char>)| (node.0, prefix + node.1))
}

proof fn lemma_prefixed_twice(p: Seq<char>, q: Seq<char>, names: Seq<Seq<char>>)
    ensures
        prefixed(p + q, names) == prefixed(p, prefixed(q, names)),
{
    assert forall|i: int| 0 <= i < names.len() implies #[trigger] prefixed(p + q, names)[i]
        == prefixed(p, prefixed(q, names))[i] by {
        assert(p + q + names[i] =~= p + (q + names[i]));
    }
    assert(prefixed(p + q, names) =~= prefixed(p, prefixed(q, names)));
}

proof fn lemma_children_twice(p: Seq<char>, q: Seq<char>, nodes: Seq<DirectoryNodeView>)
    ensures
        children(p + q, nodes) == shifted(p, children(q, nodes)),
{
    assert forall|i: int| 0 <= i < nodes.len() implies #[trigger] children(p + q, nodes)[i]
        == shifted(p, children(q, nodes))[i] by {
        assert(p + q + nodes[i].name + "/"@ =~= p + (q + nodes[i].name + "/"@));
    }
    assert(children(p + q, nodes) =~= shifted(p, children(q, nodes)));
}

proof fn lemma_prefixed_joined(prefix: Seq<char>, a: Seq<Seq<char>>, b: Seq<Seq<char>>)
    ensures
        prefixed(prefix, a + b) == prefixed(prefix, a) + prefixed(prefix, b),
{
    assert(prefixed(prefix, a + b) =~= prefixed(prefix, a) + prefixed(prefix, b));
}

proof fn lemma_tree_prefix(
    directories: Directories,
    depth: nat,
    digest: DigestView,
    p: Seq<char>,
    q: Seq<char>,
)
    ensures
        tree(directories, depth, digest, p + q) == under(p, tree(directories, depth, digest, q)),
    decreases depth, 0nat,
{
    reveal_with_fuel(tree, 2);
    if depth > 0 {
        if let Ok(Some(directory)) = directories(digest) {
            let below = children(q, directory.directories);
            lemma_children_twice(p, q, directory.directories);
            lemma_prefixed_twice(p, q, directory.files);
            lemma_forest_prefix(directories, (depth - 1) as nat, below, p);
            if let Some(Ok(paths)) = forest(directories, (depth - 1) as nat, below) {
                lemma_prefixed_joined(p, prefixed(q, directory.files), paths);
            }
        }
    }
}

proof fn lemma_forest_prefix(
    directories: Directories,
    depth: nat,
    nodes: Seq<(DigestView, Seq<char>)>,
    prefix: Seq<char>,
)
    ensures
        forest(directories, depth, shifted(prefix, nodes)) == match forest(
            directories,
            depth,
            nodes,
        ) {
            Some(Ok(paths)) => Some(Ok(prefixed(prefix, paths))),
            other => other,
        },
    decreases depth, nodes.len() + 1,
{
    reveal_with_fuel(forest, 2);
    if nodes.len() == 0 {
        assert(prefixed(prefix, Seq::empty()) =~= Seq::empty());
    } else {
        let rest = nodes.drop_first();
        assert(shifted(prefix, nodes).drop_first() =~= shifted(prefix, rest));
        lemma_tree_prefix(directories, depth, nodes[0].0, prefix, nodes[0].1);
        lemma_forest_prefix(directories, depth, rest, prefix);
        assert(prefixed(prefix, Seq::empty()) =~= Seq::empty());
        if let Some(Ok(found)) = tree(directories, depth, nodes[0].0, nodes[0].1) {
            if let Some(Ok(paths)) = forest(directories, depth, rest) {
                lemma_prefixed_joined(prefix, found.unwrap_or(Seq::empty()), paths);
            }
        }
    }
}

/// A prefix only stands before each path: whether the paths are found, which
/// they are and how they follow each other does not depend on it.
pub proof fn law_prefix_stands_before_each_path(
    directories: Directories,
    depth: nat,
    digest: DigestView,
    prefix: Seq<char>,
)
    ensures
        tree(directories, depth, digest, prefix) == under(
            prefix,
            tree(directories, depth, digest, Seq::empty()),
        ),
{
    lemma_tree_prefix(directories, depth, digest, prefix, Seq::empty());
    assert(prefix + Seq::<char>::empty() =~= prefix);
}

/// The paths that a directory in another adds to the listing of that other: its
/// own listing, each path under its name. None where the store lacks it.
pub open spec fn listing_under(
    directories: Directories,
    depth: nat,
    node: DirectoryNodeView,
) -> Seq<Seq<char>> {
    match listing_of(directories, depth, node.digest->Ok_0) {
        Some(Ok(Some(paths))) => paths.map_values(
            |path: Seq<char>| node.name + "/"@ + path,
        ),
        _ => Seq::empty(),
    }
}

/// The paths that the directories in another add to the listing of that other.
pub open spec fn listings_under(
    directories: Directories,
    depth: nat,
    nodes: Seq<DirectoryNodeView>,
) -> Seq<Seq<char>>
    decreases nodes.len(),
{
    if nodes.len() == 0 {
        Seq::empty()
    } else {
        listing_under(directories, depth, nodes[0]) + listings_under(
            directories,
            depth,
            nodes.drop_first(),
        )
    }
}

proof fn lemma_same_prefixed(prefix: Seq<char>, a: Seq<Seq<char>>, b: Seq<Seq<char>>)
    requires
        a.to_multiset() == b.to_multiset(),
    ensures
        prefixed(prefix, a).to_multiset() == prefixed(prefix, b).to_multiset(),
    decreases a.len(),
{
    broadcast use group_to_multiset_ensures;

    if a.len() == 0 {
        a.to_multiset_ensures();
        b.to_multiset_ensures();
        assert(a =~= b);
    } else {
        let name = a[0];
        assert(b.to_multiset().count(name) > 0);
        let i = b.index_of(name);
        lemma_same_prefixed(prefix, a.remove(0), b.remove(i));
        assert(prefixed(prefix, a.remove(0)) =~= prefixed(prefix, a).remove(0));
        assert(prefixed(prefix, b.remove(i)) =~= prefixed(prefix, b).remove(i));
        lemma_put_back(prefixed(prefix, a), 0);
        lemma_put_back(prefixed(prefix, b), i);
    }
}

proof fn lemma_put_back<T>(all: Seq<T>, i: int)
    requires
        0 <= i < all.len(),
    ensures
        all.remove(i).to_multiset().insert(all[i]) == all.to_multiset(),
{
    broadcast use group_to_multiset_ensures;

    assert(all.to_multiset().count(all[i]) > 0);
    assert(all.to_multiset().remove(all[i]).insert(all[i]) =~= all.to_multiset());
}

proof fn lemma_same_order(a: Seq<Seq<char>>, b: Seq<Seq<char>>)
    requires
        a.to_multiset() == b.to_multiset(),
    ensures
        in_order(a) == in_order(b),
{
    law_in_order(a, Seq::empty());
    law_in_order(b, in_order(a));
}

/// The directories in another add the same paths, in whatever order they stand.
proof fn lemma_listings_permuted(
    directories: Directories,
    depth: nat,
    a: Seq<DirectoryNodeView>,
    b: Seq<DirectoryNodeView>,
)
    requires
        a.to_multiset() == b.to_multiset(),
    ensures
        listings_under(directories, depth, a).to_multiset() == listings_under(
            directories,
            depth,
            b,
        ).to_multiset(),
    decreases a.len(),
{
    broadcast use group_to_multiset_ensures;

    if a.len() == 0 {
        a.to_multiset_ensures();
        b.to_multiset_ensures();
        assert(a =~= b);
    } else {
        let node = a[0];
        assert(b.to_multiset().count(node) > 0);
        let i = b.index_of(node);
        assert(a.remove(0) =~= a.drop_first());
        lemma_listings_permuted(directories, depth, a.remove(0), b.remove(i));
        lemma_listings_remove(directories, depth, b, i);
        lemma_multiset_commutative(
            listing_under(directories, depth, node),
            listings_under(directories, depth, a.drop_first()),
        );
    }
}

proof fn lemma_listings_remove(
    directories: Directories,
    depth: nat,
    nodes: Seq<DirectoryNodeView>,
    i: int,
)
    requires
        0 <= i < nodes.len(),
    ensures
        listings_under(directories, depth, nodes).to_multiset() == listing_under(
            directories,
            depth,
            nodes[i],
        ).to_multiset().add(listings_under(directories, depth, nodes.remove(i)).to_multiset()),
    decreases nodes.len(),
{
    let rest = nodes.drop_first();
    let first = listing_under(directories, depth, nodes[0]);
    lemma_multiset_commutative(first, listings_under(directories, depth, rest));
    if i == 0 {
        assert(nodes.remove(0) =~= rest);
    } else {
        lemma_listings_remove(directories, depth, rest, i - 1);
        assert(nodes.remove(i).drop_first() =~= rest.remove(i - 1));
        lemma_multiset_commutative(
            first,
            listings_under(directories, depth, rest.remove(i - 1)),
        );
        assert(listings_under(directories, depth, nodes).to_multiset() =~= listing_under(
            directories,
            depth,
            nodes[i],
        ).to_multiset().add(
            listings_under(directories, depth, nodes.remove(i)).to_multiset(),
        ));
    }
}

proof fn lemma_forest_listings(
    directories: Directories,
    depth: nat,
    nodes: Seq<DirectoryNodeView>,
)
    ensures
        forest(directories, depth, children(Seq::empty(), nodes)) matches Some(Ok(paths))
            ==> paths.to_multiset() == listings_under(directories, depth, nodes).to_multiset(),
    decreases nodes.len(),
{
    reveal_with_fuel(forest, 2);
    let below = children(Seq::empty(), nodes);
    if nodes.len() > 0 {
        let node = nodes[0];
        let digest = node.digest->Ok_0;
        let rest = nodes.drop_first();
        assert(below.drop_first() =~= children(Seq::empty(), rest));
        assert(Seq::<char>::empty() + node.name + "/"@ =~= node.name + "/"@);
        lemma_forest_listings(directories, depth, rest);
        law_prefix_stands_before_each_path(directories, depth, digest, node.name + "/"@);
        if let Some(Ok(paths)) = forest(directories, depth, below) {
            let found = tree(directories, depth, digest, node.name + "/"@)->0->Ok_0.unwrap_or(
                Seq::empty(),
            );
            let others = forest(directories, depth, children(Seq::empty(), rest))->0->Ok_0;
            if let Some(Ok(Some(names))) = tree(directories, depth, digest, Seq::empty()) {
                law_in_order(names, Seq::empty());
                lemma_same_prefixed(node.name + "/"@, names, in_order(names));
            }
            lemma_multiset_commutative(found, others);
            lemma_multiset_commutative(
                listing_under(directories, depth, node),
                listings_under(directories, depth, rest),
            );
        }
    }
}

/// The listing of a directory holds its files and the listings of the
/// directories in it, each under the name of that directory and each path as
/// often as it is there, and nothing else, in order.
pub proof fn law_listing_is_composed(
    directories: Directories,
    depth: nat,
    digest: DigestView,
    directory: DirectoryView,
)
    requires
        loads_whole(directories, depth, digest),
        directories(digest) == Ok::<Option<DirectoryView>, Seq<char>>(Some(directory)),
    ensures
        ({
            let below = listings_under(directories, (depth - 1) as nat, directory.directories);
            &&& listing_of(directories, depth, digest) == Some(
                Ok::<Option<Seq<Seq<char>>>, Seq<char>>(Some(in_order(directory.files + below))),
            )
            &&& listing_of(directories, depth, digest)->0->Ok_0->0.to_multiset()
                == directory.files.to_multiset().add(below.to_multiset())
        }),
        forall|i: int|
            0 <= i < directory.directories.len() ==> listing_of(
                directories,
                (depth - 1) as nat,
                (#[trigger] directory.directories[i]).digest->Ok_0,
            ) matches Some(Ok(_)),
{
    reveal_with_fuel(tree, 2);
    let nodes = directory.directories;
    let below = listings_under(directories, (depth - 1) as nat, nodes);
    law_listing_succeeds(directories, depth, digest);
    lemma_forest_listings(directories, (depth - 1) as nat, nodes);
    let found = forest(directories, (depth - 1) as nat, children(Seq::empty(), nodes))->0->Ok_0;
    assert(prefixed(Seq::empty(), directory.files) =~= directory.files) by {
        assert forall|i: int| 0 <= i < directory.files.len() implies prefixed(
            Seq::empty(),
            directory.files,
        )[i] == #[trigger] directory.files[i] by {
            assert(Seq::<char>::empty() + directory.files[i] =~= directory.files[i]);
        }
    }
    lemma_multiset_commutative(directory.files, found);
    lemma_multiset_commutative(directory.files, below);
    lemma_same_order(directory.files + found, directory.files + below);
    law_in_order(directory.files + below, Seq::empty());
    assert forall|i: int| 0 <= i < nodes.len() implies listing_of(
        directories,
        (depth - 1) as nat,
        (#[trigger] nodes[i]).digest->Ok_0,
    ) matches Some(Ok(_)) by {
        law_listing_succeeds(directories, (depth - 1) as nat, nodes[i].digest->Ok_0);
    }
}

/// Whether two directories, each in a store of its own, are alike down to this
/// depth: they hold the same files, and directories of the same names that are
/// alike in turn, in whatever order and at whatever addresses. Where one fails
/// to load or is missing, so does or is the other.
pub open spec fn alike(
    a: Directories,
    b: Directories,
    depth: nat,
    m: DigestView,
    n: DigestView,
) -> bool
    decreases depth,
{
    depth == 0 || match (a(m), b(n)) {
        (Err(_), Err(_)) => true,
        (Ok(None), Ok(None)) => true,
        (Ok(Some(x)), Ok(Some(y))) => {
            &&& x.files.to_multiset() == y.files.to_multiset()
            &&& exists|nodes: Seq<DirectoryNodeView>|
                {
                    &&& #[trigger] nodes.to_multiset() == y.directories.to_multiset()
                    &&& nodes.len() == x.directories.len()
                    &&& forall|i: int|
                        0 <= i < nodes.len() ==> (#[trigger] x.directories[i]).name
                            == nodes[i].name && match (x.directories[i].digest, nodes[i].digest) {
                            (Err(_), Err(_)) => true,
                            (Ok(p), Ok(q)) => alike(a, b, (depth - 1) as nat, p, q),
                            _ => false,
                        }
                }
        },
        _ => false,
    }
}

/// Whether the directories of two lists have the same names, one by one, and
/// are alike.
spec fn each_alike(
    a: Directories,
    b: Directories,
    depth: nat,
    xs: Seq<DirectoryNodeView>,
    ys: Seq<DirectoryNodeView>,
) -> bool {
    &&& xs.len() == ys.len()
    &&& forall|i: int|
        0 <= i < xs.len() ==> (#[trigger] xs[i]).name == ys[i].name && match (
            xs[i].digest,
            ys[i].digest,
        ) {
            (Err(_), Err(_)) => true,
            (Ok(m), Ok(n)) => alike(a, b, depth, m, n),
            _ => false,
        }
}

/// The directories in one of two that are alike, in the order of their
/// counterparts in the other.
proof fn lemma_counterparts(
    a: Directories,
    b: Directories,
    depth: nat,
    m: DigestView,
    n: DigestView,
    x: DirectoryView,
    y: DirectoryView,
) -> (nodes: Seq<DirectoryNodeView>)
    requires
        depth > 0,
        alike(a, b, depth, m, n),
        a(m) == Ok::<Option<DirectoryView>, Seq<char>>(Some(x)),
        b(n) == Ok::<Option<DirectoryView>, Seq<char>>(Some(y)),
    ensures
        nodes.to_multiset() == y.directories.to_multiset(),
        each_alike(a, b, (depth - 1) as nat, x.directories, nodes),
{
    reveal_with_fuel(alike, 2);
    choose|nodes: Seq<DirectoryNodeView>| #[trigger]
        nodes.to_multiset() == y.directories.to_multiset() && each_alike(
            a,
            b,
            (depth - 1) as nat,
            x.directories,
            nodes,
        )
}

proof fn lemma_whole_in_both(
    a: Directories,
    b: Directories,
    depth: nat,
    m: DigestView,
    n: DigestView,
)
    requires
        alike(a, b, depth, m, n),
    ensures
        loads_whole(a, depth, m) <==> loads_whole(b, depth, n),
    decreases depth,
{
    broadcast use group_to_multiset_ensures;

    reveal_with_fuel(alike, 2);
    if depth > 0 {
        if let (Ok(Some(x)), Ok(Some(y))) = (a(m), b(n)) {
            let inner = (depth - 1) as nat;
            let xs = x.directories;
            let ys = y.directories;
            let nodes = lemma_counterparts(a, b, depth, m, n, x, y);
            assert forall|i: int| 0 <= i < xs.len() implies ((#[trigger] xs[i]).digest is Ok
                && loads_whole(a, inner, xs[i].digest->Ok_0) <==> nodes[i].digest is Ok
                && loads_whole(b, inner, nodes[i].digest->Ok_0)) by {
                if let (Ok(p), Ok(q)) = (xs[i].digest, nodes[i].digest) {
                    lemma_whole_in_both(a, b, inner, p, q);
                }
            }
            if loads_whole(a, depth, m) {
                assert forall|j: int| 0 <= j < ys.len() implies (#[trigger] ys[j]).digest is Ok
                    && loads_whole(b, inner, ys[j].digest->Ok_0) by {
                    assert(nodes.to_multiset().count(ys[j]) > 0);
                    let i = nodes.index_of(ys[j]);
                    assert(xs[i].digest is Ok);
                }
            }
            if loads_whole(b, depth, n) {
                assert forall|i: int| 0 <= i < xs.len() implies (#[trigger] xs[i]).digest is Ok
                    && loads_whole(a, inner, xs[i].digest->Ok_0) by {
                    assert(nodes.contains(nodes[i]));
                    assert(ys.to_multiset().count(nodes[i]) > 0);
                    let j = ys.index_of(nodes[i]);
                    assert(ys[j].digest is Ok);
                }
            }
        }
    }
}

proof fn lemma_listings_in_both(
    a: Directories,
    b: Directories,
    depth: nat,
    xs: Seq<DirectoryNodeView>,
    ys: Seq<DirectoryNodeView>,
)
    requires
        each_alike(a, b, depth, xs, ys),
        forall|i: int|
            0 <= i < xs.len() ==> (#[trigger] xs[i]).digest is Ok && loads_whole(
                a,
                depth,
                xs[i].digest->Ok_0,
            ),
    ensures
        listings_under(a, depth, xs) == listings_under(b, depth, ys),
    decreases depth, xs.len() + 1,
{
    if xs.len() > 0 {
        assert(forall|i: int|
            0 <= i < xs.len() - 1 ==> #[trigger] xs.drop_first()[i] == xs[i + 1]);
        lemma_listing_in_both(a, b, depth, xs[0].digest->Ok_0, ys[0].digest->Ok_0);
        lemma_listings_in_both(a, b, depth, xs.drop_first(), ys.drop_first());
    }
}

proof fn lemma_listing_in_both(
    a: Directories,
    b: Directories,
    depth: nat,
    m: DigestView,
    n: DigestView,
)
    requires
        alike(a, b, depth, m, n),
        loads_whole(a, depth, m),
    ensures
        listing_of(a, depth, m) == listing_of(b, depth, n),
    decreases depth, 0nat,
{
    reveal_with_fuel(tree, 2);
    reveal_with_fuel(alike, 2);
    lemma_whole_in_both(a, b, depth, m, n);
    if let (Ok(Some(x)), Ok(Some(y))) = (a(m), b(n)) {
        let inner = (depth - 1) as nat;
        let nodes = lemma_counterparts(a, b, depth, m, n, x, y);
        law_listing_is_composed(a, depth, m, x);
        law_listing_is_composed(b, depth, n, y);
        lemma_listings_in_both(a, b, inner, x.directories, nodes);
        lemma_listings_permuted(b, inner, nodes, y.directories);
        lemma_multiset_commutative(x.files, listings_under(a, inner, x.directories));
        lemma_multiset_commutative(y.files, listings_under(b, inner, y.directories));
        lemma_same_order(
            x.files + listings_under(a, inner, x.directories),
            y.files + listings_under(b, inner, y.directories),
        );
    }
}

/// Directories that are alike have the same listing: neither the addresses nor
/// the order in which entries are held matters to whether a listing succeeds,
/// nor to what it holds where it does.
pub proof fn law_alike_directories_have_the_same_listing(
    a: Directories,
    b: Directories,
    depth: nat,
    m: DigestView,
    n: DigestView,
)
    requires
        alike(a, b, depth, m, n),
    ensures
        loads_whole(a, depth, m) <==> loads_whole(b, depth, n),
        loads_whole(a, depth, m) ==> listing_of(a, depth, m) == listing_of(b, depth, n),
{
    lemma_whole_in_both(a, b, depth, m, n);
    if loads_whole(a, depth, m) {
        lemma_listing_in_both(a, b, depth, m, n);
    }
}

/// Whether two stores hold the same directories at the same addresses but for
/// the order of the entries in each.
pub open spec fn same_entries(a: Directories, b: Directories) -> bool {
    forall|digest: DigestView|
        match (#[trigger] a(digest), b(digest)) {
            (Ok(Some(x)), Ok(Some(y))) => {
                &&& x.files.to_multiset() == y.files.to_multiset()
                &&& x.directories.to_multiset() == y.directories.to_multiset()
            },
            (x, y) => x == y,
        }
}

proof fn lemma_same_entries_alike(a: Directories, b: Directories, depth: nat, digest: DigestView)
    requires
        same_entries(a, b),
    ensures
        alike(a, b, depth, digest, digest),
    decreases depth,
{
    reveal_with_fuel(alike, 2);
    if depth > 0 {
        if let (Ok(Some(x)), Ok(Some(y))) = (a(digest), b(digest)) {
            let inner = (depth - 1) as nat;
            let nodes = x.directories;
            assert forall|i: int| 0 <= i < nodes.len() implies match (
                (#[trigger] nodes[i]).digest
            ) {
                Err(_) => true,
                Ok(below) => alike(a, b, inner, below, below),
            } by {
                if let Ok(below) = nodes[i].digest {
                    lemma_same_entries_alike(a, b, inner, below);
                }
            }
            assert(nodes.to_multiset() == y.directories.to_multiset());
        }
    }
}

/// The order in which the entries of directories are held matters neither to
/// whether a listing succeeds nor to what it holds where it does.
pub proof fn law_listing_ignores_entry_order(
    a: Directories,
    b: Directories,
    depth: nat,
    digest: DigestView,
)
    requires
        same_entries(a, b),
    ensures
        loads_whole(a, depth, digest) <==> loads_whole(b, depth, digest),
        loads_whole(a, depth, digest) ==> listing_of(a, depth, digest) == listing_of(
            b,
            depth,
            digest,
        ),
{
    lemma_same_entries_alike(a, b, depth, digest);
    law_alike_directories_have_the_same_listing(a, b, depth, digest, digest);
}

} // verus!
