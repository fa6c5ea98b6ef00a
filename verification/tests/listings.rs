use fs_util::digest::Digest;
use fs_util::listing::expand_files;
use fs_util::listing::Directory;
use fs_util::listing::DirectoryNode;
use fs_util::listing::ExpandStep;
use fs_util::listing::Listed;
use fs_util::listing::Loaded;

fn at(fingerprint: &str) -> Digest {
    Digest { fingerprint: fingerprint.to_string(), size_bytes: 1 }
}

fn node(name: &str, fingerprint: &str) -> DirectoryNode {
    DirectoryNode { name: name.to_string(), digest: Ok(at(fingerprint)) }
}

fn unusable(name: &str, message: &str) -> DirectoryNode {
    DirectoryNode { name: name.to_string(), digest: Err(message.to_string()) }
}

fn directory(files: &[&str], directories: Vec<DirectoryNode>) -> Loaded {
    Ok(Some(Directory {
        files: files.iter().map(|name| name.to_string()).collect(),
        directories,
    }))
}

fn list(store: fn(&str) -> Loaded, root: &str) -> (Listed, Vec<String>) {
    let mut asked = Vec::new();
    let mut step = expand_files(at(root));
    loop {
        match step {
            ExpandStep::Done(listed) => return (listed, asked),
            ExpandStep::Load { digest, rest } => {
                let loaded = store(&digest.fingerprint);
                asked.push(digest.fingerprint);
                step = rest.expand_files_helper(loaded);
            }
        }
    }
}

fn paths(listed: Listed) -> Vec<String> {
    listed.unwrap().unwrap()
}

fn small_tree(fingerprint: &str) -> Loaded {
    match fingerprint {
        "root" => directory(
            &["zebra", "b.txt"],
            vec![node("sub", "sub"), node("gone", "gone"), node("a", "leaf")],
        ),
        "sub" => directory(&["y", "x"], vec![node("deep", "leaf")]),
        "leaf" => directory(&["roland"], vec![]),
        "empty" => directory(&[], vec![]),
        _ => Ok(None),
    }
}

#[test]
fn lists_every_file_in_order() {
    let (listed, _) = list(small_tree, "root");
    assert_eq!(
        paths(listed),
        vec!["a/roland", "b.txt", "sub/deep/roland", "sub/x", "sub/y", "zebra"]
    );
}

#[test]
fn loads_every_directory_once_for_each_way_to_it() {
    let (_, asked) = list(small_tree, "root");
    assert_eq!(asked, vec!["root", "sub", "leaf", "gone", "leaf"]);
}

#[test]
fn a_missing_root_is_told() {
    let (listed, asked) = list(small_tree, "nowhere");
    assert!(matches!(listed, Ok(None)));
    assert_eq!(asked, vec!["nowhere"]);
}

#[test]
fn a_missing_directory_further_down_counts_as_empty() {
    fn store(fingerprint: &str) -> Loaded {
        match fingerprint {
            "root" => directory(&["kept"], vec![node("gone", "gone")]),
            _ => Ok(None),
        }
    }
    assert_eq!(paths(list(store, "root").0), vec!["kept"]);
}

#[test]
fn an_empty_directory_has_an_empty_listing() {
    assert_eq!(paths(list(small_tree, "empty").0), Vec::<String>::new());
}

#[test]
fn a_failure_to_load_ends_the_listing() {
    fn store(fingerprint: &str) -> Loaded {
        match fingerprint {
            "root" => directory(&["kept"], vec![node("bad", "bad"), node("later", "later")]),
            "bad" => Err("network down".to_string()),
            _ => directory(&[], vec![]),
        }
    }
    let (listed, asked) = list(store, "root");
    assert_eq!(listed.unwrap_err(), "network down");
    assert_eq!(asked, vec!["root", "bad"]);
}

#[test]
fn a_root_that_fails_to_load_ends_the_listing() {
    fn store(_: &str) -> Loaded {
        Err("no such disk".to_string())
    }
    assert_eq!(list(store, "root").0.unwrap_err(), "no such disk");
}

#[test]
fn the_first_unusable_address_ends_the_listing() {
    fn store(_: &str) -> Loaded {
        directory(
            &["kept"],
            vec![node("fine", "fine"), unusable("x", "bad hex"), unusable("y", "too short")],
        )
    }
    let (listed, asked) = list(store, "root");
    assert_eq!(listed.unwrap_err(), "bad hex");
    assert_eq!(asked, vec!["root"]);
}

#[test]
fn the_same_name_is_listed_as_often_as_it_is_held() {
    fn store(_: &str) -> Loaded {
        directory(&["a", "a"], vec![])
    }
    assert_eq!(paths(list(store, "root").0), vec!["a", "a"]);
}

#[test]
fn a_listing_is_made_of_the_files_and_the_listings_below() {
    let mut expected = vec!["zebra".to_string(), "b.txt".to_string()];
    for (name, fingerprint) in [("sub", "sub"), ("a", "leaf")] {
        for path in paths(list(small_tree, fingerprint).0) {
            expected.push(format!("{}/{}", name, path));
        }
    }
    expected.sort();
    assert_eq!(paths(list(small_tree, "root").0), expected);
}

#[test]
fn the_order_of_entries_does_not_matter() {
    fn store(fingerprint: &str) -> Loaded {
        match fingerprint {
            "root" => directory(
                &["b.txt", "zebra"],
                vec![node("a", "leaf"), node("sub", "sub"), node("gone", "gone")],
            ),
            "sub" => directory(&["x", "y"], vec![node("deep", "leaf")]),
            other => small_tree(other),
        }
    }
    assert_eq!(paths(list(store, "root").0), paths(list(small_tree, "root").0));
}

#[test]
fn a_directory_under_two_names_is_listed_under_both() {
    fn store(fingerprint: &str) -> Loaded {
        match fingerprint {
            "root" => directory(&[], vec![node("q", "leaf"), node("p", "leaf"), node("q", "leaf")]),
            other => small_tree(other),
        }
    }
    assert_eq!(paths(list(store, "root").0), vec!["p/roland", "q/roland", "q/roland"]);
}

#[test]
fn alike_trees_at_other_addresses_have_the_same_listing() {
    fn store(fingerprint: &str) -> Loaded {
        match fingerprint {
            "other root" => directory(
                &["b.txt", "zebra"],
                vec![node("a", "other leaf"), node("gone", "lost"), node("sub", "other sub")],
            ),
            "other sub" => directory(&["x", "y"], vec![node("deep", "another leaf")]),
            "other leaf" => directory(&["roland"], vec![]),
            "another leaf" => directory(&["roland"], vec![]),
            _ => Ok(None),
        }
    }
    assert_eq!(paths(list(store, "other root").0), paths(list(small_tree, "root").0));
}

#[test]
fn a_failed_listing_tells_a_message_from_further_down() {
    fn store(fingerprint: &str) -> Loaded {
        match fingerprint {
            "root" => directory(&["kept"], vec![node("fine", "fine"), node("sub", "sub")]),
            "sub" => directory(&[], vec![unusable("x", "bad hex")]),
            _ => directory(&[], vec![]),
        }
    }
    assert_eq!(list(store, "root").0.unwrap_err(), "bad hex");
}
