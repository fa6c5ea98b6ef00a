use clap::App;
use clap::Arg;
use clap::SubCommand;
use fs_util::args::Argument;
use fs_util::args::Command;
use fs_util::args::DigestArguments;
use fs_util::args::Request;
use fs_util::digest::Digest;
use fs_util::execute::ensure_uploaded_to_remote;
use fs_util::execute::execute;
use fs_util::execute::start;
use fs_util::execution::Defect;
use fs_util::execution::Next;
use fs_util::execution::Outcome;
use fs_util::execution::Saving;
use fs_util::exit::ExitCode;
use fs_util::listing::Directory;
use fs_util::listing::DirectoryNode;
use fs_util::protocol::OpenFailure;
use fs_util::protocol::Query;
use fs_util::protocol::Reply;
use fs_util::protocol::SnapshotFailure;
use fs_util::protocol::Stat;
use fs_util::report::Output;
use fs_util::store::StoreOptions;

fn given(text: &str) -> Argument {
    Argument::Text(text.to_string())
}

fn digest_arguments(fingerprint: &str, size_bytes: &str) -> DigestArguments {
    DigestArguments { fingerprint: given(fingerprint), size_bytes: given(size_bytes) }
}

fn local(command: Command) -> Request {
    Request {
        local_store_path: Argument::Absent,
        server_address: Argument::Absent,
        chunk_bytes: given("3145728"),
        root_ca_cert_file: Argument::Absent,
        oauth_bearer_token_file: Argument::Absent,
        remote_instance_name: Argument::Absent,
        command,
    }
}

fn remote(command: Command) -> Request {
    Request { server_address: given("host:80"), ..local(command) }
}

/// A world in memory. It knows the file `file`, the directory `dir` with the
/// file `roland` and the directory `cats`, and nothing else.
struct World {
    asked: Vec<String>,
    options: Option<StoreOptions>,
    refuse: bool,
    certificates: Result<Vec<u8>, String>,
    token: Result<String, String>,
    materialized: Result<(), String>,
    parent: Result<bool, String>,
    stat: Option<String>,
    snapshot: Option<SnapshotFailure>,
    saved: &'static str,
    breaks_at: &'static str,
    snapped: &'static str,
    collected: Result<(), String>,
    load: Result<(), String>,
}

impl World {
    fn new() -> World {
        World {
            asked: Vec::new(),
            options: None,
            refuse: false,
            certificates: Ok(vec![1, 2, 3]),
            token: Ok("secret word".to_string()),
            materialized: Ok(()),
            parent: Ok(true),
            stat: None,
            snapshot: None,
            saved: "saved",
            breaks_at: "",
            snapped: "snap",
            collected: Ok(()),
            load: Ok(()),
        }
    }

    fn blob(&self, digest: &Digest, name: &str, bytes: &[u8]) -> Result<Option<Vec<u8>>, String> {
        self.load.clone()?;
        Ok(if digest.fingerprint == name { Some(bytes.to_vec()) } else { None })
    }

    fn answer(&mut self, query: Query) -> Reply<u32> {
        match query {
            Query::ReadCertificates { path } => {
                self.asked.push(format!("certificates {}", path));
                Reply::Contents(self.certificates.clone())
            }
            Query::ReadToken { path } => {
                self.asked.push(format!("token {}", path));
                Reply::Token(self.token.clone())
            }
            Query::OpenStore(options) => {
                self.asked.push("open".to_string());
                self.options = Some(options);
                Reply::Opened(if self.refuse {
                    Err(OpenFailure {
                        default_directory: "\"/default\"".to_string(),
                        reason: "disk full".to_string(),
                    })
                } else {
                    Ok(())
                })
            }
            Query::ParseFingerprint { text } => {
                self.asked.push(format!("fingerprint {}", text));
                Reply::Fingerprint(if text.starts_with('!') {
                    Err("InvalidHexCharacter".to_string())
                } else {
                    Ok(text)
                })
            }
            Query::DescribeDigest { digest } => {
                self.asked.push("describe".to_string());
                Reply::Description(format!("<{}, {}>", digest.fingerprint, digest.size_bytes))
            }
            Query::LoadFile { digest } => {
                self.asked.push(format!("file {}", digest.fingerprint));
                Reply::Bytes(self.blob(&digest, "file", b"European Burmese"))
            }
            Query::LoadDirectoryBytes { digest } => {
                self.asked.push(format!("directory bytes {}", digest.fingerprint));
                Reply::Bytes(self.blob(&digest, "dir", &[10, 20]))
            }
            Query::LoadDirectoryText { digest } => {
                self.asked.push(format!("directory text {}", digest.fingerprint));
                Reply::Text(self.load.clone().map(|()| {
                    if digest.fingerprint == "dir" { Some("files {..}".to_string()) } else { None }
                }))
            }
            Query::LoadDirectory { digest } => {
                self.asked.push(format!("directory {}", digest.fingerprint));
                Reply::Directory(self.load.clone().map(|()| match digest.fingerprint.as_str() {
                    "dir" => Some(Directory {
                        files: vec!["roland".to_string()],
                        directories: vec![DirectoryNode {
                            name: "cats".to_string(),
                            digest: Ok(Digest {
                                fingerprint: "cats".to_string(),
                                size_bytes: 4,
                            }),
                        }],
                    }),
                    "cats" => Some(Directory {
                        files: vec!["b".to_string(), "a".to_string()],
                        directories: vec![],
                    }),
                    _ => None,
                }))
            }
            Query::Materialize { destination, digest } => {
                self.asked.push(format!("materialize {} {}", destination, digest.fingerprint));
                Reply::Finished(self.materialized.clone())
            }
            Query::FindParent { path } => {
                self.asked.push(format!("parent {}", path));
                Reply::Parent(self.parent.clone())
            }
            Query::Stat { path } => {
                self.asked.push(format!("stat {}", path));
                Reply::Stat(if self.breaks_at == "stat" {
                    Err("NotFound".to_string())
                } else {
                    Ok(match &self.stat {
                        None => Stat::File,
                        Some(description) => Stat::Other(description.clone()),
                    })
                })
            }
            Query::SaveFile { path } => {
                self.asked.push(format!("save {}", path));
                Reply::Saved(if self.breaks_at == "save" {
                    Err("disk full".to_string())
                } else {
                    Ok(Digest { fingerprint: self.saved.to_string(), size_bytes: 16 })
                })
            }
            Query::SaveDirectory { root, globs, excluded, ignore_unmatched, take_all } => {
                assert!(excluded.is_empty());
                assert!(ignore_unmatched);
                assert!(take_all);
                self.asked.push(format!("save {} {}", root, globs.join(",")));
                Reply::Snapshot(match self.snapshot.take() {
                    Some(failure) => Err(failure),
                    None => Ok(Digest { fingerprint: self.snapped.to_string(), size_bytes: 82 }),
                })
            }
            Query::EnsureUploaded { digest } => {
                self.asked.push(format!("upload {}", digest.fingerprint));
                Reply::Uploaded(if self.breaks_at == "upload" {
                    Err("network down".to_string())
                } else {
                    Ok(99)
                })
            }
            Query::CollectGarbage { target_size_bytes, compact } => {
                assert!(compact);
                self.asked.push(format!("gc {}", target_size_bytes));
                Reply::Finished(self.collected.clone())
            }
        }
    }

    fn run(&mut self, request: Request) -> Outcome<u32> {
        self.go_on(start(request))
    }

    fn go_on(&mut self, next: Next<u32>) -> Outcome<u32> {
        let mut next = next;
        loop {
            match next {
                Next::Finish(outcome) => return outcome,
                Next::Ask { query, rest } => {
                    let reply = self.answer(query);
                    next = rest.resume(reply);
                }
            }
        }
    }
}

fn printed(outcome: Outcome<u32>) -> Vec<u8> {
    match outcome {
        Outcome::Success(Output::Stdout(bytes)) => bytes,
        other => panic!("{:?}", other),
    }
}

fn failed(outcome: Outcome<u32>) -> (String, ExitCode) {
    match outcome {
        Outcome::Failure(error) => (error.0, error.1),
        other => panic!("{:?}", other),
    }
}

fn broke_off(outcome: Outcome<u32>) -> Defect {
    match outcome {
        Outcome::Defect(defect) => defect,
        other => panic!("{:?}", other),
    }
}

fn broke_down(outcome: Outcome<u32>) -> String {
    match outcome {
        Outcome::Breakdown(message) => message,
        other => panic!("{:?}", other),
    }
}

fn unknown(message: &str) -> (String, ExitCode) {
    (message.to_string(), ExitCode::UnknownError)
}

fn not_found(message: &str) -> (String, ExitCode) {
    (message.to_string(), ExitCode::NotFound)
}

fn file_cat(fingerprint: &str, size_bytes: &str) -> Command {
    Command::FileCat { digest: digest_arguments(fingerprint, size_bytes) }
}

fn cat(fingerprint: &str) -> Command {
    Command::Cat { digest: digest_arguments(fingerprint, "16") }
}

fn cat_proto(fingerprint: &str, format: &str) -> Command {
    Command::DirectoryCatProto {
        digest: digest_arguments(fingerprint, "16"),
        output_format: given(format),
    }
}

fn materialize() -> Command {
    Command::DirectoryMaterialize {
        destination: given("/there"),
        digest: digest_arguments("dir", "16"),
    }
}

fn file_save(mode: &str) -> Command {
    Command::FileSave { path: given("a/\"b\""), output_mode: given(mode) }
}

fn directory_save(mode: &str) -> Command {
    Command::DirectorySave {
        root: given("/src"),
        globs: Some(vec![Some("*.rs".to_string()), Some("doc".to_string())]),
        output_mode: given(mode),
    }
}

fn gc(target: &str) -> Command {
    Command::GarbageCollect { target_size_bytes: given(target) }
}

#[test]
fn file_cat_prints_the_file() {
    let mut world = World::new();
    assert_eq!(printed(world.run(local(file_cat("file", "16")))), b"European Burmese".to_vec());
    assert_eq!(world.asked, vec!["open", "fingerprint file", "file file"]);
}

#[test]
fn file_cat_tells_a_missing_file() {
    let mut world = World::new();
    assert_eq!(
        failed(world.run(local(file_cat("dir", "16")))),
        not_found("File with digest <dir, 16> not found")
    );
}

#[test]
fn a_bad_fingerprint_fails() {
    let mut world = World::new();
    assert_eq!(
        failed(world.run(local(file_cat("!x", "not a number")))),
        unknown("InvalidHexCharacter")
    );
}

#[test]
fn a_bad_size_breaks_off() {
    for size in ["", "-1", "1.5", "many"] {
        let mut world = World::new();
        assert_eq!(broke_off(world.run(local(file_cat("file", size)))), Defect::BadSizeBytes);
    }
}

#[test]
fn a_failure_to_load_is_passed_on() {
    for command in [
        file_cat("file", "16"),
        cat("file"),
        cat_proto("dir", "binary"),
        cat_proto("dir", "text"),
        cat_proto("dir", "recursive-file-list"),
    ] {
        let mut world = World::new();
        world.load = Err("network down".to_string());
        assert_eq!(failed(world.run(local(command))), unknown("network down"));
    }
}

#[test]
fn cat_prints_files_and_directories() {
    let mut world = World::new();
    assert_eq!(printed(world.run(local(cat("file")))), b"European Burmese".to_vec());
    assert_eq!(printed(world.run(local(cat("dir")))), vec![10, 20]);
    assert_eq!(
        failed(world.run(local(cat("none")))),
        not_found("Digest <none, 16> not found")
    );
}

#[test]
fn cat_loads_a_directory_only_where_there_is_no_file() {
    let mut world = World::new();
    world.run(local(cat("file")));
    assert_eq!(world.asked, vec!["open", "fingerprint file", "file file"]);
    world.asked.clear();
    world.run(local(cat("dir")));
    assert_eq!(
        world.asked,
        vec!["open", "fingerprint dir", "file dir", "directory bytes dir"]
    );
}

#[test]
fn cat_proto_prints_in_every_format() {
    let mut world = World::new();
    assert_eq!(printed(world.run(local(cat_proto("dir", "binary")))), vec![10, 20]);
    assert_eq!(printed(world.run(local(cat_proto("dir", "text")))), b"files {..}\n".to_vec());
    assert_eq!(
        printed(world.run(local(cat_proto("dir", "recursive-file-list")))),
        b"cats/a\ncats/b\nroland\n".to_vec()
    );
}

#[test]
fn cat_proto_tells_a_missing_directory() {
    for format in ["binary", "text", "recursive-file-list"] {
        let mut world = World::new();
        assert_eq!(
            failed(world.run(local(cat_proto("none", format)))),
            not_found("Directory with digest <none, 16> not found")
        );
    }
}

#[test]
fn cat_proto_refuses_other_formats() {
    let mut world = World::new();
    assert_eq!(
        failed(world.run(local(cat_proto("dir", "xml")))),
        unknown("Unexpected value of --output-format arg: xml")
    );
}

#[test]
fn cat_proto_needs_a_format() {
    let command = Command::DirectoryCatProto {
        digest: digest_arguments("dir", "16"),
        output_format: Argument::Absent,
    };
    assert_eq!(broke_off(World::new().run(local(command))), Defect::MissingArgument);
}

#[test]
fn materialize_succeeds_quietly() {
    let mut world = World::new();
    assert!(matches!(
        world.run(local(materialize())),
        Outcome::Success(Output::Nothing)
    ));
    assert_eq!(world.asked, vec!["open", "fingerprint dir", "materialize /there dir"]);
}

#[test]
fn materialize_tells_what_is_not_found_by_the_message() {
    let mut world = World::new();
    world.materialized = Err("Directory dir not found in store".to_string());
    assert_eq!(
        failed(world.run(local(materialize()))),
        not_found("Directory dir not found in store")
    );
    world.materialized = Err("permission denied".to_string());
    assert_eq!(failed(world.run(local(materialize()))), unknown("permission denied"));
}

#[test]
fn file_save_reports_what_it_saved() {
    let mut world = World::new();
    assert_eq!(printed(world.run(local(file_save("simple")))), b"saved 16\n".to_vec());
    assert_eq!(
        world.asked,
        vec!["open", "parent a/\"b\"", "stat a/\"b\"", "save a/\"b\""]
    );
}

#[test]
fn saving_uploads_if_and_only_if_there_is_a_server() {
    for command in [file_save("json"), directory_save("json")] {
        let mut world = World::new();
        match world.run(local(command)) {
            Outcome::Success(Output::Json(report)) => assert_eq!(report.summary, None),
            other => panic!("{:?}", other),
        }
        assert!(!world.asked.iter().any(|query| query.starts_with("upload")));
    }
    for (command, name) in [(file_save("json"), "saved"), (directory_save("json"), "snap")] {
        let mut world = World::new();
        match world.run(remote(command)) {
            Outcome::Success(Output::Json(report)) => {
                assert_eq!(report.summary, Some(99));
                assert_eq!(report.digest.fingerprint, name);
            }
            other => panic!("{:?}", other),
        }
        assert_eq!(world.asked.last().unwrap(), &format!("upload {}", name));
    }
}

#[test]
fn an_unknown_output_mode_is_complained_about() {
    match World::new().run(local(file_save("xml"))) {
        Outcome::Success(Output::Stderr(text)) => assert_eq!(text, "Unknown summary format.\n"),
        other => panic!("{:?}", other),
    }
}

#[test]
fn file_save_shows_the_path_quoted() {
    let mut world = World::new();
    world.parent = Err("Os { code: 2 }".to_string());
    assert_eq!(
        failed(world.run(local(file_save("simple")))),
        unknown("Error canonicalizing path \"a/\\\"b\\\"\": Os { code: 2 }")
    );
    world.parent = Ok(false);
    assert_eq!(
        failed(world.run(local(file_save("simple")))),
        unknown("File being saved must have parent but \"a/\\\"b\\\"\" did not")
    );
    world.parent = Ok(true);
    world.stat = Some("Dir(Dir(\"b\"))".to_string());
    assert_eq!(
        failed(world.run(local(file_save("simple")))),
        unknown(
            "Tried to save file \"a/\\\"b\\\"\" but it was not a file, was a Dir(Dir(\"b\"))"
        )
    );
}

#[test]
fn directory_save_reports_what_it_saved() {
    let mut world = World::new();
    assert_eq!(printed(world.run(local(directory_save("simple")))), b"snap 82\n".to_vec());
    assert_eq!(world.asked, vec!["open", "save /src *.rs,doc"]);
}

#[test]
fn directory_save_tells_its_failures() {
    let mut world = World::new();
    world.snapshot = Some(SnapshotFailure::Globs("Could not parse glob".to_string()));
    assert_eq!(
        failed(world.run(local(directory_save("simple")))),
        unknown("Could not parse glob")
    );
    world.snapshot = Some(SnapshotFailure::Expand("Os { code: 13 }".to_string()));
    assert_eq!(
        failed(world.run(local(directory_save("simple")))),
        unknown("Error expanding globs: Os { code: 13 }")
    );
    world.snapshot = Some(SnapshotFailure::Store("disk full".to_string()));
    assert_eq!(failed(world.run(local(directory_save("simple")))), unknown("disk full"));
}

#[test]
fn directory_save_needs_unicode_globs() {
    let with = |globs| Command::DirectorySave {
        root: given("/src"),
        globs,
        output_mode: given("simple"),
    };
    assert_eq!(broke_off(World::new().run(local(with(None)))), Defect::MissingArgument);
    assert_eq!(
        broke_off(World::new().run(local(with(Some(vec![Some("a".to_string()), None]))))),
        Defect::NotUnicode
    );
    let mut world = World::new();
    assert_eq!(printed(world.run(local(with(Some(vec![]))))), b"snap 82\n".to_vec());
}

#[test]
fn garbage_is_collected_to_the_target() {
    let mut world = World::new();
    assert!(matches!(world.run(local(gc("1024"))), Outcome::Success(Output::Nothing)));
    assert_eq!(world.asked, vec!["open", "gc 1024"]);
    world.collected = Err("store is locked".to_string());
    assert_eq!(failed(world.run(local(gc("1024")))), unknown("store is locked"));
    assert_eq!(broke_off(World::new().run(local(gc("lots")))), Defect::BadTargetSize);
    let absent = Command::GarbageCollect { target_size_bytes: Argument::Absent };
    assert_eq!(broke_off(World::new().run(local(absent))), Defect::BadTargetSize);
}

#[test]
fn without_a_command_the_store_is_opened_first() {
    let mut world = World::new();
    assert_eq!(broke_off(world.run(local(Command::Unimplemented))), Defect::Unimplemented);
    assert_eq!(world.asked, vec!["open"]);
    world.refuse = true;
    assert_eq!(
        failed(world.run(local(Command::Unimplemented))),
        unknown("Failed to open/create store for directory \"/default\": disk full")
    );
}

#[test]
fn a_store_that_does_not_open_is_named() {
    for request in [local(gc("0")), remote(gc("0"))] {
        let mut world = World::new();
        world.refuse = true;
        let request = Request { local_store_path: given("/my \"store\""), ..request };
        assert_eq!(
            failed(world.run(request)),
            unknown(
                "Failed to open/create store for directory \"/my \\\"store\\\"\": disk full"
            )
        );
    }
    let mut world = World::new();
    world.refuse = true;
    assert_eq!(
        failed(world.run(remote(gc("0")))),
        unknown("Failed to open/create store for directory \"/default\": disk full")
    );
}

#[test]
fn the_local_store_is_opened_where_it_was_asked_for() {
    let mut world = World::new();
    let mut request = local(gc("0"));
    request.local_store_path = given("/elsewhere");
    world.run(request);
    let options = world.options.unwrap();
    assert_eq!(options.directory, Some("/elsewhere".to_string()));
    assert!(options.remote.is_none());
}

#[test]
fn the_remote_store_is_reached_as_it_was_asked_for() {
    let mut world = World::new();
    let mut request = remote(gc("0"));
    request.chunk_bytes = given("4096");
    request.root_ca_cert_file = given("/ca");
    request.oauth_bearer_token_file = given("/token");
    request.remote_instance_name = given("main");
    world.run(request);
    assert_eq!(world.asked, vec!["certificates /ca", "token /token", "open", "gc 0"]);
    let options = world.options.unwrap();
    assert_eq!(options.directory, None);
    let remote = options.remote.unwrap();
    assert_eq!(remote.address, "host:80");
    assert_eq!(remote.instance_name, Some("main".to_string()));
    assert_eq!(remote.root_ca_certs, Some(vec![1, 2, 3]));
    assert_eq!(remote.oauth_bearer_token, Some("secret word".to_string()));
    assert_eq!(remote.threads, 1);
    assert_eq!(remote.chunk_bytes, 4096);
    assert_eq!(remote.timeout_seconds, 1800);
}

#[test]
fn the_remote_store_can_do_without_certificates_and_token() {
    let mut world = World::new();
    world.run(remote(gc("0")));
    assert_eq!(world.asked, vec!["open", "gc 0"]);
    let remote = world.options.unwrap().remote.unwrap();
    assert_eq!(remote.instance_name, None);
    assert_eq!(remote.root_ca_certs, None);
    assert_eq!(remote.oauth_bearer_token, None);
    assert_eq!(remote.chunk_bytes, 3145728);
}

#[test]
fn files_that_cannot_be_read_are_told() {
    let mut world = World::new();
    world.certificates = Err("No such file".to_string());
    let mut request = remote(gc("0"));
    request.root_ca_cert_file = given("/c\"a");
    assert_eq!(
        failed(world.run(request)),
        unknown("Error reading root CA certs file /c\"a: No such file")
    );
    let mut world = World::new();
    world.token = Err("No such file".to_string());
    let mut request = remote(gc("0"));
    request.oauth_bearer_token_file = given("/to\"ken");
    assert_eq!(
        failed(world.run(request)),
        unknown("Error reading oauth bearer token from \"/to\\\"ken\": No such file")
    );
    assert_eq!(world.asked, vec!["token /to\"ken"]);
}

#[test]
fn chunk_bytes_matter_only_with_a_server() {
    for bad in [Argument::Absent, given("x")] {
        let mut request = remote(gc("0"));
        request.chunk_bytes = bad;
        let mut world = World::new();
        assert_eq!(broke_off(world.run(request)), Defect::BadChunkBytes);
        assert!(world.asked.is_empty());
    }
    let mut request = local(gc("0"));
    request.chunk_bytes = given("x");
    assert!(matches!(World::new().run(request), Outcome::Success(Output::Nothing)));
}

#[test]
fn arguments_must_be_unicode() {
    let mut requests = Vec::new();
    let mut request = local(gc("0"));
    request.local_store_path = Argument::NotUnicode;
    requests.push(request);
    let mut request = local(gc("0"));
    request.server_address = Argument::NotUnicode;
    requests.push(request);
    let mut request = remote(gc("0"));
    request.chunk_bytes = Argument::NotUnicode;
    requests.push(request);
    let mut request = remote(gc("0"));
    request.root_ca_cert_file = Argument::NotUnicode;
    requests.push(request);
    let mut request = remote(gc("0"));
    request.oauth_bearer_token_file = Argument::NotUnicode;
    requests.push(request);
    let mut request = remote(gc("0"));
    request.remote_instance_name = Argument::NotUnicode;
    requests.push(request);
    requests.push(local(Command::GarbageCollect { target_size_bytes: Argument::NotUnicode }));
    requests.push(local(Command::FileSave {
        path: given("a"),
        output_mode: Argument::NotUnicode,
    }));
    for request in requests {
        assert_eq!(broke_off(World::new().run(request)), Defect::NotUnicode);
    }
}

#[test]
fn required_arguments_must_be_there() {
    let commands = [
        Command::FileSave { path: Argument::Absent, output_mode: given("simple") },
        Command::DirectoryMaterialize {
            destination: Argument::Absent,
            digest: digest_arguments("dir", "16"),
        },
        Command::FileCat {
            digest: DigestArguments { fingerprint: Argument::Absent, size_bytes: given("1") },
        },
        Command::Cat {
            digest: DigestArguments { fingerprint: given("file"), size_bytes: Argument::Absent },
        },
    ];
    for command in commands {
        assert_eq!(broke_off(World::new().run(local(command))), Defect::MissingArgument);
    }
}

#[test]
fn a_reply_to_another_query_breaks_off() {
    match start::<u32>(local(gc("0"))) {
        Next::Ask { rest, .. } => match rest.resume(Reply::Uploaded(Ok(1))) {
            Next::Finish(outcome) => assert_eq!(broke_off(outcome), Defect::Misanswered),
            other => panic!("{:?}", other),
        },
        other => panic!("{:?}", other),
    }
}

#[test]
fn a_printed_digest_addresses_the_same_blob() {
    let mut world = World::new();
    let line = String::from_utf8(printed(world.run(local(file_save("simple"))))).unwrap();
    let mut words = line.split_whitespace();
    let (fingerprint, size) = (words.next().unwrap(), words.next().unwrap());
    assert_eq!(
        failed(world.run(local(file_cat(fingerprint, size)))),
        not_found("File with digest <saved, 16> not found")
    );
}

#[test]
fn a_run_breaks_down_where_what_it_counts_on_fails() {
    let cases = [
        ("stat", "Error looking at the file being saved: NotFound"),
        ("save", "Error storing the file being saved: disk full"),
        ("upload", "Error uploading what was saved: network down"),
    ];
    for (breaks_at, message) in cases {
        let mut world = World::new();
        world.breaks_at = breaks_at;
        assert_eq!(broke_down(world.run(remote(file_save("simple")))), message);
    }
    let mut world = World::new();
    world.breaks_at = "upload";
    assert_eq!(
        broke_down(world.run(remote(directory_save("json")))),
        "Error uploading what was saved: network down"
    );
    assert_eq!(printed(world.run(local(directory_save("simple")))), b"snap 82\n".to_vec());
    world.snapshot = Some(SnapshotFailure::Root("no such directory".to_string()));
    assert_eq!(
        broke_down(world.run(local(directory_save("simple")))),
        "Error opening the directory being saved: no such directory"
    );
}

#[test]
fn what_is_not_found_is_said_so() {
    for command in [
        file_cat("nowhere", "16"),
        cat("nowhere"),
        cat_proto("nowhere", "binary"),
        cat_proto("nowhere", "text"),
        cat_proto("nowhere", "recursive-file-list"),
    ] {
        let (message, code) = failed(World::new().run(local(command)));
        assert_eq!(code, ExitCode::NotFound);
        assert!(message.contains("not found"));
    }
}

#[test]
fn a_saved_file_is_printed_back() {
    for request in [local(file_save("simple")), remote(file_save("simple"))] {
        let mut world = World::new();
        world.saved = "file";
        let line = String::from_utf8(printed(world.run(request))).unwrap();
        assert_eq!(line, "file 16\n");
        let mut words = line.split_whitespace();
        let (fingerprint, size) = (words.next().unwrap(), words.next().unwrap());
        let bytes = b"European Burmese".to_vec();
        assert_eq!(size.parse(), Ok(bytes.len()));
        assert_eq!(printed(world.run(local(file_cat(fingerprint, size)))), bytes);
        let cat = Command::Cat { digest: digest_arguments(fingerprint, size) };
        assert_eq!(printed(world.run(local(cat))), bytes);
    }
}

#[test]
fn a_saved_directory_is_printed_back() {
    let mut world = World::new();
    world.snapped = "dir";
    let line = String::from_utf8(printed(world.run(local(directory_save("simple"))))).unwrap();
    assert_eq!(line, "dir 82\n");
    let mut words = line.split_whitespace();
    let (fingerprint, size) = (words.next().unwrap(), words.next().unwrap());
    let digest = || digest_arguments(fingerprint, size);
    let binary = Command::DirectoryCatProto { digest: digest(), output_format: given("binary") };
    assert_eq!(printed(world.run(local(Command::Cat { digest: digest() }))), vec![10, 20]);
    assert_eq!(printed(world.run(local(binary))), vec![10, 20]);
}

#[test]
fn a_run_starts_from_what_the_parser_found() {
    let tool = App::new("fs_util")
        .subcommand(
            SubCommand::with_name("gc")
                .arg(Arg::with_name("target-size-bytes").long("target-size-bytes").takes_value(true)),
        )
        .arg(Arg::with_name("local-store-path").long("local-store-path").takes_value(true));
    let line = vec!["fs_util", "--local-store-path", "/store", "gc", "--target-size-bytes", "512"];
    let matches = tool.get_matches_from(line);
    let mut world = World::new();
    assert!(matches!(world.go_on(execute(&matches)), Outcome::Success(Output::Nothing)));
    assert_eq!(world.asked, vec!["open", "gc 512"]);
    assert_eq!(world.options.unwrap().directory, Some("/store".to_string()));
}

#[test]
fn what_is_saved_is_uploaded_or_reported_at_once() {
    let saved = || Digest { fingerprint: "abc".to_string(), size_bytes: 3 };
    let saving = |has_remote| Saving { output_mode: given("simple"), has_remote };
    match ensure_uploaded_to_remote::<u32>(saving(true), saved()) {
        Next::Ask { query: Query::EnsureUploaded { digest }, .. } => {
            assert_eq!(digest.fingerprint, "abc");
            assert_eq!(digest.size_bytes, 3);
        }
        other => panic!("{:?}", other),
    }
    match ensure_uploaded_to_remote::<u32>(saving(false), saved()) {
        Next::Finish(outcome) => assert_eq!(printed(outcome), b"abc 3\n".to_vec()),
        other => panic!("{:?}", other),
    }
}
