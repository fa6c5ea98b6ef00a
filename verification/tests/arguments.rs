use clap::App;
use clap::Arg;
use clap::ArgMatches;
use clap::SubCommand;
use fs_util::args::read_request;
use fs_util::args::Argument;
use fs_util::args::Command;
use fs_util::args::DigestArguments;
use fs_util::args::Request;

fn option(name: &'static str) -> Arg<'static, 'static> {
    Arg::with_name(name).long(name).takes_value(true)
}

fn digest(app: App<'static, 'static>) -> App<'static, 'static> {
    app.arg(Arg::with_name("fingerprint")).arg(Arg::with_name("size_bytes"))
}

fn tool() -> App<'static, 'static> {
    App::new("fs_util")
        .subcommand(
            SubCommand::with_name("file")
                .subcommand(digest(SubCommand::with_name("cat")))
                .subcommand(
                    SubCommand::with_name("save")
                        .arg(Arg::with_name("path"))
                        .arg(option("output-mode").default_value("simple")),
                )
                .subcommand(SubCommand::with_name("other")),
        )
        .subcommand(
            SubCommand::with_name("directory")
                .subcommand(
                    digest(SubCommand::with_name("materialize")).arg(Arg::with_name("destination")),
                )
                .subcommand(
                    SubCommand::with_name("save")
                        .arg(Arg::with_name("globs").multiple(true))
                        .arg(option("root"))
                        .arg(option("output-mode").default_value("simple")),
                )
                .subcommand(
                    digest(SubCommand::with_name("cat-proto"))
                        .arg(option("output-format").default_value("binary")),
                ),
        )
        .subcommand(digest(SubCommand::with_name("cat")))
        .subcommand(SubCommand::with_name("gc").arg(option("target-size-bytes")))
        .subcommand(SubCommand::with_name("other"))
        .arg(option("local-store-path"))
        .arg(option("server-address"))
        .arg(option("root-ca-cert-file"))
        .arg(option("oauth-bearer-token-file"))
        .arg(option("remote-instance-name"))
        .arg(option("chunk-bytes").default_value("3145728"))
}

fn matches_of(line: &[&str]) -> ArgMatches<'static> {
    let mut words = vec!["fs_util"];
    words.extend_from_slice(line);
    tool().get_matches_from(words)
}

fn request(line: &[&str]) -> Request {
    read_request(&matches_of(line))
}

fn text(argument: &Argument) -> &str {
    match argument {
        Argument::Text(text) => text,
        other => panic!("{:?}", other),
    }
}

fn absent(argument: &Argument) -> bool {
    matches!(argument, Argument::Absent)
}

fn addresses(digest: &DigestArguments, fingerprint: &str, size_bytes: &str) {
    assert_eq!(text(&digest.fingerprint), fingerprint);
    assert_eq!(text(&digest.size_bytes), size_bytes);
}

#[test]
fn global_arguments_are_read() {
    let r = request(&[
        "--local-store-path",
        "/store",
        "--server-address",
        "host:80",
        "--root-ca-cert-file",
        "/ca",
        "--oauth-bearer-token-file",
        "/token",
        "--remote-instance-name",
        "main",
        "--chunk-bytes",
        "7",
        "cat",
        "abc",
        "3",
    ]);
    assert_eq!(text(&r.local_store_path), "/store");
    assert_eq!(text(&r.server_address), "host:80");
    assert_eq!(text(&r.root_ca_cert_file), "/ca");
    assert_eq!(text(&r.oauth_bearer_token_file), "/token");
    assert_eq!(text(&r.remote_instance_name), "main");
    assert_eq!(text(&r.chunk_bytes), "7");
    match r.command {
        Command::Cat { digest } => addresses(&digest, "abc", "3"),
        other => panic!("{:?}", other),
    }
}

#[test]
fn absent_arguments_are_absent_and_defaults_are_given() {
    let r = request(&["gc"]);
    assert!(absent(&r.local_store_path));
    assert!(absent(&r.server_address));
    assert!(absent(&r.root_ca_cert_file));
    assert!(absent(&r.oauth_bearer_token_file));
    assert!(absent(&r.remote_instance_name));
    assert_eq!(text(&r.chunk_bytes), "3145728");
    match r.command {
        Command::GarbageCollect { target_size_bytes } => assert!(absent(&target_size_bytes)),
        other => panic!("{:?}", other),
    }
}

#[test]
fn file_commands_are_read() {
    match request(&["file", "cat", "abc", "3"]).command {
        Command::FileCat { digest } => addresses(&digest, "abc", "3"),
        other => panic!("{:?}", other),
    }
    match request(&["file", "save", "a/b", "--output-mode", "json"]).command {
        Command::FileSave { path, output_mode } => {
            assert_eq!(text(&path), "a/b");
            assert_eq!(text(&output_mode), "json");
        }
        other => panic!("{:?}", other),
    }
}

#[test]
fn directory_commands_are_read() {
    match request(&["directory", "materialize", "abc", "3", "/there"]).command {
        Command::DirectoryMaterialize { destination, digest } => {
            assert_eq!(text(&destination), "/there");
            addresses(&digest, "abc", "3");
        }
        other => panic!("{:?}", other),
    }
    match request(&["directory", "cat-proto", "abc", "3"]).command {
        Command::DirectoryCatProto { digest, output_format } => {
            assert_eq!(text(&output_format), "binary");
            addresses(&digest, "abc", "3");
        }
        other => panic!("{:?}", other),
    }
}

#[test]
fn every_glob_is_read_in_order() {
    match request(&["directory", "save", "--root", "/src", "b*", "a*", "c"]).command {
        Command::DirectorySave { root, globs, output_mode } => {
            assert_eq!(text(&root), "/src");
            assert_eq!(text(&output_mode), "simple");
            assert_eq!(
                globs,
                Some(vec![
                    Some("b*".to_string()),
                    Some("a*".to_string()),
                    Some("c".to_string())
                ])
            );
        }
        other => panic!("{:?}", other),
    }
    match request(&["directory", "save", "--root", "/src"]).command {
        Command::DirectorySave { globs, .. } => assert_eq!(globs, None),
        other => panic!("{:?}", other),
    }
}

#[test]
fn other_subcommands_are_unimplemented() {
    for line in [&[][..], &["file"][..], &["directory"][..], &["other"][..], &["file", "other"][..]] {
        assert!(matches!(request(line).command, Command::Unimplemented), "{:?}", line);
    }
}
