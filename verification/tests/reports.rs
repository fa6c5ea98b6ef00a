use fs_util::digest::Digest;
use fs_util::execution::Defect;
use fs_util::exit::ExitCode;
use fs_util::exit::ExitError;
use fs_util::report::print_upload_summary;
use fs_util::report::Output;
use fs_util::report::SummaryWithDigest;
use fs_util::store::DEFAULT_CHUNK_BYTES;
use fs_util::store::REMOTE_THREADS;
use fs_util::store::REMOTE_TIMEOUT_SECONDS;

fn report(summary: Option<u32>) -> SummaryWithDigest<u32> {
    SummaryWithDigest {
        digest: Digest { fingerprint: "abc123".to_string(), size_bytes: 80 },
        summary,
    }
}

#[test]
fn simple_report_is_fingerprint_and_size() {
    match print_upload_summary(Some("simple"), report(Some(7))) {
        Output::Stdout(bytes) => assert_eq!(bytes, b"abc123 80\n".to_vec()),
        other => panic!("{:?}", other),
    }
}

#[test]
fn simple_report_does_not_show_the_upload() {
    for summary in [None, Some(0), Some(7)] {
        match print_upload_summary(Some("simple"), report(summary)) {
            Output::Stdout(bytes) => {
                let line = String::from_utf8(bytes).unwrap();
                assert_eq!(line, "abc123 80\n");
                assert_eq!(line.matches(' ').count(), 1);
                assert_eq!(line.lines().count(), 1);
            }
            other => panic!("{:?}", other),
        }
    }
}

#[test]
fn json_report_is_the_report() {
    match print_upload_summary(Some("json"), report(Some(7))) {
        Output::Json(r) => {
            assert_eq!(r.digest.fingerprint, "abc123");
            assert_eq!(r.digest.size_bytes, 80);
            assert_eq!(r.summary, Some(7));
        }
        other => panic!("{:?}", other),
    }
}

#[test]
fn unknown_modes_are_complained_about() {
    for mode in [None, Some(""), Some("xml"), Some("JSON")] {
        match print_upload_summary(mode, report(None)) {
            Output::Stderr(text) => assert_eq!(text, "Unknown summary format.\n"),
            other => panic!("{:?}", other),
        }
    }
}

#[test]
fn statuses() {
    assert_eq!(ExitCode::UnknownError.status(), 1);
    assert_eq!(ExitCode::NotFound.status(), 2);
}

#[test]
fn a_message_alone_is_an_unknown_error() {
    let error = ExitError::from("broken".to_string());
    assert_eq!(error.0, "broken");
    assert_eq!(error.1, ExitCode::UnknownError);
}

#[test]
fn defect_messages() {
    assert_eq!(Defect::BadChunkBytes.message(), "Bad chunk-bytes flag");
    assert_eq!(Defect::BadSizeBytes.message(), "size_bytes must be a non-negative number");
    assert_eq!(
        Defect::BadTargetSize.message(),
        "--target-size-bytes must be passed as a non-negative integer"
    );
    assert_eq!(Defect::NotUnicode.message(), "unexpected invalid UTF-8 code point");
    assert_eq!(Defect::Unimplemented.message(), "not implemented");
    assert_eq!(Defect::MissingArgument.message(), "required argument is missing");
    assert_eq!(Defect::Misanswered.message(), "the reply does not answer the query");
}

#[test]
fn remote_constants() {
    assert_eq!(DEFAULT_CHUNK_BYTES, 3145728);
    assert_eq!(REMOTE_THREADS, 1);
    assert_eq!(REMOTE_TIMEOUT_SECONDS, 1800);
}

#[test]
fn a_copied_digest_is_the_same() {
    let digest = Digest { fingerprint: "abc".to_string(), size_bytes: 3 };
    let copy = digest.clone();
    assert_eq!(copy.fingerprint, digest.fingerprint);
    assert_eq!(copy.size_bytes, digest.size_bytes);
}
