//! What the tool prints when it succeeds.

use vstd::prelude::*;
use vstd::utf8::encode_utf8;

use crate::digest::Digest;
use crate::digest::DigestView;
use crate::text;
use crate::text::decimal;

verus! {

/// What was saved, and what came of uploading it where it was uploaded.
#[derive(Debug)]
pub struct SummaryWithDigest<S> {
    pub digest: Digest,
    pub summary: Option<S>,
}

/// What a [`SummaryWithDigest`] holds.
pub struct SummaryWithDigestView<S> {
    pub digest: DigestView,
    pub summary: Option<S>,
}

impl<S> View for SummaryWithDigest<S> {
    type V = SummaryWithDigestView<S>;

    open spec fn view(&self) -> SummaryWithDigestView<S> {
        SummaryWithDigestView { digest: self.digest@, summary: self.summary }
    }
}

/// What to print.
#[derive(Debug)]
pub enum Output<S> {
    Nothing,
    /// These bytes, to the standard output.
    Stdout(Vec<u8>),
    /// The report as indented JSON and a line break, to the standard output.
    Json(SummaryWithDigest<S>),
    /// This text, to the standard error.
    Stderr(String),
}

/// What an [`Output`] holds.
pub enum OutputView<S> {
    Nothing,
    Stdout(Seq<u8>),
    Json(SummaryWithDigestView<S>),
    Stderr(Seq<char>),
}

impl<S> View for Output<S> {
    type V = OutputView<S>;

    open spec fn view(&self) -> OutputView<S> {
        match *self {
            Output::Nothing => OutputView::Nothing,
            Output::Stdout(bytes) => OutputView::Stdout(bytes@),
            Output::Json(report) => OutputView::Json(report@),
            Output::Stderr(text) => OutputView::Stderr(text@),
        }
    }
}

/// The line that gives a digest: its fingerprint and its size, separated by a
/// space.
pub open spec fn digest_line(digest: DigestView) -> Seq<char> {
    digest.fingerprint + " "@ + decimal(digest.size_bytes as nat) + "\n"@
}

/// Whether a text is a word: not empty, and without spaces and line breaks.
pub open spec fn is_word(text: Seq<char>) -> bool {
    &&& text.len() > 0
    &&& !text.contains(' ')
    &&& !text.contains('\n')
}

/// Whether these bytes are one line of these two words, with one space between
/// them.
pub open spec fn is_line_of(printed: Seq<u8>, first: Seq<char>, second: Seq<char>) -> bool {
    &&& is_word(first)
    &&& is_word(second)
    &&& printed == encode_utf8(first + " "@ + second + "\n"@)
}

/// How a report is printed in this output mode.
pub open spec fn summary_output<S>(
    mode: Option<Seq<char>>,
    report: SummaryWithDigestView<S>,
) -> OutputView<S> {
    if mode == Some("json"@) {
        OutputView::Json(report)
    } else if mode == Some("simple"@) {
        OutputView::Stdout(encode_utf8(digest_line(report.digest)))
    } else {
        OutputView::Stderr("Unknown summary format.\n"@)
    }
}

/// How a report is printed in this output mode.
pub fn print_upload_summary<S>(mode: Option<&str>, report: SummaryWithDigest<S>) -> (r: Output<S>)
    ensures
        r@ == summary_output(
            match mode {
                Some(text) => Some(text@),
                None => None,
            },
            report@,
        ),
{
    if let Some(text) = mode {
        if text::same(text, "json") {
            return Output::Json(report);
        }
        if text::same(text, "simple") {
            let size = text::decimal_text(report.digest.size_bytes);
            let line = text::join4(
                report.digest.fingerprint.as_str(),
                " ",
                size.as_str(),
                "\n",
            );
            return Output::Stdout(line.as_str().as_bytes_vec());
        }
    }
    Output::Stderr("Unknown summary format.\n".to_owned())
}

} // verus!
