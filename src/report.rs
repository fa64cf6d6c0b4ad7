//! The text shown for a candidate and for the run's own errors.
use vstd::prelude::*;
use colorized::{Color, Colors};
use size::{Base, Size};
use crate::scan::StartError;

verus! {

/// `text` in the terminal's yellow foreground: the colour's escape code,
/// the text, then the reset code.
pub open spec fn yellow(text: Seq<char>) -> Seq<char> {
    "\x1b[33m"@ + text + "\x1b[0m"@
}

/// The marker in front of each line about a candidate.
pub open spec fn marker() -> Seq<char> {
    yellow("λ"@)
}

/// The line that names a candidate's path.
pub open spec fn path_line_text(path: Seq<char>) -> Seq<char> {
    marker() + " path: "@ + path
}

/// The line that gives a candidate's size, already written out as text.
pub open spec fn size_line_text(size_text: Seq<char>) -> Seq<char> {
    marker() + " size: "@ + size_text
}

/// The size of `bytes` bytes written in base-10 units with two decimals,
/// such as `52.43 MB`.
pub uninterp spec fn decimal_size_text(bytes: u64) -> Seq<char>;

/// Relies on colorized's `Color::color` for `&str`, with `Colors::YellowFg`:
/// it returns `"\x1b[33m"`, the text, then `"\x1b[0m"`.
#[verifier::external_body]
fn paint_yellow(text: &str) -> (r: String)
    ensures
        r@ == yellow(text@),
{
    text.color(Colors::YellowFg)
}

/// Relies on size's `Size::from_bytes` and `Size::format` with
/// `Base::Base10`, turned into a `String`: the text depends on the number
/// of bytes alone.
#[verifier::external_body]
fn format_decimal_size(bytes: u64) -> (r: String)
    ensures
        r@ == decimal_size_text(bytes),
{
    Size::from_bytes(bytes).format().with_base(Base::Base10).to_string()
}

/// The line that names a candidate's path.
pub fn path_line(path: &str) -> (r: String)
    ensures
        r@ == path_line_text(path@),
{
    let mark = paint_yellow("λ");
    mark.concat(" path: ").concat(path)
}

/// The size line for a size already written out as `size_text`.
pub fn size_line_from(size_text: &str) -> (r: String)
    ensures
        r@ == size_line_text(size_text@),
{
    let mark = paint_yellow("λ");
    mark.concat(" size: ").concat(size_text)
}

/// The line that gives a candidate's size of `bytes` bytes.
pub fn size_line(bytes: u64) -> (r: String)
    ensures
        r@ == size_line_text(decimal_size_text(bytes)),
{
    let text = format_decimal_size(bytes);
    size_line_from(text.as_str())
}

/// The question asked about each candidate; its default answer is no.
pub fn delete_question() -> (r: String)
    ensures
        r@ == "Do you wanna delete this file?"@,
{
    String::from_str("Do you wanna delete this file?")
}

/// The message shown when a file could not be deleted.
pub fn delete_failure_message() -> (r: String)
    ensures
        r@ == "Failed deleting the file."@,
{
    String::from_str("Failed deleting the file.")
}

impl StartError {
    /// The message shown when a run does not start.
    pub fn message(&self) -> (r: String)
        ensures
            r@ == (match self {
                StartError::NotADirectory => "The given path is not a directory."@,
            }),
    {
        match self {
            StartError::NotADirectory => String::from_str("The given path is not a directory."),
        }
    }
}

} // verus!
