//! What the pipeline hands to the document assembler: each chapter as a
//! small document of its own, and the name of the packaged file.

use vstd::prelude::*;
use crate::chapter::ChapterResult;

verus! {

/// What stands before a chapter's body in its document.
pub open spec fn shell_head() -> Seq<char> {
    "<?xml version=\"1.0\" encoding=\"UTF-8\"?>\n        <html xmlns=\"http://www.w3.org/1999/xhtml\" xmlns:epub=\"http://www.idpf.org/2007/ops\">\n        <body>\n        "@
}

/// What stands behind a chapter's body in its document.
pub open spec fn shell_tail() -> Seq<char> {
    "\n        </body>\n        </html>"@
}

/// The extension of the packaged file.
pub open spec fn book_extension() -> Seq<char> {
    ".epub"@
}

/// Wraps a chapter's body markup in the document shell.
pub fn chapter_document(body: &str) -> (doc: String)
    ensures
        doc@ == shell_head() + body@ + shell_tail(),
{
    let mut doc = String::from_str(
        "<?xml version=\"1.0\" encoding=\"UTF-8\"?>\n        <html xmlns=\"http://www.w3.org/1999/xhtml\" xmlns:epub=\"http://www.idpf.org/2007/ops\">\n        <body>\n        ",
    );
    doc.append(body);
    doc.append("\n        </body>\n        </html>");
    doc
}

/// The name of the packaged file: the work's title and the extension.
pub fn book_file_name(title: &str) -> (name: String)
    ensures
        name@ == title@ + book_extension(),
{
    let mut name = String::from_str(title);
    name.append(".epub");
    name
}

/// Model of one request to the assembler.
pub struct ChapterRequestModel {
    pub index: nat,
    pub title: Seq<char>,
    pub document: Seq<char>,
}

/// One chapter as the assembler takes it: its place in the work, its
/// title and its document.
#[derive(Debug, Clone)]
pub struct ChapterRequest {
    pub index: usize,
    pub title: String,
    pub document: String,
}

impl View for ChapterRequest {
    type V = ChapterRequestModel;

    open spec fn view(&self) -> ChapterRequestModel {
        ChapterRequestModel {
            index: self.index as nat,
            title: self.title@,
            document: self.document@,
        }
    }
}

/// Makes the request for the chapter at place `index` of the work.
pub fn chapter_request(index: usize, chapter: ChapterResult) -> (r: ChapterRequest)
    ensures
        r@ == (ChapterRequestModel {
            index: index as nat,
            title: chapter@.title,
            document: shell_head() + chapter@.body + shell_tail(),
        }),
{
    let document = chapter_document(chapter.body.as_str());
    ChapterRequest { index, title: chapter.title, document }
}

} // verus!
