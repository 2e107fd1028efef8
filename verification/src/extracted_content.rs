//! The canonical record of what was extracted from one page.

use crate::text::views;
use vstd::prelude::*;

verus! {

/// What the extractor read from one page.
#[derive(Debug, Clone)]
pub struct ExtractedContent {
    /// The text of the first title element, empty if there is none.
    pub title: String,
    /// The text of each top-level block of the body, in the order in which
    /// the parser yields the blocks.
    pub content: Vec<String>,
    /// The text of each heading, in the order in which the parser yields
    /// the headings.
    pub headings: Vec<String>,
    /// The text of each code block, in the order in which the parser yields
    /// the blocks.
    pub code_blocks: Vec<String>,
    /// The text of each API item, in the order in which the parser yields
    /// the items.
    pub api_items: Vec<String>,
}

/// The mathematical content of an [`ExtractedContent`].
pub struct ExtractedContentView {
    pub title: Seq<char>,
    pub content: Seq<Seq<char>>,
    pub headings: Seq<Seq<char>>,
    pub code_blocks: Seq<Seq<char>>,
    pub api_items: Seq<Seq<char>>,
}

impl View for ExtractedContent {
    type V = ExtractedContentView;

    open spec fn view(&self) -> ExtractedContentView {
        ExtractedContentView {
            title: self.title@,
            content: views(self.content@),
            headings: views(self.headings@),
            code_blocks: views(self.code_blocks@),
            api_items: views(self.api_items@),
        }
    }
}

} // verus!
