use vstd::prelude::*;

verus! {

/// What can go wrong while decoding a page.
#[derive(Debug, Clone, Copy, PartialEq, Eq, Structural)]
pub enum ScrapeError {
    /// The page could not be fetched; raised by whoever fetches it.
    FetchFailure,
    /// A document or a fragment could not be parsed. The HTML parser used
    /// here recovers from every error in its input, so the decoders of this
    /// crate do not raise it.
    MalformedMarkup,
    /// A selector sequence is not valid CSS selector syntax.
    InvalidSelector,
    /// A matched element lacks the attribute that was asked for.
    MissingAttribute,
    /// The region name does not appear in the page's header row.
    RegionNotFound,
    /// A table or a cell that the layout promises is not there.
    StructuralMismatch,
}

} // verus!
