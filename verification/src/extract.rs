use vstd::prelude::*;
use crate::error::Error;

verus! {

// Pages are pulled out of the source document by an external
// page-extraction tool, invoked once per candidate page number starting
// at 1. The invocations and their outcomes live outside the library; the
// decision what each outcome means is made here. A non-empty diagnostic
// stream is read as "no such page", which deliberately (and fragilely)
// conflates genuine tool errors with running past the last page; the
// tool being absent is a distinct, reported failure.

/// What one invocation of the external page-extraction tool yielded.
#[derive(Debug, Clone, Copy, PartialEq, Eq, Structural)]
pub enum PageFetchOutcome {
    /// The tool ran and its diagnostic stream stayed empty: the page was
    /// extracted.
    Extracted,
    /// The tool ran but wrote diagnostics: there is no such page.
    Diagnostics,
    /// The tool could not be launched because it is not present.
    ToolMissing,
    /// The tool could not be launched for some other reason.
    LaunchFailed,
}

/// What to do after one invocation of the page-extraction tool.
#[derive(Debug, Clone, Copy, PartialEq, Eq, Structural)]
pub enum PageFetchDecision {
    /// Keep the extracted page and ask for the next page number.
    Continue { next_page: u64 },
    /// Extraction is over: the document has this many pages, and the
    /// file written by the failed invocation is to be discarded.
    Stop { page_count: u64 },
    /// Abort the whole run with this failure kind.
    Abort { error: Error },
}

/// Decides how page extraction goes on after the tool's invocation for
/// page number `page` (numbered from 1): an extracted page is kept and
/// the next number is tried; diagnostics mean the document has `page - 1`
/// pages; a missing tool and any other launch failure abort the run with
/// their own failure kinds.
pub fn extraction_step(page: u64, outcome: PageFetchOutcome) -> (d: PageFetchDecision)
    requires
        1 <= page < u64::MAX,
    ensures
        outcome == PageFetchOutcome::Extracted ==> d == (PageFetchDecision::Continue {
            next_page: (page + 1) as u64,
        }),
        outcome == PageFetchOutcome::Diagnostics ==> d == (PageFetchDecision::Stop {
            page_count: (page - 1) as u64,
        }),
        outcome == PageFetchOutcome::ToolMissing ==> d == (PageFetchDecision::Abort {
            error: Error::InkscapeNotFound,
        }),
        outcome == PageFetchOutcome::LaunchFailed ==> d == (PageFetchDecision::Abort {
            error: Error::IoError,
        }),
{
    match outcome {
        PageFetchOutcome::Extracted => PageFetchDecision::Continue { next_page: page + 1 },
        PageFetchOutcome::Diagnostics => PageFetchDecision::Stop { page_count: page - 1 },
        PageFetchOutcome::ToolMissing => PageFetchDecision::Abort {
            error: Error::InkscapeNotFound,
        },
        PageFetchOutcome::LaunchFailed => PageFetchDecision::Abort { error: Error::IoError },
    }
}

/// Checks the number of pages that extraction yielded: a source from
/// which zero usable pages were extracted is invalid; any other count is
/// accepted.
pub fn check_page_count(count: u64) -> (r: Result<(), Error>)
    ensures
        count == 0 ==> r == Err::<(), Error>(Error::PDFInvalid),
        count != 0 ==> r == Ok::<(), Error>(()),
{
    if count == 0 {
        Err(Error::PDFInvalid)
    } else {
        Ok(())
    }
}

} // verus!
