use docx_you_want::{
    check_page_count, extraction_step, Error, PageFetchDecision, PageFetchOutcome,
};

#[test]
fn test_extraction_step_extracted() {
    assert_eq!(
        extraction_step(1, PageFetchOutcome::Extracted),
        PageFetchDecision::Continue { next_page: 2 },
    );
    assert_eq!(
        extraction_step(7, PageFetchOutcome::Extracted),
        PageFetchDecision::Continue { next_page: 8 },
    );
}

#[test]
fn test_extraction_step_diagnostics() {
    // Diagnostics on the first candidate page mean a zero-page document.
    assert_eq!(
        extraction_step(1, PageFetchOutcome::Diagnostics),
        PageFetchDecision::Stop { page_count: 0 },
    );
    assert_eq!(
        extraction_step(4, PageFetchOutcome::Diagnostics),
        PageFetchDecision::Stop { page_count: 3 },
    );
}

#[test]
fn test_extraction_step_tool_missing() {
    assert_eq!(
        extraction_step(1, PageFetchOutcome::ToolMissing),
        PageFetchDecision::Abort { error: Error::InkscapeNotFound },
    );
}

#[test]
fn test_extraction_step_launch_failed() {
    assert_eq!(
        extraction_step(2, PageFetchOutcome::LaunchFailed),
        PageFetchDecision::Abort { error: Error::IoError },
    );
}

#[test]
fn test_check_page_count() {
    assert_eq!(check_page_count(0), Err(Error::PDFInvalid));
    assert_eq!(check_page_count(1), Ok(()));
    assert_eq!(check_page_count(25), Ok(()));
}
