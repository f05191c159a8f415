//! Assembler for a zip-based word-processing package that embeds one image
//! per page, referenced through both a vector and a raster representation.
//!
//! The library holds the package-assembly logic itself: identifier
//! allocation, pixel-to-unit conversion, the XML content and relationship
//! streams, placeholder splicing, and the page-extraction state machine.
//! Everything here works on plain integers and strings; the filesystem,
//! the vector renderer and the archive writer live outside, in the
//! program around the library, which hands in plain values and writes the
//! results out.

mod error;
mod units;
mod digits;
mod text;
mod paths;
mod splice;
mod content;
mod docx;
mod extract;
mod readback;

pub use error::Error;
pub use readback::{digit_val, seq_val, run_len, after_lit, after_num, read_lit_num, read_block, read_all_blocks, page_refs, lemma_read_all_blocks};
pub use extract::{PageFetchOutcome, PageFetchDecision, extraction_step, check_page_count};
pub use content::{PageBlock, RelationshipEntry, rel_xml, page_block_with_extents, page_block_xml, doc_xml, rels_xml, seg_head, seg_cy, seg_docpr, seg_name, seg_blip, seg_svgblip, seg_shape, seg_tail, rel_seg_id, rel_seg_target, rel_seg_close, lemma_page_block_left};
pub use docx::{Docx, spec_finalized_document, spec_finalized_relationships, content_ids, relationship_ids, assigned_ids, lemma_identifier_consistency, lemma_identifier_order, lemma_extents_agree, lemma_stream_round_trip};
pub use splice::{matches_before, occurrence_count, splice_spec, splice_once};
pub use text::{is_match_at, spec_replace, match_at, replace};
pub use paths::{spec_filename, get_filename, get_png_path, page_image_name};
pub use digits::{u64_to_string, spec_digits, digit_char, is_digit_char};
pub use units::{PixelSize, to_drawing_unit, to_page_unit, spec_to_drawing_unit, spec_to_page_unit};
