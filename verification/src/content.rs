use vstd::prelude::*;
use crate::digits::spec_digits;
use crate::units::spec_to_drawing_unit;

verus! {

// The serialized forms of the two ordered, append-only streams: the main
// content stream (one page block per page) and the relationship manifest
// (one entry per registered asset). Each page block embeds one drawing
// that references its raster asset through the primary fill and its
// vector asset through a vendor-extension "SVG blip" layered on top, so
// that viewers that understand vector images render crisply while older
// viewers fall back to the raster image.

/// One page's content-stream entry: the two asset identifiers it
/// references and the page's intrinsic size in micropixels.
#[derive(Debug, Clone, Copy, PartialEq, Eq, Structural)]
pub struct PageBlock {
    /// Identifier of the page's vector asset.
    pub svg_id: u64,
    /// Identifier of the page's raster asset.
    pub png_id: u64,
    /// Intrinsic width in micropixels.
    pub width: u64,
    /// Intrinsic height in micropixels.
    pub height: u64,
}

/// One relationship-manifest record: an identifier bound to the stored
/// path of an asset (the media kind is always the image kind).
pub ghost struct RelationshipEntry {
    /// The asset's identifier.
    pub id: nat,
    /// The asset's path relative to the content file.
    pub target: Seq<char>,
}

// The fixed segments of a page block, in emission order. Between them
// stand, in this order: the inline extent width and height, the
// bookkeeping id and name (both the vector identifier), the raster
// reference id, the vector reference id, and the shape extent width and
// height (`seg_cy` separates each extent pair).

/// Block segment: paragraph and drawing opening, up to the inline extent
/// width.
pub open spec fn seg_head() -> Seq<char> {
    "<w:p><w:pPr><w:widowControl /><w:jc w:val=\"left\" /></w:pPr><w:r><w:rPr><w:noProof /></w:rPr><w:drawing><wp:inline distT=\"0\" distB=\"0\" distL=\"0\" distR=\"0\"><wp:extent cx=\""@
}

/// Block segment: between an extent's width and its height.
pub open spec fn seg_cy() -> Seq<char> {
    "\" cy=\""@
}

/// Block segment: effect extent and document-property id, up to the
/// bookkeeping id.
pub open spec fn seg_docpr() -> Seq<char> {
    "\" /><wp:effectExtent l=\"0\" t=\"0\" r=\"0\" b=\"0\" /><wp:docPr id=\""@
}

/// Block segment: between the bookkeeping id and the bookkeeping name.
pub open spec fn seg_name() -> Seq<char> {
    "\" name=\""@
}

/// Block segment: graphic frame and picture opening, up to the raster
/// (primary fill) reference id.
pub open spec fn seg_blip() -> Seq<char> {
    "\" /><wp:cNvGraphicFramePr><a:graphicFrameLocks xmlns:a=\"http://schemas.openxmlformats.org/drawingml/2006/main\" noChangeAspect=\"1\" /></wp:cNvGraphicFramePr><a:graphic xmlns:a=\"http://schemas.openxmlformats.org/drawingml/2006/main\"><a:graphicData uri=\"http://schemas.openxmlformats.org/drawingml/2006/picture\"><pic:pic xmlns:pic=\"http://schemas.openxmlformats.org/drawingml/2006/picture\"><pic:nvPicPr><pic:cNvPr id=\"1\" name=\"\" /><pic:cNvPicPr /></pic:nvPicPr><pic:blipFill><a:blip r:embed=\"rId"@
}

/// Block segment: the SVG blip extension, up to the vector reference id.
pub open spec fn seg_svgblip() -> Seq<char> {
    "\"><a:extLst><a:ext uri=\"{96DAC541-7B7A-43D3-8B79-37D633B846F1}\"><asvg:svgBlip xmlns:asvg=\"http://schemas.microsoft.com/office/drawing/2016/SVG/main\" r:embed=\"rId"@
}

/// Block segment: fill stretch and shape transform, up to the shape
/// extent width.
pub open spec fn seg_shape() -> Seq<char> {
    "\" /></a:ext></a:extLst></a:blip><a:stretch><a:fillRect /></a:stretch></pic:blipFill><pic:spPr><a:xfrm><a:off x=\"0\" y=\"0\" /><a:ext cx=\""@
}

/// Block segment: shape geometry and closing tags.
pub open spec fn seg_tail() -> Seq<char> {
    "\" /></a:xfrm><a:prstGeom prst=\"rect\"><a:avLst /></a:prstGeom></pic:spPr></pic:pic></a:graphicData></a:graphic></wp:inline></w:drawing></w:r></w:p>"@
}

/// Relationship segment: up to the reference id.
pub open spec fn rel_seg_id() -> Seq<char> {
    "<Relationship Id=\"rId"@
}

/// Relationship segment: the image media kind, up to the target path.
pub open spec fn rel_seg_target() -> Seq<char> {
    "\" Type=\"http://schemas.openxmlformats.org/officeDocument/2006/relationships/image\" Target=\""@
}

/// Relationship segment: closing.
pub open spec fn rel_seg_close() -> Seq<char> {
    "\" />"@
}

/// One serialized relationship declaration.
pub open spec fn rel_xml(id: nat, target: Seq<char>) -> Seq<char> {
    rel_seg_id() + spec_digits(id) + rel_seg_target() + target + rel_seg_close()
}

/// One serialized page block, with the inline-drawing extent and the
/// shape extent given separately: `icx`/`icy` fill the inline extent
/// element, `scx`/`scy` the shape extent element. The drawing references
/// `png_id` as its primary fill and `svg_id` through the SVG blip
/// extension; the bookkeeping id of the block is derived from `svg_id`.
pub open spec fn page_block_with_extents(
    svg_id: nat,
    png_id: nat,
    icx: nat,
    icy: nat,
    scx: nat,
    scy: nat,
) -> Seq<char> {
    seg_head() + (spec_digits(icx) + (seg_cy() + (spec_digits(icy) + (seg_docpr() + (spec_digits(
        svg_id,
    ) + (seg_name() + (spec_digits(svg_id) + (seg_blip() + (spec_digits(png_id) + (seg_svgblip()
        + (spec_digits(svg_id) + (seg_shape() + (spec_digits(scx) + (seg_cy() + (spec_digits(scy)
        + seg_tail())))))))))))))))
}

pub proof fn lemma_concat_assoc(a: Seq<char>, b: Seq<char>, c: Seq<char>)
    ensures
        (a + b) + c == a + (b + c),
{
    assert((a + b) + c =~= a + (b + c));
}

/// The block's segments and numbers concatenated left to right, in
/// emission order: how the builder appends them.
pub proof fn lemma_page_block_left(
    svg_id: nat,
    png_id: nat,
    icx: nat,
    icy: nat,
    scx: nat,
    scy: nat,
)
    ensures
        page_block_with_extents(svg_id, png_id, icx, icy, scx, scy) == seg_head() + spec_digits(
            icx,
        ) + seg_cy() + spec_digits(icy) + seg_docpr() + spec_digits(svg_id) + seg_name()
            + spec_digits(svg_id) + seg_blip() + spec_digits(png_id) + seg_svgblip() + spec_digits(
            svg_id,
        ) + seg_shape() + spec_digits(scx) + seg_cy() + spec_digits(scy) + seg_tail(),
{
    let a1 = seg_head();
    let a2 = spec_digits(icx);
    let a3 = seg_cy();
    let a4 = spec_digits(icy);
    let a5 = seg_docpr();
    let a6 = spec_digits(svg_id);
    let a7 = seg_name();
    let a8 = spec_digits(svg_id);
    let a9 = seg_blip();
    let a10 = spec_digits(png_id);
    let a11 = seg_svgblip();
    let a12 = spec_digits(svg_id);
    let a13 = seg_shape();
    let a14 = spec_digits(scx);
    let a15 = seg_cy();
    let a16 = spec_digits(scy);
    let a17 = seg_tail();
    let r17 = a17;
    let r16 = a16 + r17;
    let r15 = a15 + r16;
    let r14 = a14 + r15;
    let r13 = a13 + r14;
    let r12 = a12 + r13;
    let r11 = a11 + r12;
    let r10 = a10 + r11;
    let r9 = a9 + r10;
    let r8 = a8 + r9;
    let r7 = a7 + r8;
    let r6 = a6 + r7;
    let r5 = a5 + r6;
    let r4 = a4 + r5;
    let r3 = a3 + r4;
    let r2 = a2 + r3;
    let r1 = a1 + r2;
    assert(page_block_with_extents(svg_id, png_id, icx, icy, scx, scy) == r1);
    let l2 = a1 + a2;
    lemma_concat_assoc(a1, a2, r3);
    assert(l2 + r3 == r1);
    let l3 = l2 + a3;
    lemma_concat_assoc(l2, a3, r4);
    assert(l3 + r4 == r1);
    let l4 = l3 + a4;
    lemma_concat_assoc(l3, a4, r5);
    assert(l4 + r5 == r1);
    let l5 = l4 + a5;
    lemma_concat_assoc(l4, a5, r6);
    assert(l5 + r6 == r1);
    let l6 = l5 + a6;
    lemma_concat_assoc(l5, a6, r7);
    assert(l6 + r7 == r1);
    let l7 = l6 + a7;
    lemma_concat_assoc(l6, a7, r8);
    assert(l7 + r8 == r1);
    let l8 = l7 + a8;
    lemma_concat_assoc(l7, a8, r9);
    assert(l8 + r9 == r1);
    let l9 = l8 + a9;
    lemma_concat_assoc(l8, a9, r10);
    assert(l9 + r10 == r1);
    let l10 = l9 + a10;
    lemma_concat_assoc(l9, a10, r11);
    assert(l10 + r11 == r1);
    let l11 = l10 + a11;
    lemma_concat_assoc(l10, a11, r12);
    assert(l11 + r12 == r1);
    let l12 = l11 + a12;
    lemma_concat_assoc(l11, a12, r13);
    assert(l12 + r13 == r1);
    let l13 = l12 + a13;
    lemma_concat_assoc(l12, a13, r14);
    assert(l13 + r14 == r1);
    let l14 = l13 + a14;
    lemma_concat_assoc(l13, a14, r15);
    assert(l14 + r15 == r1);
    let l15 = l14 + a15;
    lemma_concat_assoc(l14, a15, r16);
    assert(l15 + r16 == r1);
    let l16 = l15 + a16;
    lemma_concat_assoc(l15, a16, r17);
    assert(l16 + r17 == r1);
    assert(l16 + a17 == r1);
}

/// The serialized page block of `b`: both the inline extent and the shape
/// extent carry the same pair of drawing-unit lengths, converted from the
/// page's intrinsic pixel size.
pub open spec fn page_block_xml(b: PageBlock) -> Seq<char> {
    page_block_with_extents(
        b.svg_id as nat,
        b.png_id as nat,
        spec_to_drawing_unit(b.width as nat),
        spec_to_drawing_unit(b.height as nat),
        spec_to_drawing_unit(b.width as nat),
        spec_to_drawing_unit(b.height as nat),
    )
}

/// The whole content stream: the page blocks serialized in registration
/// order.
pub open spec fn doc_xml(pages: Seq<PageBlock>) -> Seq<char>
    decreases pages.len(),
{
    if pages.len() == 0 {
        Seq::empty()
    } else {
        doc_xml(pages.drop_last()) + page_block_xml(pages.last())
    }
}

/// The whole relationship stream: the entries serialized in registration
/// order.
pub open spec fn rels_xml(rels: Seq<RelationshipEntry>) -> Seq<char>
    decreases rels.len(),
{
    if rels.len() == 0 {
        Seq::empty()
    } else {
        rels_xml(rels.drop_last()) + rel_xml(rels.last().id, rels.last().target)
    }
}

} // verus!
