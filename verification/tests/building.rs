use docx_you_want::{Docx, PixelSize};

fn expected_block(cx: &str, cy: &str, svg_id: &str, png_id: &str) -> String {
    let mut s = String::new();
    s.push_str("<w:p><w:pPr><w:widowControl /><w:jc w:val=\"left\" /></w:pPr><w:r><w:rPr><w:noProof /></w:rPr><w:drawing><wp:inline distT=\"0\" distB=\"0\" distL=\"0\" distR=\"0\"><wp:extent cx=\"");
    s.push_str(cx);
    s.push_str("\" cy=\"");
    s.push_str(cy);
    s.push_str("\" /><wp:effectExtent l=\"0\" t=\"0\" r=\"0\" b=\"0\" /><wp:docPr id=\"");
    s.push_str(svg_id);
    s.push_str("\" name=\"");
    s.push_str(svg_id);
    s.push_str("\" /><wp:cNvGraphicFramePr><a:graphicFrameLocks xmlns:a=\"http://schemas.openxmlformats.org/drawingml/2006/main\" noChangeAspect=\"1\" /></wp:cNvGraphicFramePr><a:graphic xmlns:a=\"http://schemas.openxmlformats.org/drawingml/2006/main\"><a:graphicData uri=\"http://schemas.openxmlformats.org/drawingml/2006/picture\"><pic:pic xmlns:pic=\"http://schemas.openxmlformats.org/drawingml/2006/picture\"><pic:nvPicPr><pic:cNvPr id=\"1\" name=\"\" /><pic:cNvPicPr /></pic:nvPicPr><pic:blipFill><a:blip r:embed=\"rId");
    s.push_str(png_id);
    s.push_str("\"><a:extLst><a:ext uri=\"{96DAC541-7B7A-43D3-8B79-37D633B846F1}\"><asvg:svgBlip xmlns:asvg=\"http://schemas.microsoft.com/office/drawing/2016/SVG/main\" r:embed=\"rId");
    s.push_str(svg_id);
    s.push_str("\" /></a:ext></a:extLst></a:blip><a:stretch><a:fillRect /></a:stretch></pic:blipFill><pic:spPr><a:xfrm><a:off x=\"0\" y=\"0\" /><a:ext cx=\"");
    s.push_str(cx);
    s.push_str("\" cy=\"");
    s.push_str(cy);
    s.push_str("\" /></a:xfrm><a:prstGeom prst=\"rect\"><a:avLst /></a:prstGeom></pic:spPr></pic:pic></a:graphicData></a:graphic></wp:inline></w:drawing></w:r></w:p>");
    s
}

fn expected_rel(id: &str, target: &str) -> String {
    let mut s = String::new();
    s.push_str("<Relationship Id=\"rId");
    s.push_str(id);
    s.push_str("\" Type=\"http://schemas.openxmlformats.org/officeDocument/2006/relationships/image\" Target=\"");
    s.push_str(target);
    s.push_str("\" />");
    s
}

#[test]
fn test_add_svg() {
    let mut docx = Docx::new();
    let size = PixelSize { width: 720_000_000, height: 1_018_000_000 };
    docx.add_to_doc("media/2.svg", "media/2.png", &size);
    assert_eq!(docx.content_xml().as_str(), expected_block("6858000", "9696450", "0", "1"));
    let rels = format!("{}{}", expected_rel("0", "media/2.svg"), expected_rel("1", "media/2.png"));
    assert_eq!(docx.relationships_xml().as_str(), rels);
}

#[test]
fn test_extents_used_twice() {
    // The inline extent and the shape extent carry identical values.
    let mut docx = Docx::new();
    let size = PixelSize { width: 720_000_000, height: 1_018_000_000 };
    docx.add_to_doc("1.svg", "1.png", &size);
    let doc = docx.content_xml().as_str();
    assert_eq!(doc.matches("cx=\"6858000\" cy=\"9696450\"").count(), 2);
}

#[test]
fn test_identifiers_two_per_page() {
    let mut docx = Docx::new();
    let a = PixelSize { width: 100_000_000, height: 200_000_000 };
    let b = PixelSize { width: 300_000_000, height: 400_000_000 };
    docx.add_to_doc("1.svg", "1.png", &a);
    docx.add_to_doc("2.svg", "2.png", &b);
    let rels = docx.relationships_xml().as_str();
    for id in ["rId0", "rId1", "rId2", "rId3"] {
        assert_eq!(rels.matches(&format!("Id=\"{}\"", id)).count(), 1);
    }
    assert_eq!(rels.matches("Id=\"rId4\"").count(), 0);
    let doc = docx.content_xml().as_str();
    for id in ["rId0", "rId1", "rId2", "rId3"] {
        assert_eq!(doc.matches(&format!("r:embed=\"{}\"", id)).count(), 1);
    }
}

#[test]
fn test_default_page_size() {
    let docx = Docx::new();
    let size = docx.page_size();
    assert_eq!(size.width, 793_707_000);
    assert_eq!(size.height, 1_122_520_000);
}

#[test]
fn test_finalized_document() {
    let mut docx = Docx::new();
    let size = PixelSize { width: 720_000_000, height: 1_018_000_000 };
    docx.add_to_doc("1.svg", "1.png", &size);
    docx.set_size(size);
    let skeleton = "<w:document><w:body>!INSERT_HERE!<w:sectPr><w:pgSz w:w=\"!WIDTH!\" w:h=\"!HEIGHT!\" /></w:sectPr></w:body></w:document>";
    let out = docx.finalized_document(skeleton).unwrap();
    assert!(out.contains("w:w=\"10800\""));
    assert!(out.contains("w:h=\"15270\""));
    assert!(out.contains("<wp:extent cx=\"6858000\" cy=\"9696450\" />"));
    assert!(!out.contains("!INSERT_HERE!"));
    assert!(!out.contains("!WIDTH!"));
    assert!(!out.contains("!HEIGHT!"));
}

#[test]
fn test_finalized_document_corrupt_skeleton() {
    let docx = Docx::new();
    // No placeholder at all, and a doubled placeholder: both are fatal.
    assert!(docx.finalized_document("<w:document />").is_err());
    assert!(
        docx.finalized_document("!INSERT_HERE!!INSERT_HERE!<x w=\"!WIDTH!\" h=\"!HEIGHT!\" />")
            .is_err()
    );
}

#[test]
fn test_finalized_relationships() {
    let mut docx = Docx::new();
    let size = PixelSize { width: 96_000_000, height: 96_000_000 };
    docx.add_to_doc("p/1.svg", "p/1.png", &size);
    let skeleton = "<Relationships>!INSERT_HERE!</Relationships>";
    let out = docx.finalized_relationships(skeleton).unwrap();
    let expected = format!(
        "<Relationships>{}{}</Relationships>",
        expected_rel("0", "media/1.svg"),
        expected_rel("1", "media/1.png"),
    );
    assert_eq!(out, expected);
}
