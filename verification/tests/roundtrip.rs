use docx_you_want::{Docx, PixelSize};
use std::io::{Cursor, Read, Write};

// The reference ids named by a content stream's blip elements, in the
// order they appear. Each page block names its raster id first (the
// primary fill), then its vector id (the SVG blip laid over it).
fn embedded_ids(doc: &str) -> Vec<u64> {
    let mut ids = Vec::new();
    let marker = "r:embed=\"rId";
    let mut rest = doc;
    while let Some(pos) = rest.find(marker) {
        let after = &rest[pos + marker.len()..];
        let digits: String = after.chars().take_while(|c| c.is_ascii_digit()).collect();
        ids.push(digits.parse().unwrap());
        rest = &after[digits.len()..];
    }
    ids
}

fn relationship_ids(rels: &str) -> Vec<u64> {
    let mut ids = Vec::new();
    let marker = "Id=\"rId";
    let mut rest = rels;
    while let Some(pos) = rest.find(marker) {
        let after = &rest[pos + marker.len()..];
        let digits: String = after.chars().take_while(|c| c.is_ascii_digit()).collect();
        ids.push(digits.parse().unwrap());
        rest = &after[digits.len()..];
    }
    ids
}

#[test]
fn test_two_page_package_round_trip() {
    // Build a two-page package: page geometry comes from page 1.
    let mut docx = Docx::new();
    let first = PixelSize { width: 720_000_000, height: 1_018_000_000 };
    let second = PixelSize { width: 500_000_000, height: 600_000_000 };
    docx.set_size(first);
    docx.add_to_doc("m/1.svg", "m/1.png", &first);
    docx.add_to_doc("m/2.svg", "m/2.png", &second);

    let doc_skeleton = "<w:document><w:body>!INSERT_HERE!<w:sectPr><w:pgSz w:w=\"!WIDTH!\" w:h=\"!HEIGHT!\" /></w:sectPr></w:body></w:document>";
    let rels_skeleton = "<Relationships>!INSERT_HERE!</Relationships>";
    let final_doc = docx.finalized_document(doc_skeleton).unwrap();
    let final_rels = docx.finalized_relationships(rels_skeleton).unwrap();

    // Write the archive in memory, mirroring the workspace layout.
    let mut writer = zip::ZipWriter::new(Cursor::new(Vec::new()));
    let options = zip::write::SimpleFileOptions::default();
    writer.start_file("word/document.xml", options).unwrap();
    writer.write_all(final_doc.as_bytes()).unwrap();
    writer.start_file("word/_rels/document.xml.rels", options).unwrap();
    writer.write_all(final_rels.as_bytes()).unwrap();
    let cursor = writer.finish().unwrap();

    // Read both streams back out of the archive.
    let mut archive = zip::ZipArchive::new(cursor).unwrap();
    let mut doc_back = String::new();
    archive.by_name("word/document.xml").unwrap().read_to_string(&mut doc_back).unwrap();
    let mut rels_back = String::new();
    archive
        .by_name("word/_rels/document.xml.rels")
        .unwrap()
        .read_to_string(&mut rels_back)
        .unwrap();
    assert_eq!(doc_back, final_doc);

    // Exactly two page blocks, in original order.
    assert_eq!(doc_back.matches("<w:p>").count(), 2);
    let embedded = embedded_ids(&doc_back);
    assert_eq!(embedded, vec![1, 0, 3, 2]);

    // Exactly four relationship entries, ids 0 through 3, and every
    // identifier referenced by a block is present in the relationship
    // stream.
    let rel_ids = relationship_ids(&rels_back);
    assert_eq!(rel_ids, vec![0, 1, 2, 3]);
    for id in embedded {
        assert!(rel_ids.contains(&id));
    }

    // The page geometry is page 1's intrinsic size, in page units.
    assert!(doc_back.contains("w:w=\"10800\""));
    assert!(doc_back.contains("w:h=\"15270\""));
}
