use vstd::prelude::*;
use crate::content::{
    PageBlock, RelationshipEntry, doc_xml, page_block_with_extents, page_block_xml, rel_xml,
    rels_xml,
};
use crate::digits::u64_to_string;
use crate::error::Error;
use crate::paths::{get_filename, spec_filename};
use crate::splice::{occurrence_count, splice_once, splice_spec};
use crate::units::{PixelSize, spec_to_drawing_unit, spec_to_page_unit, to_drawing_unit, to_page_unit};
use crate::digits::spec_digits;
use crate::readback::{read_all_blocks, page_refs, lemma_read_all_blocks};

verus! {

/// One package-build session: the identifier allocator, the content
/// builder and the relationship index, together with the document-level
/// page geometry. The two streams are append-only; identifiers are
/// allocated monotonically, two per page, the vector asset first.
pub struct Docx {
    id_counter: u64,
    doc_string: String,
    rels_string: String,
    size: PixelSize,
    pages: Ghost<Seq<PageBlock>>,
    rels: Ghost<Seq<RelationshipEntry>>,
}

impl Docx {
    /// The page blocks registered so far, in registration order.
    pub closed spec fn pages(&self) -> Seq<PageBlock> {
        self.pages@
    }

    /// The relationship entries registered so far, in registration order.
    pub closed spec fn rels(&self) -> Seq<RelationshipEntry> {
        self.rels@
    }

    /// The identifier the allocator hands out next.
    pub closed spec fn counter(&self) -> u64 {
        self.id_counter
    }

    /// The accumulated content stream.
    pub closed spec fn content(&self) -> Seq<char> {
        self.doc_string@
    }

    /// The accumulated relationship stream.
    pub closed spec fn relationships(&self) -> Seq<char> {
        self.rels_string@
    }

    /// The document-level page geometry, in micropixels.
    pub closed spec fn size(&self) -> PixelSize {
        self.size
    }

    /// The session invariant: identifiers are exactly 0, 1, .. counter-1,
    /// assigned in order, two per page with the vector asset first; the
    /// relationship index holds exactly those identifiers; and the two
    /// streams are the serializations of the registered records.
    pub closed spec fn wf(&self) -> bool {
        &&& self.id_counter == 2 * self.pages@.len()
        &&& self.rels@.len() == 2 * self.pages@.len()
        &&& forall|i: int|
            0 <= i < self.pages@.len() ==> (#[trigger] self.pages@[i]).svg_id == 2 * i
                && self.pages@[i].png_id == 2 * i + 1
        &&& forall|j: int| 0 <= j < self.rels@.len() ==> (#[trigger] self.rels@[j]).id == j
        &&& self.doc_string@ == doc_xml(self.pages@)
        &&& self.rels_string@ == rels_xml(self.rels@)
    }

    /// Opens a fresh session: no pages, no relationships, identifier
    /// counter at zero, and the default page geometry (the size used
    /// until the first page's intrinsic size is read).
    pub fn new() -> (d: Docx)
        ensures
            d.wf(),
            d.counter() == 0,
            d.pages() == Seq::<PageBlock>::empty(),
            d.rels() == Seq::<RelationshipEntry>::empty(),
            d.content() == Seq::<char>::empty(),
            d.relationships() == Seq::<char>::empty(),
            d.size() == (PixelSize { width: 793_707_000, height: 1_122_520_000 }),
    {
        let d = Docx {
            id_counter: 0,
            doc_string: String::new(),
            rels_string: String::new(),
            size: PixelSize { width: 793_707_000, height: 1_122_520_000 },
            pages: Ghost(Seq::empty()),
            rels: Ghost(Seq::empty()),
        };
        proof {
            assert(doc_xml(d.pages@) == Seq::<char>::empty());
            assert(rels_xml(d.rels@) == Seq::<char>::empty());
        }
        d
    }

    /// Returns the current counter value, then increments it: each call
    /// hands out the next identifier, never reusing or reordering one.
    pub fn next_id(&mut self) -> (r: u64)
        requires
            old(self).counter() < u64::MAX,
        ensures
            r == old(self).counter(),
            final(self).counter() == old(self).counter() + 1,
            final(self).pages() == old(self).pages(),
            final(self).rels() == old(self).rels(),
            final(self).content() == old(self).content(),
            final(self).relationships() == old(self).relationships(),
            final(self).size() == old(self).size(),
    {
        let ret = self.id_counter;
        self.id_counter = self.id_counter + 1;
        ret
    }

    /// Appends one relationship declaration for the asset stored at
    /// `media/<filename>` under the given identifier.
    fn add_relationship(&mut self, id: u64, filename: &str)
        ensures
            final(self).rels() == old(self).rels().push(
                RelationshipEntry { id: id as nat, target: "media/"@ + filename@ },
            ),
            final(self).relationships() == old(self).relationships() + rel_xml(
                id as nat,
                "media/"@ + filename@,
            ),
            final(self).pages() == old(self).pages(),
            final(self).counter() == old(self).counter(),
            final(self).content() == old(self).content(),
            final(self).size() == old(self).size(),
    {
        let ghost entry = RelationshipEntry { id: id as nat, target: "media/"@ + filename@ };
        self.rels_string.append("<Relationship Id=\"rId");
        let id_s = u64_to_string(id);
        self.rels_string.append(id_s.as_str());
        self.rels_string.append(
            "\" Type=\"http://schemas.openxmlformats.org/officeDocument/2006/relationships/image\" Target=\"",
        );
        self.rels_string.append("media/");
        self.rels_string.append(filename);
        self.rels_string.append("\" />");
        proof {
            self.rels@ = old(self).rels@.push(entry);
            assert(self.rels@.drop_last() =~= old(self).rels@);
            assert(self.rels_string@ =~= old(self).rels_string@ + rel_xml(
                entry.id,
                entry.target,
            ));
        }
    }

    /// Registers one page: obtains the two identifiers (vector first,
    /// raster second), appends one page block to the content stream using
    /// the page's intrinsic size, and appends the two relationship
    /// entries naming the assets' file names under the media directory.
    /// `svg` and `png` are the assets' stored paths; only their last
    /// path component enters the relationship targets.
    #[verifier::rlimit(100)]
    pub fn add_to_doc(&mut self, svg: &str, png: &str, size: &PixelSize)
        requires
            old(self).wf(),
            old(self).counter() <= u64::MAX - 2,
        ensures
            final(self).wf(),
            final(self).counter() == old(self).counter() + 2,
            final(self).size() == old(self).size(),
            final(self).pages() == old(self).pages().push(
                PageBlock {
                    svg_id: old(self).counter(),
                    png_id: (old(self).counter() + 1) as u64,
                    width: size.width,
                    height: size.height,
                },
            ),
            final(self).rels() == old(self).rels().push(
                RelationshipEntry {
                    id: old(self).counter() as nat,
                    target: "media/"@ + spec_filename(svg@),
                },
            ).push(
                RelationshipEntry {
                    id: (old(self).counter() + 1) as nat,
                    target: "media/"@ + spec_filename(png@),
                },
            ),
            final(self).content() == old(self).content() + page_block_xml(
                final(self).pages().last(),
            ),
            final(self).relationships() == old(self).relationships() + rel_xml(
                old(self).counter() as nat,
                "media/"@ + spec_filename(svg@),
            ) + rel_xml((old(self).counter() + 1) as nat, "media/"@ + spec_filename(png@)),
    {
        let svg_id = self.next_id();
        let png_id = self.next_id();
        let width = to_drawing_unit(size.width);
        let height = to_drawing_unit(size.height);
        let width_s = u64_to_string(width);
        let height_s = u64_to_string(height);
        let svg_id_s = u64_to_string(svg_id);
        let png_id_s = u64_to_string(png_id);
        let ghost block = PageBlock {
            svg_id,
            png_id,
            width: size.width,
            height: size.height,
        };

        let ghost base = self.doc_string@;
        self.doc_string.append("<w:p><w:pPr><w:widowControl /><w:jc w:val=\"left\" /></w:pPr><w:r><w:rPr><w:noProof /></w:rPr><w:drawing><wp:inline distT=\"0\" distB=\"0\" distL=\"0\" distR=\"0\"><wp:extent cx=\"");
        let ghost acc = crate::content::seg_head();
        proof {
            assert(self.doc_string@ == base + acc);
        }
        self.doc_string.append(width_s.as_str());
        proof {
            crate::content::lemma_concat_assoc(base, acc, spec_digits(spec_to_drawing_unit(size.width as nat)));
        }
        let ghost acc = acc + spec_digits(spec_to_drawing_unit(size.width as nat));
        proof {
            assert(self.doc_string@ == base + acc);
        }
        self.doc_string.append("\" cy=\"");
        proof {
            crate::content::lemma_concat_assoc(base, acc, crate::content::seg_cy());
        }
        let ghost acc = acc + crate::content::seg_cy();
        proof {
            assert(self.doc_string@ == base + acc);
        }
        self.doc_string.append(height_s.as_str());
        proof {
            crate::content::lemma_concat_assoc(base, acc, spec_digits(spec_to_drawing_unit(size.height as nat)));
        }
        let ghost acc = acc + spec_digits(spec_to_drawing_unit(size.height as nat));
        proof {
            assert(self.doc_string@ == base + acc);
        }
        self.doc_string.append("\" /><wp:effectExtent l=\"0\" t=\"0\" r=\"0\" b=\"0\" /><wp:docPr id=\"");
        proof {
            crate::content::lemma_concat_assoc(base, acc, crate::content::seg_docpr());
        }
        let ghost acc = acc + crate::content::seg_docpr();
        proof {
            assert(self.doc_string@ == base + acc);
        }
        self.doc_string.append(svg_id_s.as_str());
        proof {
            crate::content::lemma_concat_assoc(base, acc, spec_digits(svg_id as nat));
        }
        let ghost acc = acc + spec_digits(svg_id as nat);
        proof {
            assert(self.doc_string@ == base + acc);
        }
        self.doc_string.append("\" name=\"");
        proof {
            crate::content::lemma_concat_assoc(base, acc, crate::content::seg_name());
        }
        let ghost acc = acc + crate::content::seg_name();
        proof {
            assert(self.doc_string@ == base + acc);
        }
        self.doc_string.append(svg_id_s.as_str());
        proof {
            crate::content::lemma_concat_assoc(base, acc, spec_digits(svg_id as nat));
        }
        let ghost acc = acc + spec_digits(svg_id as nat);
        proof {
            assert(self.doc_string@ == base + acc);
        }
        self.doc_string.append("\" /><wp:cNvGraphicFramePr><a:graphicFrameLocks xmlns:a=\"http://schemas.openxmlformats.org/drawingml/2006/main\" noChangeAspect=\"1\" /></wp:cNvGraphicFramePr><a:graphic xmlns:a=\"http://schemas.openxmlformats.org/drawingml/2006/main\"><a:graphicData uri=\"http://schemas.openxmlformats.org/drawingml/2006/picture\"><pic:pic xmlns:pic=\"http://schemas.openxmlformats.org/drawingml/2006/picture\"><pic:nvPicPr><pic:cNvPr id=\"1\" name=\"\" /><pic:cNvPicPr /></pic:nvPicPr><pic:blipFill><a:blip r:embed=\"rId");
        proof {
            crate::content::lemma_concat_assoc(base, acc, crate::content::seg_blip());
        }
        let ghost acc = acc + crate::content::seg_blip();
        proof {
            assert(self.doc_string@ == base + acc);
        }
        self.doc_string.append(png_id_s.as_str());
        proof {
            crate::content::lemma_concat_assoc(base, acc, spec_digits(png_id as nat));
        }
        let ghost acc = acc + spec_digits(png_id as nat);
        proof {
            assert(self.doc_string@ == base + acc);
        }
        self.doc_string.append("\"><a:extLst><a:ext uri=\"{96DAC541-7B7A-43D3-8B79-37D633B846F1}\"><asvg:svgBlip xmlns:asvg=\"http://schemas.microsoft.com/office/drawing/2016/SVG/main\" r:embed=\"rId");
        proof {
            crate::content::lemma_concat_assoc(base, acc, crate::content::seg_svgblip());
        }
        let ghost acc = acc + crate::content::seg_svgblip();
        proof {
            assert(self.doc_string@ == base + acc);
        }
        self.doc_string.append(svg_id_s.as_str());
        proof {
            crate::content::lemma_concat_assoc(base, acc, spec_digits(svg_id as nat));
        }
        let ghost acc = acc + spec_digits(svg_id as nat);
        proof {
            assert(self.doc_string@ == base + acc);
        }
        self.doc_string.append("\" /></a:ext></a:extLst></a:blip><a:stretch><a:fillRect /></a:stretch></pic:blipFill><pic:spPr><a:xfrm><a:off x=\"0\" y=\"0\" /><a:ext cx=\"");
        proof {
            crate::content::lemma_concat_assoc(base, acc, crate::content::seg_shape());
        }
        let ghost acc = acc + crate::content::seg_shape();
        proof {
            assert(self.doc_string@ == base + acc);
        }
        self.doc_string.append(width_s.as_str());
        proof {
            crate::content::lemma_concat_assoc(base, acc, spec_digits(spec_to_drawing_unit(size.width as nat)));
        }
        let ghost acc = acc + spec_digits(spec_to_drawing_unit(size.width as nat));
        proof {
            assert(self.doc_string@ == base + acc);
        }
        self.doc_string.append("\" cy=\"");
        proof {
            crate::content::lemma_concat_assoc(base, acc, crate::content::seg_cy());
        }
        let ghost acc = acc + crate::content::seg_cy();
        proof {
            assert(self.doc_string@ == base + acc);
        }
        self.doc_string.append(height_s.as_str());
        proof {
            crate::content::lemma_concat_assoc(base, acc, spec_digits(spec_to_drawing_unit(size.height as nat)));
        }
        let ghost acc = acc + spec_digits(spec_to_drawing_unit(size.height as nat));
        proof {
            assert(self.doc_string@ == base + acc);
        }
        self.doc_string.append("\" /></a:xfrm><a:prstGeom prst=\"rect\"><a:avLst /></a:prstGeom></pic:spPr></pic:pic></a:graphicData></a:graphic></wp:inline></w:drawing></w:r></w:p>");
        proof {
            crate::content::lemma_concat_assoc(base, acc, crate::content::seg_tail());
        }
        let ghost acc = acc + crate::content::seg_tail();
        proof {
            assert(self.doc_string@ == base + acc);
        }
        proof {
            self.pages@ = old(self).pages@.push(block);
            assert(self.pages@.drop_last() =~= old(self).pages@);
            crate::content::lemma_page_block_left(
                svg_id as nat,
                png_id as nat,
                spec_to_drawing_unit(size.width as nat),
                spec_to_drawing_unit(size.height as nat),
                spec_to_drawing_unit(size.width as nat),
                spec_to_drawing_unit(size.height as nat),
            );
            assert(acc == page_block_xml(block));
            assert(self.doc_string@ == old(self).doc_string@ + page_block_xml(block));
        }

        let svg_name = get_filename(svg);
        self.add_relationship(svg_id, svg_name);
        let png_name = get_filename(png);
        self.add_relationship(png_id, png_name);

        proof {
            let p_new = self.pages@;
            let r_new = self.rels@;
            let e1 = RelationshipEntry {
                id: svg_id as nat,
                target: "media/"@ + spec_filename(svg@),
            };
            let e2 = RelationshipEntry {
                id: png_id as nat,
                target: "media/"@ + spec_filename(png@),
            };
            assert(r_new == old(self).rels@.push(e1).push(e2));
            assert forall|i: int| 0 <= i < p_new.len() implies (#[trigger] p_new[i]).svg_id == 2
                * i && p_new[i].png_id == 2 * i + 1 by {
                if i < p_new.len() - 1 {
                    assert(p_new[i] == old(self).pages@[i]);
                }
            }
            assert forall|j: int| 0 <= j < r_new.len() implies (#[trigger] r_new[j]).id == j by {
                if j < r_new.len() - 2 {
                    assert(r_new[j] == old(self).rels@[j]);
                }
            }
            assert(p_new.last() == block);
            assert(p_new.drop_last() =~= old(self).pages@);
            assert(self.doc_string@ == doc_xml(old(self).pages@) + page_block_xml(block));
            assert(self.doc_string@ =~= doc_xml(p_new));
            assert(r_new.drop_last() =~= old(self).rels@.push(e1));
            assert(old(self).rels@.push(e1).drop_last() =~= old(self).rels@);
            assert(rels_xml(r_new) == rels_xml(old(self).rels@.push(e1)) + rel_xml(
                e2.id,
                e2.target,
            ));
            assert(rels_xml(old(self).rels@.push(e1)) == rels_xml(old(self).rels@) + rel_xml(
                e1.id,
                e1.target,
            ));
            assert(self.rels_string@ =~= rels_xml(r_new));
        }
    }

    /// Records the document-level page geometry, taken from the first
    /// page's intrinsic size and applied globally to every page.
    pub fn set_size(&mut self, size: PixelSize)
        ensures
            final(self).size() == size,
            final(self).wf() == old(self).wf(),
            final(self).counter() == old(self).counter(),
            final(self).pages() == old(self).pages(),
            final(self).rels() == old(self).rels(),
            final(self).content() == old(self).content(),
            final(self).relationships() == old(self).relationships(),
    {
        self.size = size;
    }

    /// Returns a reference to the accumulated content stream.
    pub fn content_xml(&self) -> (r: &String)
        ensures
            r@ == self.content(),
    {
        &self.doc_string
    }

    /// Returns a reference to the accumulated relationship stream.
    pub fn relationships_xml(&self) -> (r: &String)
        ensures
            r@ == self.relationships(),
    {
        &self.rels_string
    }

    /// Returns the document-level page geometry.
    pub fn page_size(&self) -> (r: PixelSize)
        ensures
            r == self.size(),
    {
        self.size
    }
}

/// What `finalized_document` produces: the page geometry (in page
/// units) spliced into the width and height placeholders, then the
/// content stream spliced into the single content placeholder, each
/// token occurring exactly once; nothing when any token does not occur
/// exactly once.
pub open spec fn spec_finalized_document(
    skeleton: Seq<char>,
    content: Seq<char>,
    size: PixelSize,
) -> Option<Seq<char>> {
    match splice_spec(skeleton, "!WIDTH!"@, spec_digits(spec_to_page_unit(size.width as nat))) {
        Option::None => Option::None,
        Option::Some(s1) => match splice_spec(
            s1,
            "!HEIGHT!"@,
            spec_digits(spec_to_page_unit(size.height as nat)),
        ) {
            Option::None => Option::None,
            Option::Some(s2) => splice_spec(s2, "!INSERT_HERE!"@, content),
        },
    }
}

/// What `finalized_relationships` produces: the relationship stream
/// spliced into the skeleton's single placeholder, or nothing when the
/// token does not occur exactly once.
pub open spec fn spec_finalized_relationships(
    skeleton: Seq<char>,
    relationships: Seq<char>,
) -> Option<Seq<char>> {
    splice_spec(skeleton, "!INSERT_HERE!"@, relationships)
}

impl Docx {
    /// Injects the page geometry into the skeleton content file's width
    /// and height placeholders, then splices the accumulated content
    /// stream into its content placeholder. Each of the three tokens
    /// must occur exactly once; a skeleton in which one occurs zero times
    /// or more than once is corrupt, and the call fails with the I/O
    /// failure kind instead of ignoring the defect.
    pub fn finalized_document(&self, skeleton: &str) -> (r: Result<String, Error>)
        ensures
            r matches Ok(out) ==> spec_finalized_document(skeleton@, self.content(), self.size())
                == Some(out@),
            r is Err ==> spec_finalized_document(skeleton@, self.content(), self.size()) is None
                && r == Err::<String, Error>(Error::IoError),
    {
        proof {
            reveal_strlit("!INSERT_HERE!");
            reveal_strlit("!WIDTH!");
            reveal_strlit("!HEIGHT!");
        }
        let w = u64_to_string(to_page_unit(self.size.width));
        let s1 = match splice_once(skeleton, "!WIDTH!", w.as_str()) {
            Ok(s) => s,
            Err(e) => {
                return Err(e);
            },
        };
        let h = u64_to_string(to_page_unit(self.size.height));
        let s2 = match splice_once(s1.as_str(), "!HEIGHT!", h.as_str()) {
            Ok(s) => s,
            Err(e) => {
                return Err(e);
            },
        };
        match splice_once(s2.as_str(), "!INSERT_HERE!", self.doc_string.as_str()) {
            Ok(s) => Ok(s),
            Err(e) => Err(e),
        }
    }

    /// Splices the accumulated relationship stream into the skeleton
    /// relationship file. The placeholder token must occur exactly once;
    /// otherwise the skeleton is corrupt and the call fails with the I/O
    /// failure kind.
    pub fn finalized_relationships(&self, skeleton: &str) -> (r: Result<String, Error>)
        ensures
            r matches Ok(out) ==> spec_finalized_relationships(skeleton@, self.relationships())
                == Some(out@),
            r is Err ==> spec_finalized_relationships(skeleton@, self.relationships()) is None
                && r == Err::<String, Error>(Error::IoError),
            (r is Ok) == (occurrence_count(skeleton@, "!INSERT_HERE!"@) == 1),
    {
        proof {
            reveal_strlit("!INSERT_HERE!");
        }
        splice_once(skeleton, "!INSERT_HERE!", self.rels_string.as_str())
    }
}

/// The set of identifiers that the content stream's page blocks
/// reference.
pub open spec fn content_ids(pages: Seq<PageBlock>) -> Set<int> {
    Set::new(
        |id: int|
            exists|i: int|
                0 <= i < pages.len() && ((#[trigger] pages[i]).svg_id == id || pages[i].png_id
                    == id),
    )
}

/// The set of identifiers present in the relationship index.
pub open spec fn relationship_ids(rels: Seq<RelationshipEntry>) -> Set<int> {
    Set::new(|id: int| exists|j: int| 0 <= j < rels.len() && (#[trigger] rels[j]).id == id)
}

/// The identifiers assigned to the registered pages, in assignment
/// order: each page contributes its vector identifier then its raster
/// identifier.
pub open spec fn assigned_ids(pages: Seq<PageBlock>) -> Seq<int> {
    Seq::new(
        2 * pages.len(),
        |j: int|
            if j % 2 == 0 {
                pages[j / 2].svg_id as int
            } else {
                pages[j / 2].png_id as int
            },
    )
}

/// In every well-formed session, the set of identifiers referenced by
/// the content builder's page blocks equals exactly the set of
/// identifiers present in the relationship index: no orphan
/// relationships, no dangling references.
pub proof fn lemma_identifier_consistency(d: &Docx)
    requires
        d.wf(),
    ensures
        content_ids(d.pages()) == relationship_ids(d.rels()),
{
    let p = d.pages();
    let r = d.rels();
    assert forall|id: int| content_ids(p).contains(id) implies relationship_ids(r).contains(
        id,
    ) by {
        let i = choose|i: int|
            0 <= i < p.len() && ((#[trigger] p[i]).svg_id == id || p[i].png_id == id);
        if p[i].svg_id == id {
            assert(r[2 * i].id == id);
        } else {
            assert(r[2 * i + 1].id == id);
        }
    }
    assert forall|id: int| relationship_ids(r).contains(id) implies content_ids(p).contains(
        id,
    ) by {
        let j = choose|j: int| 0 <= j < r.len() && (#[trigger] r[j]).id == id;
        let i = j / 2;
        assert(0 <= i < p.len());
        assert(p[i].svg_id == 2 * i && p[i].png_id == 2 * i + 1);
        if j % 2 == 0 {
            assert(j == 2 * i);
            assert(p[i].svg_id == id);
        } else {
            assert(j == 2 * i + 1);
            assert(p[i].png_id == id);
        }
    }
    assert(content_ids(p) =~= relationship_ids(r));
}

/// In every well-formed session, identifiers are assigned in strictly
/// increasing order starting at 0, two per page, the vector asset's
/// identifier immediately before its raster sibling's: the j-th assigned
/// identifier is j.
pub proof fn lemma_identifier_order(d: &Docx)
    requires
        d.wf(),
    ensures
        assigned_ids(d.pages()).len() == 2 * d.pages().len(),
        forall|j: int| 0 <= j < 2 * d.pages().len() ==> #[trigger] assigned_ids(d.pages())[j] == j,
{
    let p = d.pages();
    assert forall|j: int| 0 <= j < 2 * p.len() implies #[trigger] assigned_ids(p)[j] == j by {
        let i = j / 2;
        assert(0 <= i < p.len());
        assert(p[i].svg_id == 2 * i && p[i].png_id == 2 * i + 1);
    }
}

/// Round trip: reading the accumulated content stream of a well-formed
/// session back recovers exactly the registered pages' identifier pairs
/// (vector first, raster second), in registration order, and every
/// recovered identifier is present in the relationship index.
pub proof fn lemma_stream_round_trip(d: &Docx)
    requires
        d.wf(),
    ensures
        read_all_blocks(d.content()) == Some(page_refs(d.pages())),
        page_refs(d.pages()).len() == d.pages().len(),
        forall|k: int|
            0 <= k < d.pages().len() ==> relationship_ids(d.rels()).contains(
                (#[trigger] page_refs(d.pages())[k]).0 as int,
            ) && relationship_ids(d.rels()).contains(page_refs(d.pages())[k].1 as int),
{
    lemma_read_all_blocks(d.pages());
    let p = d.pages();
    let r = d.rels();
    assert forall|k: int| 0 <= k < p.len() implies relationship_ids(r).contains(
        (#[trigger] page_refs(p)[k]).0 as int,
    ) && relationship_ids(r).contains(page_refs(p)[k].1 as int) by {
        assert(p[k].svg_id == 2 * k && p[k].png_id == 2 * k + 1);
        assert(r[2 * k].id == 2 * k);
        assert(r[2 * k + 1].id == 2 * k + 1);
        assert(page_refs(p)[k].0 == p[k].svg_id as nat);
        assert(page_refs(p)[k].1 == p[k].png_id as nat);
    }
}

/// For a page of intrinsic size 720 by 1018 reference pixels, the
/// emitted page block carries identical extents in the inline element
/// and in the shape element, both equal to the drawing-unit conversion
/// of 720 by 1018 pixels.
pub proof fn lemma_extents_agree(svg_id: u64, png_id: u64)
    ensures
        spec_to_drawing_unit(720_000_000) == 6858000,
        spec_to_drawing_unit(1_018_000_000) == 9696450,
        page_block_xml(
            PageBlock { svg_id, png_id, width: 720_000_000, height: 1_018_000_000 },
        ) == page_block_with_extents(
            svg_id as nat,
            png_id as nat,
            6858000,
            9696450,
            6858000,
            9696450,
        ),
{
}

} // verus!
