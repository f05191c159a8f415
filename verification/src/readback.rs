use vstd::prelude::*;
use crate::content::{
    PageBlock, doc_xml, page_block_xml, seg_blip, seg_cy, seg_docpr, seg_head, seg_name,
    seg_shape, seg_svgblip, seg_tail,
};
use crate::digits::{digit_char, is_digit_char, spec_digits};

verus! {

// A mathematical reader of the content stream, and the proof that it
// inverts the serialization: reading the stream of a session back
// recovers exactly the registered identifier pairs, in order. The reader
// walks the fixed block segments and the decimal numbers between them.

/// The numeric value of a decimal digit character.
pub open spec fn digit_val(c: char) -> nat {
    if c == '0' {
        0
    } else if c == '1' {
        1
    } else if c == '2' {
        2
    } else if c == '3' {
        3
    } else if c == '4' {
        4
    } else if c == '5' {
        5
    } else if c == '6' {
        6
    } else if c == '7' {
        7
    } else if c == '8' {
        8
    } else {
        9
    }
}

/// The value of a digit sequence read in decimal, most significant digit
/// first.
pub open spec fn seq_val(ds: Seq<char>) -> nat
    decreases ds.len(),
{
    if ds.len() == 0 {
        0
    } else {
        seq_val(ds.drop_last()) * 10 + digit_val(ds.last())
    }
}

/// The length of the longest digit run at the head of `s`.
pub open spec fn run_len(s: Seq<char>) -> nat
    decreases s.len(),
{
    if s.len() == 0 || !is_digit_char(s[0]) {
        0
    } else {
        1 + run_len(s.skip(1))
    }
}

/// The rest of `s` after a required literal prefix `lit`, or nothing
/// when `s` does not start with `lit`.
pub open spec fn after_lit(s: Seq<char>, lit: Seq<char>) -> Option<Seq<char>> {
    if s.len() >= lit.len() && s.take(lit.len() as int) == lit {
        Some(s.skip(lit.len() as int))
    } else {
        None
    }
}

/// The value of a required decimal number at the head of `s`, and the
/// rest of `s` after it; nothing when `s` does not start with a digit.
pub open spec fn after_num(s: Seq<char>) -> Option<(nat, Seq<char>)> {
    if run_len(s) == 0 {
        None
    } else {
        Some((seq_val(s.take(run_len(s) as int)), s.skip(run_len(s) as int)))
    }
}

/// A required literal followed by a required number.
pub open spec fn read_lit_num(s: Seq<char>, lit: Seq<char>) -> Option<(nat, Seq<char>)> {
    match after_lit(s, lit) {
        Some(r) => after_num(r),
        None => None,
    }
}

/// Reads one serialized page block at the head of `s`: yields the pair
/// of identifiers the block references (vector, raster) and the rest of
/// `s` after the block.
pub open spec fn read_block(s: Seq<char>) -> Option<((nat, nat), Seq<char>)> {
    match read_lit_num(s, seg_head()) {
        None => None,
        Some(icx) => match read_lit_num(icx.1, seg_cy()) {
            None => None,
            Some(icy) => match read_lit_num(icy.1, seg_docpr()) {
                None => None,
                Some(svg) => match read_lit_num(svg.1, seg_name()) {
                    None => None,
                    Some(nm) => match read_lit_num(nm.1, seg_blip()) {
                        None => None,
                        Some(png) => match read_lit_num(png.1, seg_svgblip()) {
                            None => None,
                            Some(svg2) => match read_lit_num(svg2.1, seg_shape()) {
                                None => None,
                                Some(scx) => match read_lit_num(scx.1, seg_cy()) {
                                    None => None,
                                    Some(scy) => match after_lit(scy.1, seg_tail()) {
                                        None => None,
                                        Some(rest) => Some(((svg.0, png.0), rest)),
                                    },
                                },
                            },
                        },
                    },
                },
            },
        },
    }
}

/// Reads a whole content stream: the identifier pairs of its page
/// blocks, in order; nothing when the stream is not a sequence of
/// serialized page blocks.
pub open spec fn read_all_blocks(s: Seq<char>) -> Option<Seq<(nat, nat)>>
    decreases s.len(),
{
    if s.len() == 0 {
        Some(Seq::empty())
    } else {
        match read_block(s) {
            None => None,
            Some(pr) => {
                if pr.1.len() < s.len() {
                    match read_all_blocks(pr.1) {
                        None => None,
                        Some(tail) => Some(seq![pr.0] + tail),
                    }
                } else {
                    None
                }
            },
        }
    }
}

/// The identifier pairs (vector, raster) of the registered page blocks,
/// in registration order.
pub open spec fn page_refs(pages: Seq<PageBlock>) -> Seq<(nat, nat)> {
    Seq::new(pages.len(), |i: int| (pages[i].svg_id as nat, pages[i].png_id as nat))
}

proof fn lemma_digit_val_char(d: nat)
    requires
        d < 10,
    ensures
        digit_val(digit_char(d)) == d,
{
}

proof fn lemma_seq_val_digits(n: nat)
    ensures
        seq_val(spec_digits(n)) == n,
    decreases n,
{
    if n < 10 {
        assert(spec_digits(n).drop_last() =~= Seq::<char>::empty());
        assert(seq_val(Seq::<char>::empty()) == 0);
        lemma_digit_val_char(n);
        assert(spec_digits(n).last() == digit_char(n));
        assert(seq_val(spec_digits(n)) == seq_val(Seq::<char>::empty()) * 10 + digit_val(
            digit_char(n),
        ));
    } else {
        lemma_seq_val_digits(n / 10);
        lemma_digit_val_char(n % 10);
        assert(spec_digits(n).drop_last() =~= spec_digits(n / 10));
        assert(spec_digits(n).last() == digit_char(n % 10));
        assert(seq_val(spec_digits(n)) == seq_val(spec_digits(n / 10)) * 10 + digit_val(
            digit_char(n % 10),
        ));
    }
}

proof fn lemma_digits_are_digits(n: nat)
    ensures
        forall|i: int| 0 <= i < spec_digits(n).len() ==> is_digit_char(#[trigger] spec_digits(n)[i]),
    decreases n,
{
    if n < 10 {
        assert(is_digit_char(digit_char(n)));
    } else {
        lemma_digits_are_digits(n / 10);
        assert(is_digit_char(digit_char(n % 10)));
        assert forall|i: int| 0 <= i < spec_digits(n).len() implies is_digit_char(
            #[trigger] spec_digits(n)[i],
        ) by {
            if i < spec_digits(n).len() - 1 {
                assert(spec_digits(n)[i] == spec_digits(n / 10)[i]);
            }
        }
    }
}

proof fn lemma_run_len_concat(d: Seq<char>, rest: Seq<char>)
    requires
        forall|i: int| 0 <= i < d.len() ==> is_digit_char(#[trigger] d[i]),
        rest.len() == 0 || !is_digit_char(rest[0]),
    ensures
        run_len(d + rest) == d.len(),
    decreases d.len(),
{
    if d.len() == 0 {
        assert(d + rest =~= rest);
    } else {
        assert((d + rest)[0] == d[0]);
        assert((d + rest).skip(1) =~= d.skip(1) + rest);
        lemma_run_len_concat(d.skip(1), rest);
    }
}

proof fn lemma_after_lit(lit: Seq<char>, rest: Seq<char>)
    ensures
        after_lit(lit + rest, lit) == Some(rest),
{
    assert((lit + rest).take(lit.len() as int) =~= lit);
    assert((lit + rest).skip(lit.len() as int) =~= rest);
}

proof fn lemma_after_num(n: nat, rest: Seq<char>)
    requires
        rest.len() == 0 || !is_digit_char(rest[0]),
    ensures
        after_num(spec_digits(n) + rest) == Some((n, rest)),
{
    let d = spec_digits(n);
    lemma_digits_are_digits(n);
    lemma_run_len_concat(d, rest);
    assert(d.len() >= 1);
    assert((d + rest).take(d.len() as int) =~= d);
    assert((d + rest).skip(d.len() as int) =~= rest);
    lemma_seq_val_digits(n);
}

proof fn lemma_read_lit_num(lit: Seq<char>, n: nat, rest: Seq<char>)
    requires
        rest.len() == 0 || !is_digit_char(rest[0]),
    ensures
        read_lit_num(lit + (spec_digits(n) + rest), lit) == Some((n, rest)),
{
    lemma_after_lit(lit, spec_digits(n) + rest);
    lemma_after_num(n, rest);
}

proof fn lemma_seg_starts()
    ensures
        seg_cy().len() > 0 && !is_digit_char(seg_cy()[0]),
        seg_docpr().len() > 0 && !is_digit_char(seg_docpr()[0]),
        seg_name().len() > 0 && !is_digit_char(seg_name()[0]),
        seg_blip().len() > 0 && !is_digit_char(seg_blip()[0]),
        seg_svgblip().len() > 0 && !is_digit_char(seg_svgblip()[0]),
        seg_shape().len() > 0 && !is_digit_char(seg_shape()[0]),
        seg_tail().len() > 0 && !is_digit_char(seg_tail()[0]),
        seg_head().len() > 0,
{
    reveal_strlit("\" cy=\"");
    reveal_strlit("\" /><wp:effectExtent l=\"0\" t=\"0\" r=\"0\" b=\"0\" /><wp:docPr id=\"");
    reveal_strlit("\" name=\"");
    reveal_strlit(
        "\" /><wp:cNvGraphicFramePr><a:graphicFrameLocks xmlns:a=\"http://schemas.openxmlformats.org/drawingml/2006/main\" noChangeAspect=\"1\" /></wp:cNvGraphicFramePr><a:graphic xmlns:a=\"http://schemas.openxmlformats.org/drawingml/2006/main\"><a:graphicData uri=\"http://schemas.openxmlformats.org/drawingml/2006/picture\"><pic:pic xmlns:pic=\"http://schemas.openxmlformats.org/drawingml/2006/picture\"><pic:nvPicPr><pic:cNvPr id=\"1\" name=\"\" /><pic:cNvPicPr /></pic:nvPicPr><pic:blipFill><a:blip r:embed=\"rId",
    );
    reveal_strlit(
        "\"><a:extLst><a:ext uri=\"{96DAC541-7B7A-43D3-8B79-37D633B846F1}\"><asvg:svgBlip xmlns:asvg=\"http://schemas.microsoft.com/office/drawing/2016/SVG/main\" r:embed=\"rId",
    );
    reveal_strlit(
        "\" /></a:ext></a:extLst></a:blip><a:stretch><a:fillRect /></a:stretch></pic:blipFill><pic:spPr><a:xfrm><a:off x=\"0\" y=\"0\" /><a:ext cx=\"",
    );
    reveal_strlit(
        "\" /></a:xfrm><a:prstGeom prst=\"rect\"><a:avLst /></a:prstGeom></pic:spPr></pic:pic></a:graphicData></a:graphic></wp:inline></w:drawing></w:r></w:p>",
    );
    reveal_strlit(
        "<w:p><w:pPr><w:widowControl /><w:jc w:val=\"left\" /></w:pPr><w:r><w:rPr><w:noProof /></w:rPr><w:drawing><wp:inline distT=\"0\" distB=\"0\" distL=\"0\" distR=\"0\"><wp:extent cx=\"",
    );
}

proof fn lemma_assoc(a: Seq<char>, b: Seq<char>, c: Seq<char>)
    ensures
        (a + b) + c == a + (b + c),
{
    assert((a + b) + c =~= a + (b + c));
}

/// Reading one serialized page block followed by anything recovers the
/// block's identifier pair and leaves exactly the rest.
#[verifier::rlimit(100)]
proof fn lemma_read_block(b: PageBlock, rest: Seq<char>)
    ensures
        read_block(page_block_xml(b) + rest) == Some(
            ((b.svg_id as nat, b.png_id as nat), rest),
        ),
{
    lemma_seg_starts();
    let svg = b.svg_id as nat;
    let png = b.png_id as nat;
    let icx = crate::units::spec_to_drawing_unit(b.width as nat);
    let icy = crate::units::spec_to_drawing_unit(b.height as nat);

    // The block's trailing part at each segment boundary, innermost
    // first, exactly as `page_block_with_extents` nests them.
    let t16 = seg_tail();
    let t15 = spec_digits(icy) + t16;
    let t14 = seg_cy() + t15;
    let t13 = spec_digits(icx) + t14;
    let t12 = seg_shape() + t13;
    let t11 = spec_digits(svg) + t12;
    let t10 = seg_svgblip() + t11;
    let t9 = spec_digits(png) + t10;
    let t8 = seg_blip() + t9;
    let t7 = spec_digits(svg) + t8;
    let t6 = seg_name() + t7;
    let t5 = spec_digits(svg) + t6;
    let t4 = seg_docpr() + t5;
    let t3 = spec_digits(icy) + t4;
    let t2 = seg_cy() + t3;
    let t1 = spec_digits(icx) + t2;
    assert(page_block_xml(b) == seg_head() + t1);

    // The same boundaries with `rest` appended, pushed inward one
    // associativity step at a time.
    let g17 = seg_tail() + rest;
    let g16 = spec_digits(icy) + g17;
    lemma_assoc(spec_digits(icy), t16, rest);
    assert(t15 + rest == g16);
    let g15 = seg_cy() + g16;
    lemma_assoc(seg_cy(), t15, rest);
    assert(t14 + rest == g15);
    let g14 = spec_digits(icx) + g15;
    lemma_assoc(spec_digits(icx), t14, rest);
    assert(t13 + rest == g14);
    let g13 = seg_shape() + g14;
    lemma_assoc(seg_shape(), t13, rest);
    assert(t12 + rest == g13);
    let g12 = spec_digits(svg) + g13;
    lemma_assoc(spec_digits(svg), t12, rest);
    assert(t11 + rest == g12);
    let g11 = seg_svgblip() + g12;
    lemma_assoc(seg_svgblip(), t11, rest);
    assert(t10 + rest == g11);
    let g10 = spec_digits(png) + g11;
    lemma_assoc(spec_digits(png), t10, rest);
    assert(t9 + rest == g10);
    let g9 = seg_blip() + g10;
    lemma_assoc(seg_blip(), t9, rest);
    assert(t8 + rest == g9);
    let g8 = spec_digits(svg) + g9;
    lemma_assoc(spec_digits(svg), t8, rest);
    assert(t7 + rest == g8);
    let g7 = seg_name() + g8;
    lemma_assoc(seg_name(), t7, rest);
    assert(t6 + rest == g7);
    let g6 = spec_digits(svg) + g7;
    lemma_assoc(spec_digits(svg), t6, rest);
    assert(t5 + rest == g6);
    let g5 = seg_docpr() + g6;
    lemma_assoc(seg_docpr(), t5, rest);
    assert(t4 + rest == g5);
    let g4 = spec_digits(icy) + g5;
    lemma_assoc(spec_digits(icy), t4, rest);
    assert(t3 + rest == g4);
    let g3 = seg_cy() + g4;
    lemma_assoc(seg_cy(), t3, rest);
    assert(t2 + rest == g3);
    let g2 = spec_digits(icx) + g3;
    lemma_assoc(spec_digits(icx), t2, rest);
    assert(t1 + rest == g2);
    let g1 = seg_head() + g2;
    lemma_assoc(seg_head(), t1, rest);
    assert(page_block_xml(b) + rest == g1);

    lemma_read_lit_num(seg_head(), icx, g3);
    assert(read_lit_num(g1, seg_head()) == Some((icx, g3)));
    lemma_read_lit_num(seg_cy(), icy, g5);
    lemma_read_lit_num(seg_docpr(), svg, g7);
    lemma_read_lit_num(seg_name(), svg, g9);
    lemma_read_lit_num(seg_blip(), png, g11);
    lemma_read_lit_num(seg_svgblip(), svg, g13);
    lemma_read_lit_num(seg_shape(), icx, g15);
    lemma_read_lit_num(seg_cy(), icy, g17);
    lemma_after_lit(seg_tail(), rest);
}

/// A non-empty content stream starts with its first page's block.
#[verifier::rlimit(100)]
proof fn lemma_doc_xml_first(pages: Seq<PageBlock>)
    requires
        pages.len() > 0,
    ensures
        doc_xml(pages) == page_block_xml(pages.first()) + doc_xml(pages.drop_first()),
    decreases pages.len(),
{
    if pages.len() == 1 {
        assert(pages.drop_last() =~= Seq::<PageBlock>::empty());
        assert(pages.drop_first() =~= Seq::<PageBlock>::empty());
        assert(pages.last() == pages.first());
        assert(Seq::<char>::empty() + page_block_xml(pages.last()) =~= page_block_xml(
            pages.last(),
        ));
        assert(page_block_xml(pages.first()) + Seq::<char>::empty() =~= page_block_xml(
            pages.first(),
        ));
    } else {
        let q = pages.drop_last();
        lemma_doc_xml_first(q);
        assert(q.first() == pages.first());
        assert(q.drop_first() =~= pages.drop_first().drop_last());
        assert(pages.drop_first().last() == pages.last());
        assert(pages.drop_first().len() > 0);
        assert(doc_xml(pages.drop_first()) == doc_xml(pages.drop_first().drop_last())
            + page_block_xml(pages.drop_first().last()));
        assert((page_block_xml(pages.first()) + doc_xml(q.drop_first())) + page_block_xml(
            pages.last(),
        ) =~= page_block_xml(pages.first()) + (doc_xml(q.drop_first()) + page_block_xml(
            pages.last(),
        )));
    }
}

proof fn lemma_seg_head_nonempty()
    ensures
        seg_head().len() > 0,
{
    reveal_strlit(
        "<w:p><w:pPr><w:widowControl /><w:jc w:val=\"left\" /></w:pPr><w:r><w:rPr><w:noProof /></w:rPr><w:drawing><wp:inline distT=\"0\" distB=\"0\" distL=\"0\" distR=\"0\"><wp:extent cx=\"",
    );
}

/// Reading back a whole serialized content stream recovers exactly the
/// registered pages' identifier pairs, in registration order.
#[verifier::rlimit(100)]
pub proof fn lemma_read_all_blocks(pages: Seq<PageBlock>)
    ensures
        read_all_blocks(doc_xml(pages)) == Some(page_refs(pages)),
    decreases pages.len(),
{
    if pages.len() == 0 {
        assert(page_refs(pages) =~= Seq::<(nat, nat)>::empty());
    } else {
        lemma_seg_head_nonempty();
        lemma_doc_xml_first(pages);
        let b = pages.first();
        let rest = doc_xml(pages.drop_first());
        lemma_read_block(b, rest);
        let s = doc_xml(pages);
        assert(s.len() == page_block_xml(b).len() + rest.len());
        assert(page_block_xml(b).len() >= seg_head().len());
        assert(s.len() > rest.len());
        lemma_read_all_blocks(pages.drop_first());
        assert(seq![(b.svg_id as nat, b.png_id as nat)] + page_refs(pages.drop_first())
            =~= page_refs(pages));
    }
}

} // verus!
