use vstd::prelude::*;
use crate::error::Error;
use crate::digits::{spec_digits, u64_to_string};
use crate::text::{spec_replace, replace};

verus! {

// Workspace-relative names for the per-page assets. Paths are plain
// strings whose components are separated by '/'.

/// The last path component of `s`: the suffix after the last '/', or all
/// of `s` when it holds no '/'.
pub open spec fn spec_filename(s: Seq<char>) -> Seq<char>
    decreases s.len(),
{
    if s.len() == 0 {
        Seq::empty()
    } else if s[s.len() - 1] == '/' {
        Seq::empty()
    } else {
        spec_filename(s.drop_last()).push(s[s.len() - 1])
    }
}

proof fn lemma_filename_is_suffix(s: Seq<char>, i: int)
    requires
        0 <= i <= s.len(),
        forall|j: int| i <= j < s.len() ==> s[j] != '/',
        i > 0 ==> s[i - 1] == '/',
    ensures
        spec_filename(s) == s.subrange(i, s.len() as int),
    decreases s.len() - i,
{
    if i == s.len() {
        assert(s.subrange(i, s.len() as int) =~= Seq::empty());
    } else {
        lemma_filename_is_suffix(s.drop_last(), i);
        assert(s.drop_last().subrange(i, s.len() - 1) =~= s.subrange(i, s.len() - 1));
        assert(s.subrange(i, s.len() - 1).push(s[s.len() - 1]) =~= s.subrange(i, s.len() as int));
    }
}

/// The file name of the path `s`: everything after the last '/'.
pub fn get_filename(s: &str) -> (r: &str)
    ensures
        r@ == spec_filename(s@),
{
    let n = s.unicode_len();
    let mut i: usize = n;
    while i > 0 && s.get_char(i - 1) != '/'
        invariant
            i <= n,
            n == s@.len(),
            forall|j: int| i <= j < s@.len() ==> s@[j] != '/',
        decreases i,
    {
        i -= 1;
    }
    proof {
        lemma_filename_is_suffix(s@, i as int);
    }
    s.substring_char(i, n)
}

/// The workspace path of a page's raster sibling: the directory `prefix`
/// joined with the page's file name in which every occurrence of "svg" is
/// replaced by "png". `prefix` is taken without a trailing separator.
/// Always succeeds.
pub fn get_png_path(prefix: &str, svg_path: &str) -> (r: Result<String, Error>)
    ensures
        r is Ok,
        r matches Ok(p) ==> p@ == prefix@ + "/"@ + spec_replace(
            spec_filename(svg_path@),
            "svg"@,
            "png"@,
        ),
{
    proof {
        reveal_strlit("svg");
    }
    let name = get_filename(svg_path);
    let png_name = replace(name, "svg", "png");
    let mut p = prefix.to_owned();
    p.append("/");
    p.append(png_name.as_str());
    proof {
        assert(p@ =~= prefix@ + "/"@ + spec_replace(spec_filename(svg_path@), "svg"@, "png"@));
    }
    Ok(p)
}

/// The workspace-relative file name given to page number `page` by the
/// extraction step: the page number followed by ".svg".
pub fn page_image_name(page: u64) -> (r: String)
    ensures
        r@ == spec_digits(page as nat) + ".svg"@,
{
    let mut s = u64_to_string(page);
    s.append(".svg");
    s
}

} // verus!
