//! Deciding whether a URL looks like an HTML page.
//!
//! An internal URL is fetched and parsed only when it looks like HTML:
//! its lowercased path must not end in a known non-HTML extension, and a
//! content-type header, when one is present, must mention `text/html`.

use vstd::prelude::*;

use crate::bytestr::contains_bytes;
use crate::bytestr::contains_sub;
use crate::bytestr::is_suffix;
use crate::bytestr::lower_bytes;
use crate::bytestr::to_ascii_lower;
use crate::site_url::opt_bytes_view;

verus! {

pub open spec fn ext_svg() -> Seq<u8> {
    seq!['.' as u8, 's' as u8, 'v' as u8, 'g' as u8]
}

pub open spec fn ext_png() -> Seq<u8> {
    seq!['.' as u8, 'p' as u8, 'n' as u8, 'g' as u8]
}

pub open spec fn ext_jpg() -> Seq<u8> {
    seq!['.' as u8, 'j' as u8, 'p' as u8, 'g' as u8]
}

pub open spec fn ext_jpeg() -> Seq<u8> {
    seq!['.' as u8, 'j' as u8, 'p' as u8, 'e' as u8, 'g' as u8]
}

pub open spec fn ext_gif() -> Seq<u8> {
    seq!['.' as u8, 'g' as u8, 'i' as u8, 'f' as u8]
}

pub open spec fn ext_ico() -> Seq<u8> {
    seq!['.' as u8, 'i' as u8, 'c' as u8, 'o' as u8]
}

pub open spec fn ext_css() -> Seq<u8> {
    seq!['.' as u8, 'c' as u8, 's' as u8, 's' as u8]
}

pub open spec fn ext_js() -> Seq<u8> {
    seq!['.' as u8, 'j' as u8, 's' as u8]
}

pub open spec fn ext_json() -> Seq<u8> {
    seq!['.' as u8, 'j' as u8, 's' as u8, 'o' as u8, 'n' as u8]
}

pub open spec fn ext_woff() -> Seq<u8> {
    seq!['.' as u8, 'w' as u8, 'o' as u8, 'f' as u8, 'f' as u8]
}

pub open spec fn ext_woff2() -> Seq<u8> {
    seq!['.' as u8, 'w' as u8, 'o' as u8, 'f' as u8, 'f' as u8, '2' as u8]
}

pub open spec fn ext_ttf() -> Seq<u8> {
    seq!['.' as u8, 't' as u8, 't' as u8, 'f' as u8]
}

pub open spec fn ext_eot() -> Seq<u8> {
    seq!['.' as u8, 'e' as u8, 'o' as u8, 't' as u8]
}

pub open spec fn text_html() -> Seq<u8> {
    seq!['t' as u8, 'e' as u8, 'x' as u8, 't' as u8, '/' as u8, 'h' as u8, 't' as u8, 'm' as u8, 'l' as u8]
}

/// `s` ends with `suffix`.
pub open spec fn seq_ends_with(s: Seq<u8>, suffix: Seq<u8>) -> bool {
    suffix.is_suffix_of(s)
}

/// The lowercased path ends in an extension that marks a non-HTML resource
/// (image, font, script, style or data formats).
pub open spec fn has_non_html_extension(lp: Seq<u8>) -> bool {
    seq_ends_with(lp, ext_svg()) || seq_ends_with(lp, ext_png()) || seq_ends_with(lp, ext_jpg()) || seq_ends_with(lp, ext_jpeg()) || seq_ends_with(lp, ext_gif()) || seq_ends_with(lp, ext_ico()) || seq_ends_with(lp, ext_css()) || seq_ends_with(lp, ext_js()) || seq_ends_with(lp, ext_json()) || seq_ends_with(lp, ext_woff()) || seq_ends_with(lp, ext_woff2()) || seq_ends_with(lp, ext_ttf()) || seq_ends_with(lp, ext_eot())
}

/// Whether a URL with path `path` and response content-type `ct` is treated
/// as an HTML page: no known non-HTML extension, and either no content-type
/// header or one that mentions `text/html`.
pub open spec fn is_html_spec(path: Seq<u8>, ct: Option<Seq<u8>>) -> bool {
    &&& !has_non_html_extension(lower_bytes(path))
    &&& match ct {
        Some(c) => contains_bytes(c, text_html()),
        None => true,
    }
}

fn path_has_non_html_extension(lp: &Vec<u8>) -> (r: bool)
    ensures
        r == has_non_html_extension(lp@),
{
    let suf_svg: Vec<u8> = vec!['.' as u8, 's' as u8, 'v' as u8, 'g' as u8];
    proof {
        assert(suf_svg@ =~= ext_svg());
    }
    if is_suffix(suf_svg.as_slice(), lp.as_slice()) {
        return true;
    }
    let suf_png: Vec<u8> = vec!['.' as u8, 'p' as u8, 'n' as u8, 'g' as u8];
    proof {
        assert(suf_png@ =~= ext_png());
    }
    if is_suffix(suf_png.as_slice(), lp.as_slice()) {
        return true;
    }
    let suf_jpg: Vec<u8> = vec!['.' as u8, 'j' as u8, 'p' as u8, 'g' as u8];
    proof {
        assert(suf_jpg@ =~= ext_jpg());
    }
    if is_suffix(suf_jpg.as_slice(), lp.as_slice()) {
        return true;
    }
    let suf_jpeg: Vec<u8> = vec!['.' as u8, 'j' as u8, 'p' as u8, 'e' as u8, 'g' as u8];
    proof {
        assert(suf_jpeg@ =~= ext_jpeg());
    }
    if is_suffix(suf_jpeg.as_slice(), lp.as_slice()) {
        return true;
    }
    let suf_gif: Vec<u8> = vec!['.' as u8, 'g' as u8, 'i' as u8, 'f' as u8];
    proof {
        assert(suf_gif@ =~= ext_gif());
    }
    if is_suffix(suf_gif.as_slice(), lp.as_slice()) {
        return true;
    }
    let suf_ico: Vec<u8> = vec!['.' as u8, 'i' as u8, 'c' as u8, 'o' as u8];
    proof {
        assert(suf_ico@ =~= ext_ico());
    }
    if is_suffix(suf_ico.as_slice(), lp.as_slice()) {
        return true;
    }
    let suf_css: Vec<u8> = vec!['.' as u8, 'c' as u8, 's' as u8, 's' as u8];
    proof {
        assert(suf_css@ =~= ext_css());
    }
    if is_suffix(suf_css.as_slice(), lp.as_slice()) {
        return true;
    }
    let suf_js: Vec<u8> = vec!['.' as u8, 'j' as u8, 's' as u8];
    proof {
        assert(suf_js@ =~= ext_js());
    }
    if is_suffix(suf_js.as_slice(), lp.as_slice()) {
        return true;
    }
    let suf_json: Vec<u8> = vec!['.' as u8, 'j' as u8, 's' as u8, 'o' as u8, 'n' as u8];
    proof {
        assert(suf_json@ =~= ext_json());
    }
    if is_suffix(suf_json.as_slice(), lp.as_slice()) {
        return true;
    }
    let suf_woff: Vec<u8> = vec!['.' as u8, 'w' as u8, 'o' as u8, 'f' as u8, 'f' as u8];
    proof {
        assert(suf_woff@ =~= ext_woff());
    }
    if is_suffix(suf_woff.as_slice(), lp.as_slice()) {
        return true;
    }
    let suf_woff2: Vec<u8> = vec!['.' as u8, 'w' as u8, 'o' as u8, 'f' as u8, 'f' as u8, '2' as u8];
    proof {
        assert(suf_woff2@ =~= ext_woff2());
    }
    if is_suffix(suf_woff2.as_slice(), lp.as_slice()) {
        return true;
    }
    let suf_ttf: Vec<u8> = vec!['.' as u8, 't' as u8, 't' as u8, 'f' as u8];
    proof {
        assert(suf_ttf@ =~= ext_ttf());
    }
    if is_suffix(suf_ttf.as_slice(), lp.as_slice()) {
        return true;
    }
    let suf_eot: Vec<u8> = vec!['.' as u8, 'e' as u8, 'o' as u8, 't' as u8];
    proof {
        assert(suf_eot@ =~= ext_eot());
    }
    if is_suffix(suf_eot.as_slice(), lp.as_slice()) {
        return true;
    }
    false
}

/// Whether a URL with this path and this content-type header is treated as
/// an HTML page.
pub fn looks_like_html(path: &[u8], content_type: &Option<Vec<u8>>) -> (r: bool)
    ensures
        r == is_html_spec(path@, opt_bytes_view(*content_type)),
{
    let lp = to_ascii_lower(path);
    if path_has_non_html_extension(&lp) {
        return false;
    }
    match content_type {
        Some(c) => {
            let needle: Vec<u8> = vec!['t' as u8, 'e' as u8, 'x' as u8, 't' as u8, '/' as u8, 'h' as u8, 't' as u8, 'm' as u8, 'l' as u8];
            proof {
                assert(needle@ =~= text_html());
            }
            contains_sub(c.as_slice(), needle.as_slice())
        },
        None => true,
    }
}

} // verus!
