//! Favicons: where to look for a site's icon, and turning an image into the PNG icon of a
//! web app.
//!
//! Fetching is done by the caller; HTML selection (`scraper`) and image decoding and
//! encoding (`image`) are calls behind trusted items here.
use vstd::prelude::*;

use crate::paths::{path_join, path_join_exec};
use crate::text::{chars_of, contains, contains_str, has_char, views};
use crate::weburl::{normalize_url, url_join, url_parse, opt_url_view, with_scheme, UrlError, UrlParts, UrlView};

verus! {

/// Side of the square PNG icon of a web app, in pixels.
pub const ICON_SIZE: u32 = 128;

/// Why no icon could be made.
#[derive(Debug, Clone, Copy, PartialEq, Eq, Structural)]
pub enum FaviconError {
    /// The page URL was refused.
    Url(UrlError),
    /// The bytes are not an image that could be decoded, or encoding failed.
    Image,
    /// A response carried no bytes.
    EmptyBody,
}

/// For each element of the HTML document `html` that matches the CSS selector `selector`,
/// in the order that `scraper`'s `Html::select` yields them (the order of its node arena,
/// in which the parser created the nodes), the value of its attribute `attr` if it has one (no elements when the selector does not
/// parse).
pub uninterp spec fn html_select_attr(html: Seq<char>, selector: Seq<char>, attr: Seq<char>) -> Seq<
    Option<Seq<char>>,
>;

pub open spec fn opt_views(v: Seq<Option<String>>) -> Seq<Option<Seq<char>>> {
    v.map_values(
        |o: Option<String>|
            match o {
                Some(s) => Some(s@),
                None => None,
            },
    )
}

/// Calls `scraper::Html::parse_document`, `scraper::Selector::parse`, `Html::select` and
/// `ElementRef::value().attr`; the contract claims that the result is `html_select_attr`
/// of the arguments (a function of them alone).
#[verifier::external_body]
fn select_attr(html: &str, selector: &str, attr: &str) -> (r: Vec<Option<String>>)
    ensures
        opt_views(r@) == html_select_attr(html@, selector@, attr@),
{
    let document = scraper::Html::parse_document(html);
    let Ok(sel) = scraper::Selector::parse(selector) else {
        return Vec::new();
    };
    document.select(&sel).map(|el| el.value().attr(attr).map(|v| v.to_string())).collect()
}

/// The values present in `v`, in order.
pub open spec fn present(v: Seq<Option<Seq<char>>>) -> Seq<Seq<char>>
    decreases v.len(),
{
    if v.len() == 0 {
        seq![]
    } else {
        match v.last() {
            Some(x) => present(v.drop_last()).push(x),
            None => present(v.drop_last()),
        }
    }
}

/// Icon links of a page: the `href` of `apple-touch-icon`, `apple-touch-icon-precomposed`,
/// `icon` and `shortcut icon` links, then the `content` of `og:image` meta tags; elements
/// without the attribute give nothing.
pub open spec fn html_icon_links_spec(html: Seq<char>) -> Seq<Seq<char>> {
    present(html_select_attr(html, "link[rel=\"apple-touch-icon\"]"@, "href"@)) + present(
        html_select_attr(html, "link[rel=\"apple-touch-icon-precomposed\"]"@, "href"@),
    ) + present(html_select_attr(html, "link[rel=\"icon\"]"@, "href"@)) + present(
        html_select_attr(html, "link[rel=\"shortcut icon\"]"@, "href"@),
    ) + present(html_select_attr(html, "meta[property=\"og:image\"]"@, "content"@))
}

/// Every value present in `v` is kept by `present`.
proof fn lemma_present_keeps(v: Seq<Option<Seq<char>>>, k: int)
    requires
        0 <= k < v.len(),
        v[k] is Some,
    ensures
        present(v).contains(v[k]->0),
    decreases v.len(),
{
    if k == v.len() - 1 {
        assert(present(v) == present(v.drop_last()).push(v[k]->0));
        assert(present(v)[present(v).len() - 1] == v[k]->0);
    } else {
        lemma_present_keeps(v.drop_last(), k);
        assert(v.drop_last()[k] == v[k]);
        let w = present(v.drop_last());
        let i = choose|i: int| 0 <= i < w.len() && w[i] == v[k]->0;
        match v.last() {
            Some(x) => {
                assert(present(v) == w.push(x));
                assert(present(v)[i] == v[k]->0);
            },
            None => {},
        }
    }
}

/// The icon links of a page, in the order they are tried: first the `href`s of the
/// `apple-touch-icon` links, then those of the `apple-touch-icon-precomposed` links, then
/// those of the `icon` links, then those of the `shortcut icon` links, then the `content`
/// of the `og:image` meta tags, each group in document order; and the `href` of every
/// `apple-touch-icon`, `apple-touch-icon-precomposed`, `icon` and `shortcut icon` link,
/// and the `content` of every `og:image` meta tag, is among them.
pub proof fn law_icon_links_order(html: Seq<char>)
    ensures
        ({
            let links = html_icon_links_spec(html);
            let apple = present(html_select_attr(html, "link[rel=\"apple-touch-icon\"]"@, "href"@));
            let pre = present(
                html_select_attr(html, "link[rel=\"apple-touch-icon-precomposed\"]"@, "href"@),
            );
            let icon = present(html_select_attr(html, "link[rel=\"icon\"]"@, "href"@));
            let shortcut = present(html_select_attr(html, "link[rel=\"shortcut icon\"]"@, "href"@));
            let og = present(html_select_attr(html, "meta[property=\"og:image\"]"@, "content"@));
            &&& links.len() == apple.len() + pre.len() + icon.len() + shortcut.len() + og.len()
            &&& links.skip((apple.len() + pre.len() + icon.len()) as int).take(shortcut.len() as int)
                == shortcut
            &&& links.skip((apple.len() + pre.len() + icon.len() + shortcut.len()) as int) == og
            &&& links.take(apple.len() as int) == apple
            &&& links.subrange(apple.len() as int, (apple.len() + pre.len()) as int) == pre
            &&& links.subrange((apple.len() + pre.len()) as int, (apple.len() + pre.len() + icon.len()) as int)
                == icon
        }),
        forall|k: int|
            0 <= k < html_select_attr(html, "link[rel=\"apple-touch-icon-precomposed\"]"@, "href"@).len()
                && (#[trigger] html_select_attr(html, "link[rel=\"apple-touch-icon-precomposed\"]"@, "href"@)[k]) is Some
                ==> html_icon_links_spec(html).contains(
                html_select_attr(html, "link[rel=\"apple-touch-icon-precomposed\"]"@, "href"@)[k]->0,
            ),
        forall|k: int|
            0 <= k < html_select_attr(html, "link[rel=\"apple-touch-icon\"]"@, "href"@).len()
                && (#[trigger] html_select_attr(html, "link[rel=\"apple-touch-icon\"]"@, "href"@)[k]) is Some
                ==> html_icon_links_spec(html).contains(
                html_select_attr(html, "link[rel=\"apple-touch-icon\"]"@, "href"@)[k]->0,
            ),
        forall|k: int|
            0 <= k < html_select_attr(html, "link[rel=\"icon\"]"@, "href"@).len()
                && (#[trigger] html_select_attr(html, "link[rel=\"icon\"]"@, "href"@)[k]) is Some
                ==> html_icon_links_spec(html).contains(
                html_select_attr(html, "link[rel=\"icon\"]"@, "href"@)[k]->0,
            ),
        forall|k: int|
            0 <= k < html_select_attr(html, "link[rel=\"shortcut icon\"]"@, "href"@).len()
                && (#[trigger] html_select_attr(html, "link[rel=\"shortcut icon\"]"@, "href"@)[k]) is Some
                ==> html_icon_links_spec(html).contains(
                html_select_attr(html, "link[rel=\"shortcut icon\"]"@, "href"@)[k]->0,
            ),
        forall|k: int|
            0 <= k < html_select_attr(html, "meta[property=\"og:image\"]"@, "content"@).len()
                && (#[trigger] html_select_attr(html, "meta[property=\"og:image\"]"@, "content"@)[k]) is Some
                ==> html_icon_links_spec(html).contains(
                html_select_attr(html, "meta[property=\"og:image\"]"@, "content"@)[k]->0,
            ),
{
    let links = html_icon_links_spec(html);
    let sa = html_select_attr(html, "link[rel=\"apple-touch-icon\"]"@, "href"@);
    let sp = html_select_attr(html, "link[rel=\"apple-touch-icon-precomposed\"]"@, "href"@);
    let si = html_select_attr(html, "link[rel=\"icon\"]"@, "href"@);
    let ss = html_select_attr(html, "link[rel=\"shortcut icon\"]"@, "href"@);
    let so = html_select_attr(html, "meta[property=\"og:image\"]"@, "content"@);
    let (a, p, i, sh, o) = (present(sa), present(sp), present(si), present(ss), present(so));
    assert(links == a + p + i + sh + o);
    assert(links.take(a.len() as int) =~= a);
    assert(links.subrange(a.len() as int, (a.len() + p.len()) as int) =~= p);
    assert(links.subrange((a.len() + p.len()) as int, (a.len() + p.len() + i.len()) as int) =~= i);
    assert(links.skip((a.len() + p.len() + i.len()) as int).take(sh.len() as int) =~= sh);
    assert(links.skip((a.len() + p.len() + i.len() + sh.len()) as int) =~= o);
    assert forall|k: int| 0 <= k < sp.len() && (#[trigger] sp[k]) is Some implies links.contains(sp[k]->0) by {
        lemma_present_keeps(sp, k);
        let j = choose|j: int| 0 <= j < p.len() && p[j] == sp[k]->0;
        assert(links[a.len() + j] == p[j]);
    }
    assert forall|k: int| 0 <= k < sa.len() && (#[trigger] sa[k]) is Some implies links.contains(sa[k]->0) by {
        lemma_present_keeps(sa, k);
        let j = choose|j: int| 0 <= j < a.len() && a[j] == sa[k]->0;
        assert(links[j] == a[j]);
    }
    assert forall|k: int| 0 <= k < si.len() && (#[trigger] si[k]) is Some implies links.contains(si[k]->0) by {
        lemma_present_keeps(si, k);
        let j = choose|j: int| 0 <= j < i.len() && i[j] == si[k]->0;
        assert(links[a.len() + p.len() + j] == i[j]);
    }
    assert forall|k: int| 0 <= k < ss.len() && (#[trigger] ss[k]) is Some implies links.contains(ss[k]->0) by {
        lemma_present_keeps(ss, k);
        let j = choose|j: int| 0 <= j < sh.len() && sh[j] == ss[k]->0;
        assert(links[a.len() + p.len() + i.len() + j] == sh[j]);
    }
    assert forall|k: int| 0 <= k < so.len() && (#[trigger] so[k]) is Some implies links.contains(so[k]->0) by {
        lemma_present_keeps(so, k);
        let j = choose|j: int| 0 <= j < o.len() && o[j] == so[k]->0;
        assert(links[a.len() + p.len() + i.len() + sh.len() + j] == o[j]);
    }
}

fn append_present(v: &mut Vec<String>, more: Vec<Option<String>>)
    ensures
        views(final(v)@) == views(old(v)@) + present(opt_views(more@)),
{
    let ghost start = views(v@);
    let ghost mv = opt_views(more@);
    let mut i: usize = 0;
    assert(mv.take(0) =~= Seq::<Option<Seq<char>>>::empty());
    while i < more.len()
        invariant
            i <= more.len(),
            mv == opt_views(more@),
            views(v@) == start + present(mv.take(i as int)),
        decreases more.len() - i,
    {
        let ghost prev = views(v@);
        assert(mv.take(i + 1).drop_last() =~= mv.take(i as int));
        assert(mv.take(i + 1).last() == mv[i as int]);
        match &more[i] {
            Some(item) => {
                let item = item.clone();
                v.push(item);
                assert(views(v@) =~= prev.push(mv[i as int]->0));
            },
            None => {},
        }
        i += 1;
        assert(views(v@) =~= start + present(mv.take(i as int)));
    }
    assert(mv.take(more.len() as int) =~= mv);
}

/// Icon links of a page, in the order they are tried.
pub fn collect_html_icon_links(html: &str) -> (r: Vec<String>)
    ensures
        views(r@) == html_icon_links_spec(html@),
{
    let mut links: Vec<String> = Vec::new();
    append_present(&mut links, select_attr(html, "link[rel=\"apple-touch-icon\"]", "href"));
    append_present(
        &mut links,
        select_attr(html, "link[rel=\"apple-touch-icon-precomposed\"]", "href"),
    );
    append_present(&mut links, select_attr(html, "link[rel=\"icon\"]", "href"));
    append_present(&mut links, select_attr(html, "link[rel=\"shortcut icon\"]", "href"));
    append_present(&mut links, select_attr(html, "meta[property=\"og:image\"]", "content"));
    assert(views(links@) =~= html_icon_links_spec(html@));
    links
}

/// The Google favicon service address for `host`.
pub open spec fn google_favicon_spec(host: Seq<char>) -> Seq<char> {
    "https://www.google.com/s2/favicons?domain="@ + host + "&sz=128"@
}

/// Icon addresses tried for a page, in order: the page's own icon links, the conventional
/// `/favicon.ico`, then the Google favicon service when the page has a host.
pub open spec fn favicon_candidates_spec(html_links: Seq<Seq<char>>, page: UrlView) -> Seq<
    Seq<char>,
> {
    html_links + seq!["/favicon.ico"@] + match page.host {
        Some(h) => seq![google_favicon_spec(h)],
        None => seq![],
    }
}

/// Icon addresses tried for a page, in order.
pub fn favicon_candidates(html_links: Vec<String>, page: &UrlParts) -> (r: Vec<String>)
    ensures
        views(r@) == favicon_candidates_spec(views(html_links@), page@),
{
    let mut r = html_links;
    let ghost before = views(r@);
    r.push(String::from_str("/favicon.ico"));
    match page.host_str() {
        Some(h) => {
            let mut g = String::from_str("https://www.google.com/s2/favicons?domain=");
            g.append(h);
            g.append("&sz=128");
            r.push(g);
        },
        None => {},
    }
    assert(views(r@) =~= favicon_candidates_spec(before, page@));
    r
}

/// The origin that relative icon links are resolved against: `{scheme}://{host}`, with
/// `localhost` for a page without a host.
pub open spec fn favicon_origin_text(page: UrlView) -> Seq<char> {
    page.scheme + "://"@ + match page.host {
        Some(h) => h,
        None => "localhost"@,
    }
}

/// A page whose favicon is looked for, with the origin that links are resolved against.
pub struct FaviconPlan {
    pub page: UrlParts,
    pub origin: UrlParts,
}

/// The page (normalised URL) and origin for fetching the favicon of `page_url`.
pub fn favicon_plan(page_url: &str) -> (r: Result<FaviconPlan, FaviconError>)
    ensures
        trim_empty(page_url@) ==> r matches Err(FaviconError::Url(UrlError::Empty)),
        !trim_empty(page_url@) ==> match url_parse(with_scheme(page_url@)) {
            None => r matches Err(FaviconError::Url(UrlError::Invalid)),
            Some(p) => match url_parse(favicon_origin_text(p)) {
                None => r matches Err(FaviconError::Url(UrlError::Invalid)),
                Some(o) => r matches Ok(plan) && plan.page@ == p && plan.origin@ == o,
            },
        },
{
    let page = match normalize_url(page_url) {
        Ok(p) => p,
        Err(e) => {
            return Err(FaviconError::Url(e));
        },
    };
    let mut text = String::from_str(page.scheme());
    text.append("://");
    match page.host_str() {
        Some(h) => text.append(h),
        None => text.append("localhost"),
    }
    match UrlParts::parse(text.as_str()) {
        Some(origin) => Ok(FaviconPlan { page, origin }),
        None => Err(FaviconError::Url(UrlError::Invalid)),
    }
}

pub open spec fn trim_empty(s: Seq<char>) -> bool {
    crate::text::trim(s).len() == 0
}

/// An icon link as an absolute URL: parsed as is when it names a scheme, else joined onto
/// `base`.
pub open spec fn resolve_link_spec(base: UrlView, link: Seq<char>) -> Option<UrlView> {
    if contains(link, "://"@) {
        url_parse(link)
    } else {
        url_join(base.text, link)
    }
}

/// An icon link as an absolute URL, resolving relative links against `base`.
pub fn resolve_link(base: &UrlParts, link: &str) -> (r: Option<UrlParts>)
    ensures
        opt_url_view(r) == resolve_link_spec(base@, link@),
{
    if contains_str(link, "://") {
        UrlParts::parse(link)
    } else {
        base.join(link)
    }
}

/// The resampling filter used when an icon is resized.
#[derive(Debug, Clone, Copy, PartialEq, Eq, Structural)]
pub enum ResizeFilter {
    Nearest,
    Triangle,
    CatmullRom,
    Gaussian,
    Lanczos3,
}

/// The filter that web-app icons are resized with.
pub const ICON_FILTER: ResizeFilter = ResizeFilter::Lanczos3;

/// The PNG signature.
pub open spec fn png_signature() -> Seq<u8> {
    seq![137u8, 80u8, 78u8, 71u8, 13u8, 10u8, 26u8, 10u8]
}

/// The big-endian 32-bit number at `at` in `v`.
pub open spec fn be_u32_at(v: Seq<u8>, at: int) -> int {
    v[at] as int * 16777216 + v[at + 1] as int * 65536 + v[at + 2] as int * 256 + v[at + 3] as int
}

/// A PNG file of `size`×`size` pixels, as its header tells: the signature, then the
/// `IHDR` chunk whose width (bytes 16–19) and height (bytes 20–23) are `size`.
pub open spec fn is_png_of_size(v: Seq<u8>, size: u32) -> bool {
    &&& v.len() >= 24
    &&& v.take(8) == png_signature()
    &&& be_u32_at(v, 16) == size as int
    &&& be_u32_at(v, 20) == size as int
}

/// Whether the image in `bytes` (format guessed from its content) decodes, and its RGBA
/// copy resized to `size`×`size` encodes as PNG.
pub uninterp spec fn png_icon_ok(bytes: Seq<u8>, size: u32) -> bool;

/// Whether the image in `bytes`, read in the format that the file extension `ext` names,
/// decodes, and, resized to `size`×`size` in its own colour type, encodes as PNG.
pub uninterp spec fn png_exact_ok(bytes: Seq<u8>, ext: Seq<char>, size: u32) -> bool;

/// Whether `out` is a PNG encoding of the image in `bytes` (format guessed from its
/// content), converted to RGBA and resized to `size`×`size` with `filter`. A relation, not
/// a function: the pixels are computed in floating point, so the same arguments need not
/// give the same bytes on every machine.
pub uninterp spec fn png_icon_of(bytes: Seq<u8>, size: u32, filter: ResizeFilter, out: Seq<u8>) -> bool;

/// Whether `out` is a PNG encoding of the image in `bytes`, read in the format that the
/// file extension `ext` names, resized to `size`×`size` with `filter` in its own colour
/// type. A relation, as `png_icon_of`.
pub uninterp spec fn png_exact_of(bytes: Seq<u8>, ext: Seq<char>, size: u32, filter: ResizeFilter, out: Seq<u8>) -> bool;

/// Calls `image::ImageReader::with_guessed_format` and `decode`, converts to RGBA,
/// `imageops::resize` to `size`×`size` with `filter`, and `ImageBuffer::write_to` as PNG;
/// `None` when decoding or encoding fails.
///
/// The contract claims that success is `png_icon_ok` of the bytes and size (decoding is
/// integer code with fixed default limits; resizing cannot fail), that a result is a PNG
/// whose header gives `size`×`size` (the `png` encoder writes the signature and then
/// `IHDR` with the width and height, big-endian), and that it stands in the relation
/// `png_icon_of` to the arguments. The pixels are computed in floating point (the Lanczos
/// kernel calls `f32::sin`, whose precision std leaves unspecified), so the result is not
/// claimed to be a function of the arguments.
#[verifier::external_body]
fn encode_png_icon(bytes: &[u8], size: u32, filter: ResizeFilter) -> (r: Option<Vec<u8>>)
    ensures
        r is Some <==> png_icon_ok(bytes@, size),
        r matches Some(v) ==> is_png_of_size(v@, size),
        r matches Some(v) ==> png_icon_of(bytes@, size, filter, v@),
{
    let filter = match filter {
        ResizeFilter::Nearest => image::imageops::FilterType::Nearest,
        ResizeFilter::Triangle => image::imageops::FilterType::Triangle,
        ResizeFilter::CatmullRom => image::imageops::FilterType::CatmullRom,
        ResizeFilter::Gaussian => image::imageops::FilterType::Gaussian,
        ResizeFilter::Lanczos3 => image::imageops::FilterType::Lanczos3,
    };
    let reader = image::ImageReader::new(std::io::Cursor::new(bytes)).with_guessed_format().ok()?;
    let img = reader.decode().ok()?.into_rgba8();
    let resized = image::imageops::resize(&img, size, size, filter);
    let mut out: Vec<u8> = Vec::new();
    resized.write_to(&mut std::io::Cursor::new(&mut out), image::ImageFormat::Png).ok()?;
    Some(out)
}

/// Calls `image::ImageFormat::from_extension` on `ext` and
/// `image::load_from_memory_with_format` (the reading that `image::open` does for a file
/// with that extension), `DynamicImage::resize_exact` to `size`×`size` with `filter` in
/// the image's own colour type, and `DynamicImage::write_to` as PNG; `None` when the
/// extension names no format, or decoding or encoding fails.
///
/// The contract claims that success is `png_exact_ok` of the bytes, extension and size,
/// that a result is a PNG whose header gives `size`×`size`, and that it stands in the
/// relation `png_exact_of` to the arguments; as for `encode_png_icon`, it is not claimed
/// to be a function of them.
#[verifier::external_body]
fn encode_png_exact(bytes: &[u8], ext: &str, size: u32, filter: ResizeFilter) -> (r: Option<Vec<u8>>)
    ensures
        r is Some <==> png_exact_ok(bytes@, ext@, size),
        r matches Some(v) ==> is_png_of_size(v@, size),
        r matches Some(v) ==> png_exact_of(bytes@, ext@, size, filter, v@),
{
    let filter = match filter {
        ResizeFilter::Nearest => image::imageops::FilterType::Nearest,
        ResizeFilter::Triangle => image::imageops::FilterType::Triangle,
        ResizeFilter::CatmullRom => image::imageops::FilterType::CatmullRom,
        ResizeFilter::Gaussian => image::imageops::FilterType::Gaussian,
        ResizeFilter::Lanczos3 => image::imageops::FilterType::Lanczos3,
    };
    let format = image::ImageFormat::from_extension(ext)?;
    let img = image::load_from_memory_with_format(bytes, format).ok()?;
    let resized = img.resize_exact(size, size, filter);
    let mut out: Vec<u8> = Vec::new();
    resized.write_to(&mut std::io::Cursor::new(&mut out), image::ImageFormat::Png).ok()?;
    Some(out)
}

/// Decode arbitrary image bytes into a `size`×`size` PNG (converted to RGBA and resized
/// with `ICON_FILTER`); `FaviconError::Image` exactly when the bytes do not decode or the
/// result does not encode.
pub fn icon_png_sized(bytes: &[u8], size: u32) -> (r: Result<Vec<u8>, FaviconError>)
    ensures
        r is Ok <==> png_icon_ok(bytes@, size),
        r matches Ok(v) ==> is_png_of_size(v@, size),
        r matches Ok(v) ==> png_icon_of(bytes@, size, ICON_FILTER, v@),
        r matches Err(e) ==> e == FaviconError::Image,
{
    match encode_png_icon(bytes, size, ICON_FILTER) {
        Some(v) => Ok(v),
        None => Err(FaviconError::Image),
    }
}

/// Decode arbitrary image bytes into the 128×128 PNG icon of a web app (see
/// `icon_png_sized`).
pub fn icon_png(bytes: &[u8]) -> (r: Result<Vec<u8>, FaviconError>)
    ensures
        r is Ok <==> png_icon_ok(bytes@, ICON_SIZE),
        r matches Ok(v) ==> is_png_of_size(v@, ICON_SIZE),
        r matches Ok(v) ==> png_icon_of(bytes@, ICON_SIZE, ICON_FILTER, v@),
        r matches Err(e) ==> e == FaviconError::Image,
{
    icon_png_sized(bytes, ICON_SIZE)
}

/// The icon PNG made from the body of a response to an icon request: an empty body is
/// refused with `FaviconError::EmptyBody`; any other is decoded as an image (see
/// `icon_png`).
pub fn icon_from_body(body: &[u8]) -> (r: Result<Vec<u8>, FaviconError>)
    ensures
        body@.len() == 0 ==> r == Err::<Vec<u8>, FaviconError>(FaviconError::EmptyBody),
        body@.len() > 0 ==> (r is Ok <==> png_icon_ok(body@, ICON_SIZE)),
        body@.len() > 0 ==> (r matches Ok(v) ==> is_png_of_size(v@, ICON_SIZE)),
        body@.len() > 0 ==> (r matches Ok(v) ==> png_icon_of(body@, ICON_SIZE, ICON_FILTER, v@)),
        body@.len() > 0 ==> (r matches Err(e) ==> e == FaviconError::Image),
{
    if body.len() == 0 {
        return Err(FaviconError::EmptyBody);
    }
    icon_png(body)
}

/// A themed copy of an icon file: the image in `bytes`, read in the format that the file's
/// extension `extension` names, resized to `size`×`size` with `ICON_FILTER` in its own
/// colour type; `FaviconError::Image` exactly when the extension names no image format,
/// the bytes do not decode in it, or the result does not encode.
pub fn themed_icon_png(bytes: &[u8], extension: &str, size: u32) -> (r: Result<Vec<u8>, FaviconError>)
    ensures
        r is Ok <==> png_exact_ok(bytes@, extension@, size),
        r matches Ok(v) ==> is_png_of_size(v@, size),
        r matches Ok(v) ==> png_exact_of(bytes@, extension@, size, ICON_FILTER, v@),
        r matches Err(e) ==> e == FaviconError::Image,
{
    match encode_png_exact(bytes, extension, size, ICON_FILTER) {
        Some(v) => Ok(v),
        None => Err(FaviconError::Image),
    }
}

/// Where the themed copies of an icon go, so that docks resolve it by the theme name
/// (window class): one PNG per size under the user's hicolor theme; none when the name is
/// empty or holds a `/`.
pub open spec fn themed_icon_targets_spec(base: Seq<char>, theme_name: Seq<char>) -> Seq<
    (u32, Seq<char>),
> {
    if theme_name.len() == 0 || theme_name.contains('/') {
        seq![]
    } else {
        seq![
            (16u32, themed_icon_path_spec(base, "16x16"@, theme_name)),
            (32u32, themed_icon_path_spec(base, "32x32"@, theme_name)),
            (48u32, themed_icon_path_spec(base, "48x48"@, theme_name)),
            (64u32, themed_icon_path_spec(base, "64x64"@, theme_name)),
            (128u32, themed_icon_path_spec(base, "128x128"@, theme_name)),
            (256u32, themed_icon_path_spec(base, "256x256"@, theme_name)),
        ]
    }
}

pub open spec fn themed_icon_path_spec(base: Seq<char>, size: Seq<char>, theme_name: Seq<char>) -> Seq<
    char,
> {
    path_join(
        path_join(base, "icons/hicolor/"@ + size + "/apps"@),
        theme_name + ".png"@,
    )
}

pub open spec fn target_views(v: Seq<(u32, String)>) -> Seq<(u32, Seq<char>)> {
    v.map_values(|t: (u32, String)| (t.0, t.1@))
}

fn push_target(v: &mut Vec<(u32, String)>, base: &str, px: u32, size: &str, theme_name: &str)
    ensures
        target_views(final(v)@) == target_views(old(v)@).push(
            (px, themed_icon_path_spec(base@, size@, theme_name@)),
        ),
{
    let mut dir = String::from_str("icons/hicolor/");
    dir.append(size);
    dir.append("/apps");
    let d = path_join_exec(base, dir.as_str());
    let mut f = String::from_str(theme_name);
    f.append(".png");
    v.push((px, path_join_exec(d.as_str(), f.as_str())));
    assert(target_views(v@) =~= target_views(old(v)@).push(
        (px, themed_icon_path_spec(base@, size@, theme_name@)),
    ));
}

/// Where the themed copies of an icon go (see `themed_icon_targets_spec`).
pub fn themed_icon_targets(base: &str, theme_name: &str) -> (r: Vec<(u32, String)>)
    ensures
        target_views(r@) == themed_icon_targets_spec(base@, theme_name@),
{
    let mut v: Vec<(u32, String)> = Vec::new();
    let n = chars_of(theme_name);
    if n.len() == 0 || has_char(&n, '/') {
        assert(target_views(v@) =~= Seq::<(u32, Seq<char>)>::empty());
        return v;
    }
    push_target(&mut v, base, 16, "16x16", theme_name);
    push_target(&mut v, base, 32, "32x32", theme_name);
    push_target(&mut v, base, 48, "48x48", theme_name);
    push_target(&mut v, base, 64, "64x64", theme_name);
    push_target(&mut v, base, 128, "128x128", theme_name);
    push_target(&mut v, base, 256, "256x256", theme_name);
    assert(target_views(v@) =~= themed_icon_targets_spec(base@, theme_name@));
    v
}

} // verus!
