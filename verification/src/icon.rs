//! What one output raster is to look like, and how it is rendered.

use crate::canvas::{
    content_side, content_side_of, covered, frame, framed, lemma_content_side,
    lemma_framed_pixel, margin,
};
use crate::codec::{resample, unsampled};
use crate::mask::{
    apply_mask, corner_dist_sq, in_corner, lemma_masked_pixel, masked, masked_alpha, radius_milli,
};
use crate::raster::{byte_len, pixel_in, transparent, Picture, Raster};
use image::imageops::FilterType;
use vstd::prelude::*;

verus! {

/// The platforms that icons are produced for.
#[derive(Clone, Copy, Debug, PartialEq, Eq, Structural)]
pub enum Platform {
    Windows,
    MacOs,
    Ios,
    Android,
}

/// The corner mask of an icon. The squircle is approximated by the rounded
/// rectangle, so the two round the same corners.
#[derive(Clone, Copy, Debug, PartialEq, Eq, Structural)]
pub enum MaskStyle {
    Unmasked,
    Squircle,
    RoundedRect,
}

/// One output raster that a run has to produce.
#[derive(Clone, Copy, Debug, PartialEq, Eq, Structural)]
pub struct IconSpec {
    pub size: u32,
    pub platform: Platform,
    pub mask_style: MaskStyle,
}

/// The hundredths of the canvas that the content takes on a platform.
pub open spec fn content_percent(platform: Platform) -> int {
    match platform {
        Platform::MacOs => 82,
        Platform::Windows => 90,
        Platform::Ios => 100,
        Platform::Android => 100,
    }
}

/// The side of the content square of an icon.
pub open spec fn content_side_for(spec: IconSpec) -> int {
    content_side(spec.size as int, content_percent(spec.platform))
}

/// Whether the style rounds the corners.
pub open spec fn rounds(style: MaskStyle) -> bool {
    style != MaskStyle::Unmasked
}

/// The canvas of an icon whose resized content is `content`: the content,
/// masked if asked for, centred on a transparent square.
pub open spec fn composed(content: Seq<u8>, c: int, size: int, rounded: bool) -> Seq<u8> {
    framed(
        if rounded {
            masked(content, c)
        } else {
            content
        },
        c,
        size,
    )
}

/// The content of an icon where the resampler has nothing to sample: a
/// source without pixels gives transparent content, and a source that is
/// already the content square is taken as it is.
pub open spec fn ready_content(source: Picture, spec: IconSpec) -> Option<Seq<u8>> {
    unsampled(
        source.bytes,
        source.width,
        source.height,
        content_side_for(spec),
        content_side_for(spec),
    )
}

/// `content` can be what the resampler makes of the source for the icon: it
/// has the bytes of the content square, and where the resampler has nothing
/// to sample it is the content that [`ready_content`] names.
pub open spec fn is_content(content: Seq<u8>, source: Picture, spec: IconSpec) -> bool {
    &&& content.len() == byte_len(content_side_for(spec), content_side_for(spec))
    &&& ready_content(source, spec) matches Some(known) ==> content == known
}

/// `image` is the canvas of the icon rendered from the source: whatever the
/// resampler made of the source, the canvas is that content composed as
/// `spec` says.
pub open spec fn is_render(image: Seq<u8>, source: Picture, spec: IconSpec) -> bool {
    exists|content: Seq<u8>|
        is_content(content, source, spec) && image == #[trigger] composed(
            content,
            content_side_for(spec),
            spec.size as int,
            rounds(spec.mask_style),
        )
}

/// The source and the canvas are small enough for the resampler: its
/// intermediate buffer holds sixteen bytes for every source column and
/// output row, and no buffer may exceed `isize::MAX` bytes.
pub open spec fn renderable(source_width: int, size: int) -> bool {
    16 * source_width * size <= isize::MAX && 4 * size * size <= isize::MAX
}

/// What a composed canvas holds, pixel by pixel: transparent outside the
/// content square; inside it the content's colours, with the alpha that the
/// mask leaves where the corners are rounded.
pub proof fn lemma_composed_pixel(
    content: Seq<u8>,
    c: int,
    size: int,
    rounded: bool,
    x: int,
    y: int,
)
    requires
        content.len() == byte_len(c, c),
        0 <= c <= size,
        0 <= x < size,
        0 <= y < size,
    ensures
        composed(content, c, size, rounded).len() == byte_len(size, size),
        !covered(x, y, size, c) ==> pixel_in(composed(content, c, size, rounded), size, x, y)
            == transparent(),
        covered(x, y, size, c) ==> ({
            let m = margin(size, c);
            let inner = pixel_in(content, c, x - m, y - m);
            let shown = pixel_in(composed(content, c, size, rounded), size, x, y);
            &&& shown.r == inner.r
            &&& shown.g == inner.g
            &&& shown.b == inner.b
            &&& shown.a == if rounded {
                masked_alpha(inner.a as int, x - m, y - m, c)
            } else {
                inner.a as int
            }
        }),
{
    let m = margin(size, c);
    if rounded {
        lemma_framed_pixel(masked(content, c), c, size, x, y);
        if covered(x, y, size, c) {
            lemma_masked_pixel(content, c, x - m, y - m);
        }
    } else {
        lemma_framed_pixel(content, c, size, x, y);
    }
}

/// The macOS icon of side 256 with rounded corners: its corner pixel is
/// fully transparent, and the pixel at the centre of the canvas is the pixel
/// of the resized content that lies there, alpha included.
pub proof fn lemma_mac_icon_256(content: Seq<u8>)
    requires
        content.len() == byte_len(210, 210),
    ensures
        content_side(256, 82) == 210,
        margin(256, 210) == 23,
        pixel_in(composed(content, 210, 256, true), 256, 0, 0) == transparent(),
        pixel_in(composed(content, 210, 256, true), 256, 128, 128) == pixel_in(
            content,
            210,
            105,
            105,
        ),
{
    lemma_composed_pixel(content, 210, 256, true, 0, 0);
    lemma_composed_pixel(content, 210, 256, true, 128, 128);
    assert(covered(128, 128, 256, 210));
    assert(!covered(0, 0, 256, 210));
    assert(crate::mask::radius_whole(210) == 46);
    assert(crate::mask::corner_reach(105, 210) == 0);
}

/// The macOS icon of side `size` with rounded corners.
pub open spec fn mac_icon(size: u32) -> IconSpec {
    IconSpec { size, platform: Platform::MacOs, mask_style: MaskStyle::Squircle }
}

/// The rounded macOS icon of side 256, rendered from any source: its corner
/// pixel is fully transparent. Rendered from a source that is already the
/// content square of side 210, its centre pixel is the source's pixel at the
/// centre of the content, alpha included.
pub proof fn lemma_mac_render_256(image: Seq<u8>, source: Picture)
    requires
        is_render(image, source, mac_icon(256)),
    ensures
        pixel_in(image, 256, 0, 0) == transparent(),
        source.width == 210 && source.height == 210 ==> pixel_in(image, 256, 128, 128)
            == pixel_in(source.bytes, 210, 105, 105),
{
    let content = choose|content: Seq<u8>|
        is_content(content, source, mac_icon(256)) && image == #[trigger] composed(
            content,
            content_side_for(mac_icon(256)),
            256,
            true,
        );
    lemma_mac_icon_256(content);
}

/// In a rounded macOS icon of any side, a content pixel that lies in a
/// corner zone, farther than the radius from the centre of its arc, is fully
/// transparent, whatever the icon was rendered from.
pub proof fn lemma_mac_icon_corner(image: Seq<u8>, source: Picture, size: u32, x: int, y: int)
    requires
        is_render(image, source, mac_icon(size)),
        0 <= x < content_side(size as int, 82),
        0 <= y < content_side(size as int, 82),
        in_corner(x, y, content_side(size as int, 82)),
        corner_dist_sq(x, y, content_side(size as int, 82)) > radius_milli(
            content_side(size as int, 82),
        ) * radius_milli(content_side(size as int, 82)),
    ensures
        ({
            let p = margin(size as int, content_side(size as int, 82));
            pixel_in(image, size as int, x + p, y + p).a == 0
        }),
{
    let c = content_side(size as int, 82);
    let p = margin(size as int, c);
    let content = choose|content: Seq<u8>|
        is_content(content, source, mac_icon(size)) && image == #[trigger] composed(
            content,
            c,
            size as int,
            true,
        );
    lemma_content_side(size as int, 82);
    lemma_composed_pixel(content, c, size as int, true, x + p, y + p);
    assert(covered(x + p, y + p, size as int, c));
}

/// Masking is idempotent at the extreme corner. Let `first` be the rounded
/// macOS icon of side `size` rendered from any source, and `second` the
/// rounded macOS icon of the same side rendered from `first`. A content
/// pixel beyond the radius of its corner is fully transparent in the first
/// and again in the second. Nothing is asked of the sizes, and nothing of
/// what the resampler made of either source.
pub proof fn lemma_mac_mask_twice(
    source: Picture,
    first: Seq<u8>,
    second: Seq<u8>,
    size: u32,
    x: int,
    y: int,
)
    requires
        is_render(first, source, mac_icon(size)),
        is_render(
            second,
            (Picture { width: size as int, height: size as int, bytes: first }),
            mac_icon(size),
        ),
        0 <= x < content_side(size as int, 82),
        0 <= y < content_side(size as int, 82),
        in_corner(x, y, content_side(size as int, 82)),
        corner_dist_sq(x, y, content_side(size as int, 82)) > radius_milli(
            content_side(size as int, 82),
        ) * radius_milli(content_side(size as int, 82)),
    ensures
        ({
            let p = margin(size as int, content_side(size as int, 82));
            &&& pixel_in(first, size as int, x + p, y + p).a == 0
            &&& pixel_in(second, size as int, x + p, y + p).a == 0
        }),
{
    lemma_mac_icon_corner(first, source, size, x, y);
    lemma_mac_icon_corner(
        second,
        Picture { width: size as int, height: size as int, bytes: first },
        size,
        x,
        y,
    );
}

/// `content_percent`, computed.
pub fn content_percent_of(platform: Platform) -> (p: u8)
    ensures
        p == content_percent(platform),
        p <= 100,
{
    match platform {
        Platform::MacOs => 82,
        Platform::Windows => 90,
        Platform::Ios => 100,
        Platform::Android => 100,
    }
}

/// Masks the resized content if the style asks for it, and centres it on a
/// transparent canvas of side `size`.
pub fn compose_icon(content: &Raster, size: u32, style: MaskStyle) -> (out: Raster)
    requires
        content.spec_width() == content.spec_height(),
        content.spec_width() <= size,
        byte_len(size as int, size as int) <= usize::MAX,
    ensures
        out.spec_width() == size,
        out.spec_height() == size,
        out.bytes() == composed(
            content.bytes(),
            content.spec_width(),
            size as int,
            rounds(style),
        ),
{
    match style {
        MaskStyle::Unmasked => frame(content, size),
        _ => {
            let rounded = apply_mask(content);
            frame(&rounded, size)
        },
    }
}

/// Renders one icon from the source image: the source is resampled to the
/// content square with the Lanczos filter of three lobes, then composed.
///
/// The resampled pixels are whatever the resampler gives for a square of the
/// right side; everything after that is fixed by [`composed`]. Where the
/// resampler has nothing to sample the whole canvas is fixed: it is composed
/// of the content that [`ready_content`] names.
pub fn render_icon(source: &Raster, spec: &IconSpec) -> (out: Raster)
    requires
        renderable(source.spec_width(), spec.size as int),
    ensures
        out.spec_width() == spec.size,
        out.spec_height() == spec.size,
        is_render(out.bytes(), source@, *spec),
        ready_content(source@, *spec) matches Some(content) ==> out.bytes() == composed(
            content,
            content_side_for(*spec),
            spec.size as int,
            rounds(spec.mask_style),
        ),
{
    let size: u32 = spec.size;
    let c: u32 = content_side_of(size, content_percent_of(spec.platform));
    let sw: u32 = source.width();
    let sh: u32 = source.height();
    proof {
        assert(16 * sw * c <= 16 * sw * size && 4 * c * c <= 4 * size * size) by (nonlinear_arith)
            requires
                0 <= c <= size,
                0 <= sw,
        ;
    }
    let resized = resample(source.as_bytes().as_slice(), sw, sh, c, c, FilterType::Lanczos3);
    let pixels: Vec<u8> = match resized {
        Some(pixels) => pixels,
        None => {
            proof {
                assert(false);
            }
            Vec::new()
        },
    };
    let content = Raster::assemble(c, c, pixels);
    let out = compose_icon(&content, size, spec.mask_style);
    proof {
        assert(is_content(content.bytes(), source@, *spec));
        assert(out.bytes() == composed(
            content.bytes(),
            content_side_for(*spec),
            spec.size as int,
            rounds(spec.mask_style),
        ));
    }
    out
}

/// Renders the macOS icon of side `size` with rounded corners: content at
/// 82 % of the canvas, masked, on a transparent margin.
pub fn apply_mac_mask(source: &Raster, size: u32) -> (out: Raster)
    requires
        renderable(source.spec_width(), size as int),
    ensures
        out.spec_width() == size,
        out.spec_height() == size,
        is_render(out.bytes(), source@, mac_icon(size)),
        ready_content(source@, mac_icon(size)) matches Some(content) ==> out.bytes() == composed(
            content,
            content_side(size as int, 82),
            size as int,
            true,
        ),
{
    let spec = IconSpec { size, platform: Platform::MacOs, mask_style: MaskStyle::Squircle };
    render_icon(source, &spec)
}

} // verus!
