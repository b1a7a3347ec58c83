//! Producing the files of each platform from the decoded source image.

use crate::codec::{
    decode_rgba, decoding, encode_png, icns_file, ico_layout, image_error_text,
    is_image_extension, png_encoding,
};
use crate::container::{
    consistent, declared_sizes, declared_squares, family_packable, icns_declared, pack_icns,
    pack_ico, packable, packed, packed_elements, IconEntry, MacContainer, WindowsContainer,
};
use crate::errors::IconError;
use crate::icon::{is_render, render_icon, renderable, IconSpec, MaskStyle, Platform};
use crate::raster::{Picture, Raster};
use crate::readback::{
    icns_listed, ico_declared, lemma_icns_round_trip, lemma_ico_round_trip,
};
use crate::text::{decimal, push_decimal};
use vstd::prelude::*;

verus! {

/// The sides of the entries of the Windows container, in order.
pub open spec fn windows_sizes() -> Seq<u32> {
    seq![16u32, 24u32, 32u32, 48u32, 64u32, 128u32, 256u32]
}

/// The sides of the icons of the macOS container, in order.
pub open spec fn mac_sizes() -> Seq<u32> {
    seq![16u32, 32u32, 64u32, 128u32, 256u32, 512u32, 1024u32]
}

/// The sides of the flat images written for a mobile platform.
pub open spec fn flat_sizes() -> Seq<u32> {
    seq![512u32, 1024u32]
}

/// The sides that a platform's icons are produced in.
pub open spec fn platform_sizes(platform: Platform) -> Seq<u32> {
    match platform {
        Platform::Windows => windows_sizes(),
        Platform::MacOs => mac_sizes(),
        Platform::Ios => flat_sizes(),
        Platform::Android => flat_sizes(),
    }
}

/// The mask of a platform's icons: macOS icons get the squircle when
/// masking is asked for, the others none.
pub open spec fn platform_mask(platform: Platform, apply_mask: bool) -> MaskStyle {
    if platform == Platform::MacOs && apply_mask {
        MaskStyle::Squircle
    } else {
        MaskStyle::Unmasked
    }
}

/// The rasters that a run produces for a platform, one for each side.
pub open spec fn platform_specs(platform: Platform, apply_mask: bool) -> Seq<IconSpec> {
    Seq::new(
        platform_sizes(platform).len(),
        |i: int|
            (IconSpec {
                size: platform_sizes(platform)[i],
                platform,
                mask_style: platform_mask(platform, apply_mask),
            }),
    )
}

/// Each side as width and height.
pub open spec fn squares(sides: Seq<u32>) -> Seq<(u32, u32)> {
    Seq::new(sides.len(), |i: int| (sides[i], sides[i]))
}

/// The largest side that a platform asks for.
pub open spec fn largest_side(platform: Platform) -> int {
    match platform {
        Platform::Windows => 256,
        _ => 1024,
    }
}

/// The rasters are renders of the source for the given specs, one for one.
pub open spec fn rendered(entries: Seq<IconEntry>, source: Picture, specs: Seq<IconSpec>) -> bool {
    &&& entries.len() == specs.len()
    &&& forall|i: int|
        0 <= i < specs.len() ==> (#[trigger] entries[i]).declared == specs[i].size
            && entries[i].image.spec_width() == specs[i].size && entries[i].image.spec_height()
            == specs[i].size && is_render(entries[i].image.bytes(), source, specs[i])
}

/// The name of a flat image: `icon_`, the side, `x`, the side, `.png`.
pub open spec fn flat_name(side: u32) -> Seq<char> {
    "icon_"@ + decimal(side as nat) + "x"@ + decimal(side as nat) + ".png"@
}

/// The kind of a generated file.
#[derive(Clone, Copy, Debug, PartialEq, Eq, Structural)]
pub enum ArtifactFormat {
    WindowsContainer,
    MacContainer,
    FlatPng,
}

/// A file that a run has produced: its name inside the output directory,
/// its kind and its content, whose length is the file's.
#[derive(Debug)]
pub struct GeneratedArtifact {
    pub file_name: String,
    pub format: ArtifactFormat,
    pub bytes: Vec<u8>,
}

impl GeneratedArtifact {
    /// The length of the file in bytes.
    pub fn byte_length(&self) -> (n: usize)
        ensures
            n == self.bytes@.len(),
    {
        self.bytes.len()
    }
}

/// Within a platform no side occurs twice: each pair of platform and size is
/// produced exactly once.
pub proof fn lemma_specs_distinct(platform: Platform, apply_mask: bool, i: int, j: int)
    requires
        0 <= i < j < platform_specs(platform, apply_mask).len(),
    ensures
        platform_specs(platform, apply_mask)[i].size != platform_specs(platform, apply_mask)[j].size,
        platform_specs(platform, apply_mask)[i].platform == platform,
{
}

/// A source that can be rendered at a side can be rendered at any smaller one.
pub proof fn lemma_renderable_smaller(source_width: int, size: int, larger: int)
    requires
        0 <= source_width,
        0 <= size <= larger,
        renderable(source_width, larger),
    ensures
        renderable(source_width, size),
{
    assert(16 * source_width * size <= 16 * source_width * larger && 4 * size * size <= 4
        * larger * larger) by (nonlinear_arith)
        requires
            0 <= source_width,
            0 <= size <= larger,
    ;
}

/// What the decoder gave, as a picture.
pub open spec fn decoded_picture(decoded: (u32, u32, Seq<u8>)) -> Picture {
    Picture { width: decoded.0 as int, height: decoded.1 as int, bytes: decoded.2 }
}

/// Decodes the bytes of the source image, read in the format that its file
/// extension names.
///
/// The raster is exactly what the decoder makes of the bytes, and the call
/// succeeds exactly when the decoder does. Any failure is a decode failure,
/// and an extension that names no image format always is one.
pub fn decode_source(bytes: &[u8], extension: &str) -> (r: Result<Raster, IconError>)
    ensures
        match r {
            Ok(img) => decoding(bytes@, extension@) matches Some(decoded) && img@
                == decoded_picture(decoded),
            Err(e) => e is DecodeFailure && decoding(bytes@, extension@) is None,
        },
        !is_image_extension(extension@) ==> r is Err,
{
    match decode_rgba(bytes, extension) {
        Err(None) => Err(IconError::DecodeFailure(String::from_str("unsupported image format"))),
        Err(Some(error)) => Err(IconError::DecodeFailure(image_error_text(&error))),
        Ok((width, height, data)) => Ok(Raster::assemble(width, height, data)),
    }
}

/// `platform_sizes`, computed.
pub fn sizes_for(platform: Platform) -> (sides: Vec<u32>)
    ensures
        sides@ == platform_sizes(platform),
{
    let mut sides: Vec<u32> = Vec::new();
    match platform {
        Platform::Windows => {
            sides.push(16);
            sides.push(24);
            sides.push(32);
            sides.push(48);
            sides.push(64);
            sides.push(128);
            sides.push(256);
        },
        Platform::MacOs => {
            sides.push(16);
            sides.push(32);
            sides.push(64);
            sides.push(128);
            sides.push(256);
            sides.push(512);
            sides.push(1024);
        },
        _ => {
            sides.push(512);
            sides.push(1024);
        },
    }
    proof {
        assert(sides@ =~= platform_sizes(platform));
    }
    sides
}

/// The list of rasters to produce for a platform.
pub fn icon_specs(platform: Platform, apply_mask: bool) -> (specs: Vec<IconSpec>)
    ensures
        specs@ == platform_specs(platform, apply_mask),
{
    let sides = sizes_for(platform);
    let mask_style = match platform {
        Platform::MacOs => if apply_mask {
            MaskStyle::Squircle
        } else {
            MaskStyle::Unmasked
        },
        _ => MaskStyle::Unmasked,
    };
    let mut specs: Vec<IconSpec> = Vec::new();
    let mut i: usize = 0;
    while i < sides.len()
        invariant
            i <= sides@.len(),
            sides@ == platform_sizes(platform),
            mask_style == platform_mask(platform, apply_mask),
            specs@.len() == i,
            forall|j: int| 0 <= j < i ==> specs@[j] == platform_specs(platform, apply_mask)[j],
        decreases sides@.len() - i,
    {
        specs.push(IconSpec { size: sides[i], platform, mask_style });
        i = i + 1;
    }
    proof {
        assert(specs@ =~= platform_specs(platform, apply_mask));
    }
    specs
}

/// `renderable`, computed.
pub fn can_render(source_width: u32, size: u32) -> (yes: bool)
    ensures
        yes == renderable(source_width as int, size as int),
{
    let limit: u128 = isize::MAX as u128;
    let columns: u128 = 16 * (source_width as u128);
    let side: u128 = size as u128;
    assert(columns * side <= 16 * 0xFFFF_FFFF * 0xFFFF_FFFF && 4 * side * side <= 4 * 0xFFFF_FFFF
        * 0xFFFF_FFFF && columns * side == 16 * source_width * size) by (nonlinear_arith)
        requires
            columns == 16 * source_width,
            source_width <= 0xFFFF_FFFF,
            side == size,
            side <= 0xFFFF_FFFF,
    ;
    columns * side <= limit && 4 * side * side <= limit
}

/// Renders one raster for each spec, in order.
pub fn render_set(source: &Raster, specs: &Vec<IconSpec>) -> (entries: Vec<IconEntry>)
    requires
        forall|i: int|
            0 <= i < specs@.len() ==> renderable(
                source.spec_width(),
                (#[trigger] specs@[i]).size as int,
            ),
    ensures
        rendered(entries@, source@, specs@),
{
    let mut entries: Vec<IconEntry> = Vec::new();
    let mut i: usize = 0;
    while i < specs.len()
        invariant
            i <= specs@.len(),
            forall|i: int|
                0 <= i < specs@.len() ==> renderable(
                    source.spec_width(),
                    (#[trigger] specs@[i]).size as int,
                ),
            entries@.len() == i,
            forall|j: int|
                0 <= j < i ==> (#[trigger] entries@[j]).declared == specs@[j].size
                    && entries@[j].image.spec_width() == specs@[j].size
                    && entries@[j].image.spec_height() == specs@[j].size && is_render(
                    entries@[j].image.bytes(),
                    source@,
                    specs@[j],
                ),
        decreases specs@.len() - i,
    {
        let spec = specs[i];
        let image = render_icon(source, &spec);
        entries.push(IconEntry { declared: spec.size, image });
        i = i + 1;
    }
    entries
}

/// Renders the rasters of a platform if the source is small enough for the
/// largest of them.
fn render_platform(source: &Raster, platform: Platform, apply_mask: bool) -> (r: Result<
    Vec<IconEntry>,
    IconError,
>)
    ensures
        match r {
            Ok(entries) => renderable(source.spec_width(), largest_side(platform)) && rendered(
                entries@,
                source@,
                platform_specs(platform, apply_mask),
            ),
            Err(e) => !renderable(source.spec_width(), largest_side(platform))
                && e is ContainerEncodeFailure,
        },
{
    let largest: u32 = match platform {
        Platform::Windows => 256,
        _ => 1024,
    };
    if !can_render(source.width(), largest) {
        return Err(
            IconError::ContainerEncodeFailure(
                String::from_str("source image is too large to be resized"),
            ),
        );
    }
    let specs = icon_specs(platform, apply_mask);
    proof {
        assert forall|i: int| 0 <= i < specs@.len() implies renderable(
            source.spec_width(),
            (#[trigger] specs@[i]).size as int,
        ) by {
            lemma_renderable_smaller(
                source.spec_width(),
                specs@[i].size as int,
                largest_side(platform),
            );
        }
    }
    Ok(render_set(source, &specs))
}

/// Produces the Windows container: seven rasters with the content at 90 % of
/// the canvas, unmasked, packed in increasing size.
///
/// On success the directory declares exactly the sides of
/// [`windows_sizes`], once each and in that order, and its entries are the
/// encodings of renders of the source. Failure is always an encode failure,
/// and it has one of two causes: the source is too large to be resized, or
/// the encoder or the format refuses the renders. It never comes from a
/// raster of the wrong size.
pub fn generate_native_ico(source: &Raster) -> (r: Result<WindowsContainer, IconError>)
    ensures
        match r {
            Ok(c) => {
                &&& declared_sizes(c.entries()) == squares(windows_sizes())
                &&& c.holds_icons()
                &&& exists|entries: Seq<IconEntry>|
                    #![trigger packed(entries, 7)]
                    rendered(entries, source@, platform_specs(Platform::Windows, false)) && packable(
                        entries,
                        7,
                    ) && c.entries() == packed(entries, 7)
            },
            Err(e) => e is ContainerEncodeFailure && generation_fails(
                source@,
                Platform::Windows,
                false,
            ),
        },
        !renderable(source.spec_width(), 256) ==> r is Err,
{
    let entries = match render_platform(source, Platform::Windows, false) {
        Ok(entries) => entries,
        Err(e) => {
            return Err(e);
        },
    };
    match pack_ico(&entries) {
        Err(e) => {
            proof {
                lemma_renders_consistent(entries@, source@, Platform::Windows, false);
                assert(refused_renders(entries@, source@, Platform::Windows, false));
            }
            Err(e)
        },
        Ok(c) => {
            proof {
                assert(declared_sizes(c.entries()) =~= squares(windows_sizes()));
            }
            Ok(c)
        },
    }
}

/// Produces the macOS container: seven rasters with the content at 82 % of
/// the canvas, its corners rounded if `apply_mask` is set, packed in
/// increasing size.
///
/// On success the family lists exactly the sides of [`mac_sizes`], once each
/// and in that order, and its elements are the encodings of renders of the
/// source. Failure is always an encode failure, and it has one of two causes:
/// the source is too large to be resized, or the encoder or the format
/// refuses the renders. It never comes from a raster of the wrong size.
pub fn generate_native_icns(source: &Raster, apply_mask: bool) -> (r: Result<
    MacContainer,
    IconError,
>)
    ensures
        match r {
            Ok(c) => {
                &&& icns_declared(c.elements()) == squares(mac_sizes())
                &&& exists|entries: Seq<IconEntry>|
                    #![trigger packed_elements(entries, 7)]
                    rendered(entries, source@, platform_specs(Platform::MacOs, apply_mask))
                        && family_packable(entries, 7) && c.elements() == packed_elements(
                        entries,
                        7,
                    )
            },
            Err(e) => e is ContainerEncodeFailure && generation_fails(
                source@,
                Platform::MacOs,
                apply_mask,
            ),
        },
        !renderable(source.spec_width(), 1024) ==> r is Err,
{
    let entries = match render_platform(source, Platform::MacOs, apply_mask) {
        Ok(entries) => entries,
        Err(e) => {
            return Err(e);
        },
    };
    match pack_icns(&entries) {
        Err(e) => {
            proof {
                lemma_renders_consistent(entries@, source@, Platform::MacOs, apply_mask);
                assert(refused_renders(entries@, source@, Platform::MacOs, apply_mask));
            }
            Err(e)
        },
        Ok(c) => {
            proof {
                assert(declared_squares(entries@, 7) =~= squares(mac_sizes()));
            }
            Ok(c)
        },
    }
}

/// `flat_name`, computed.
pub fn flat_name_of(side: u32) -> (name: String)
    ensures
        name@ == flat_name(side),
{
    let mut name = String::from_str("icon_");
    push_decimal(&mut name, side as u64);
    name.append("x");
    push_decimal(&mut name, side as u64);
    name.append(".png");
    name
}

/// The file of a Windows container, named `icon.ico`. Its directory, read
/// back, declares what the container's entries declare, as long as no side
/// exceeds 256, the largest that a directory can name.
pub fn windows_artifact(container: &WindowsContainer) -> (file: GeneratedArtifact)
    ensures
        file.file_name@ == "icon.ico"@,
        file.format == ArtifactFormat::WindowsContainer,
        ico_layout(file.bytes@, false, container.entries()),
        (forall|i: int|
            0 <= i < container.entries().len() ==> 1 <= (#[trigger] container.entries()[i]).0
                <= 256 && 1 <= container.entries()[i].1 <= 256) ==> ico_declared(file.bytes@)
            == Some(declared_sizes(container.entries())),
{
    let bytes = container.to_bytes();
    proof {
        if forall|i: int|
            0 <= i < container.entries().len() ==> 1 <= (#[trigger] container.entries()[i]).0
                <= 256 && 1 <= container.entries()[i].1 <= 256 {
            lemma_ico_round_trip(bytes@, container.entries());
        }
    }
    GeneratedArtifact {
        file_name: String::from_str("icon.ico"),
        format: ArtifactFormat::WindowsContainer,
        bytes,
    }
}

/// The file of a macOS container, named `icon.icns`.
pub fn mac_artifact(container: &MacContainer) -> (file: GeneratedArtifact)
    ensures
        file.file_name@ == "icon.icns"@,
        file.format == ArtifactFormat::MacContainer,
        file.bytes@ == icns_file(container.elements()),
        icns_listed(file.bytes@) == Some(icns_declared(container.elements())),
{
    let bytes = container.to_bytes();
    proof {
        lemma_icns_round_trip(container.elements());
    }
    GeneratedArtifact {
        file_name: String::from_str("icon.icns"),
        format: ArtifactFormat::MacContainer,
        bytes,
    }
}

/// The file of one flat image: the PNG encoding of the raster, under the
/// name that its side gives. Fails when the raster is not a square of the
/// declared side or the encoder reports an error.
pub fn flat_artifact(entry: &IconEntry) -> (r: Result<GeneratedArtifact, IconError>)
    ensures
        match r {
            Ok(file) => {
                &&& entry.image.spec_width() == entry.declared
                &&& entry.image.spec_height() == entry.declared
                &&& file.file_name@ == flat_name(entry.declared)
                &&& file.format == ArtifactFormat::FlatPng
                &&& png_encoding(entry.declared, entry.declared, entry.image.bytes()) == Some(
                    file.bytes@,
                )
            },
            Err(e) => {
                &&& e is ContainerEncodeFailure
                &&& (entry.image.spec_width() != entry.declared || entry.image.spec_height()
                    != entry.declared || png_encoding(
                    entry.declared,
                    entry.declared,
                    entry.image.bytes(),
                ) is None)
            },
        },
{
    let side: u32 = entry.declared;
    if entry.image.width() != side || entry.image.height() != side {
        return Err(
            IconError::ContainerEncodeFailure(
                String::from_str("raster does not have the declared size"),
            ),
        );
    }
    match encode_png(side, side, entry.image.as_bytes().as_slice()) {
        Err(error) => Err(IconError::ContainerEncodeFailure(image_error_text(&error))),
        Ok(bytes) => Ok(
            GeneratedArtifact {
                file_name: flat_name_of(side),
                format: ArtifactFormat::FlatPng,
                bytes,
            },
        ),
    }
}

/// A raster that can be written as a flat image: a square of its declared
/// side that the PNG encoder takes.
pub open spec fn flat_ok(entry: IconEntry) -> bool {
    entry.image.spec_width() == entry.declared && entry.image.spec_height() == entry.declared
        && png_encoding(entry.declared, entry.declared, entry.image.bytes()) is Some
}

/// What the files of a platform are, given its rasters: for a desktop
/// platform one container that holds the rasters' encodings in order and
/// that, read back, declares the rasters' sizes (a Windows directory cannot
/// name a side above 256); for a mobile platform one PNG for each raster,
/// under the name that its side gives.
pub open spec fn platform_files(
    files: Seq<GeneratedArtifact>,
    platform: Platform,
    entries: Seq<IconEntry>,
) -> bool {
    let n = entries.len() as int;
    match platform {
        Platform::Windows => {
            &&& files.len() == 1
            &&& files[0].file_name@ == "icon.ico"@
            &&& files[0].format == ArtifactFormat::WindowsContainer
            &&& ico_layout(files[0].bytes@, false, packed(entries, n))
            &&& (forall|i: int| 0 <= i < n ==> (#[trigger] entries[i]).declared <= 256)
                ==> ico_declared(files[0].bytes@) == Some(declared_squares(entries, n))
        },
        Platform::MacOs => {
            &&& files.len() == 1
            &&& files[0].file_name@ == "icon.icns"@
            &&& files[0].format == ArtifactFormat::MacContainer
            &&& files[0].bytes@ == icns_file(packed_elements(entries, n))
            &&& icns_listed(files[0].bytes@) == Some(declared_squares(entries, n))
        },
        _ => {
            &&& files.len() == n
            &&& forall|i: int|
                0 <= i < n ==> (#[trigger] files[i]).file_name@ == flat_name(entries[i].declared)
                    && files[i].format == ArtifactFormat::FlatPng && png_encoding(
                    entries[i].declared,
                    entries[i].declared,
                    entries[i].image.bytes(),
                ) == Some(files[i].bytes@)
        },
    }
}

/// Whether the rasters of a platform can be packed into its files.
pub open spec fn platform_packable(platform: Platform, entries: Seq<IconEntry>) -> bool {
    match platform {
        Platform::Windows => packable(entries, entries.len() as int),
        Platform::MacOs => family_packable(entries, entries.len() as int),
        _ => forall|i: int| 0 <= i < entries.len() ==> flat_ok(#[trigger] entries[i]),
    }
}

/// The rasters are renders of the source for the platform, each a square of
/// exactly its declared side, and still the platform's files cannot be made
/// of them: the encoder refuses one of them, or the container would outgrow
/// its format.
pub open spec fn refused_renders(
    entries: Seq<IconEntry>,
    source: Picture,
    platform: Platform,
    apply_mask: bool,
) -> bool {
    &&& rendered(entries, source, platform_specs(platform, apply_mask))
    &&& forall|i: int| 0 <= i < entries.len() ==> consistent(#[trigger] entries[i])
    &&& !platform_packable(platform, entries)
}

/// The two ways in which generating for a platform fails: the source is too
/// large to be resized to the platform's largest side, or the renders of it
/// are refused by the encoder or the format. A raster of the wrong size is
/// not among them: every render has exactly its declared size.
pub open spec fn generation_fails(source: Picture, platform: Platform, apply_mask: bool) -> bool {
    !renderable(source.width, largest_side(platform)) || exists|entries: Seq<IconEntry>| #[trigger]
        refused_renders(entries, source, platform, apply_mask)
}

/// Renders of a platform's specs have their declared sizes.
pub proof fn lemma_renders_consistent(
    entries: Seq<IconEntry>,
    source: Picture,
    platform: Platform,
    apply_mask: bool,
)
    requires
        rendered(entries, source, platform_specs(platform, apply_mask)),
    ensures
        forall|i: int| 0 <= i < entries.len() ==> consistent(#[trigger] entries[i]),
{
    let specs = platform_specs(platform, apply_mask);
    assert forall|i: int| 0 <= i < entries.len() implies consistent(#[trigger] entries[i]) by {
        assert(specs[i].size == platform_sizes(platform)[i]);
        assert(1 <= platform_sizes(platform)[i] <= 1024);
    }
}

/// Packs the rasters of a platform into its files: one container for a
/// desktop platform, one PNG for each raster of a mobile platform.
///
/// The call succeeds exactly when every raster is a square of its declared
/// side, the encoder takes each, and a container stays within its format;
/// otherwise it fails with an encode failure.
pub fn pack_platform(platform: Platform, entries: &Vec<IconEntry>) -> (r: Result<
    Vec<GeneratedArtifact>,
    IconError,
>)
    ensures
        match r {
            Ok(files) => platform_packable(platform, entries@) && platform_files(
                files@,
                platform,
                entries@,
            ),
            Err(e) => e is ContainerEncodeFailure && !platform_packable(platform, entries@),
        },
{
    let mut files: Vec<GeneratedArtifact> = Vec::new();
    match platform {
        Platform::Windows => {
            let container = match pack_ico(entries) {
                Ok(container) => container,
                Err(e) => {
                    return Err(e);
                },
            };
            let file = windows_artifact(&container);
            proof {
                let n = entries@.len() as int;
                assert(declared_sizes(container.entries()) =~= declared_squares(entries@, n));
                if forall|i: int| 0 <= i < n ==> (#[trigger] entries@[i]).declared <= 256 {
                    assert forall|i: int| 0 <= i < container.entries().len() implies 1 <= (
                    #[trigger] container.entries()[i]).0 <= 256 && 1
                        <= container.entries()[i].1 <= 256 by {
                        assert(consistent(entries@[i]));
                    }
                }
            }
            files.push(file);
        },
        Platform::MacOs => {
            let container = match pack_icns(entries) {
                Ok(container) => container,
                Err(e) => {
                    return Err(e);
                },
            };
            let file = mac_artifact(&container);
            files.push(file);
        },
        _ => {
            let mut i: usize = 0;
            while i < entries.len()
                invariant
                    i <= entries@.len(),
                    platform != Platform::Windows,
                    platform != Platform::MacOs,
                    files@.len() == i,
                    forall|j: int| 0 <= j < i ==> flat_ok(#[trigger] entries@[j]),
                    forall|j: int|
                        0 <= j < i ==> (#[trigger] files@[j]).file_name@ == flat_name(
                            entries@[j].declared,
                        ) && files@[j].format == ArtifactFormat::FlatPng && png_encoding(
                            entries@[j].declared,
                            entries@[j].declared,
                            entries@[j].image.bytes(),
                        ) == Some(files@[j].bytes@),
                decreases entries@.len() - i,
            {
                match flat_artifact(&entries[i]) {
                    Err(e) => {
                        proof {
                            assert(!flat_ok(entries@[i as int]));
                        }
                        return Err(e);
                    },
                    Ok(file) => {
                        files.push(file);
                    },
                }
                i = i + 1;
            }
        },
    }
    Ok(files)
}

/// What generating for a platform gives: the platform's files for renders
/// of the source; a Windows container that, read back, declares exactly the
/// sides of [`windows_sizes`], a macOS container that lists exactly those of
/// [`mac_sizes`], each once and in order.
pub open spec fn platform_output(
    files: Seq<GeneratedArtifact>,
    source: Picture,
    platform: Platform,
    apply_mask: bool,
) -> bool {
    &&& exists|entries: Seq<IconEntry>|
        rendered(entries, source, platform_specs(platform, apply_mask)) && #[trigger] platform_files(
            files,
            platform,
            entries,
        )
    &&& platform == Platform::Windows ==> ico_declared(files[0].bytes@) == Some(
        squares(windows_sizes()),
    )
    &&& platform == Platform::MacOs ==> icns_listed(files[0].bytes@) == Some(
        squares(mac_sizes()),
    )
}

/// Produces the files of one platform from the source image: renders its
/// rasters and packs them.
///
/// What the files are is fixed by [`platform_files`] for the rasters that
/// the resampler gave, which are renders of the source. A Windows container
/// read back declares exactly the sides of [`windows_sizes`], a macOS
/// container those of [`mac_sizes`], each once and in order. Failure is
/// always an encode failure, for one of the two reasons of
/// [`generation_fails`].
pub fn generate_platform(source: &Raster, platform: Platform, apply_mask: bool) -> (r: Result<
    Vec<GeneratedArtifact>,
    IconError,
>)
    ensures
        match r {
            Ok(files) => platform_output(files@, source@, platform, apply_mask),
            Err(e) => e is ContainerEncodeFailure && generation_fails(
                source@,
                platform,
                apply_mask,
            ),
        },
        !renderable(source.spec_width(), largest_side(platform)) ==> r is Err,
{
    let entries = match render_platform(source, platform, apply_mask) {
        Ok(entries) => entries,
        Err(e) => {
            return Err(e);
        },
    };
    let r = pack_platform(platform, &entries);
    proof {
        let n = entries@.len() as int;
        if r is Err {
            lemma_renders_consistent(entries@, source@, platform, apply_mask);
            assert(refused_renders(entries@, source@, platform, apply_mask));
        }
        if platform == Platform::Windows {
            assert(declared_squares(entries@, n) =~= squares(windows_sizes()));
        }
        if platform == Platform::MacOs {
            assert(declared_squares(entries@, n) =~= squares(mac_sizes()));
        }
    }
    r
}

} // verus!
