//! The image codecs, as far as the pipeline relies on them.
//!
//! Everything in this file is believed, not proved: the types are opaque, and
//! the contracts of the functions say what the codec crates do. The rest of the
//! library is verified against these contracts.

use crate::raster::byte_len;
use image::ImageEncoder;
use vstd::prelude::*;

verus! {

#[verifier::external_type_specification]
#[verifier::external_body]
pub struct ExImageError(image::ImageError);

#[verifier::external_type_specification]
#[verifier::external_body]
pub struct ExImageFormat(image::ImageFormat);

#[verifier::external_type_specification]
pub struct ExFilterType(image::imageops::FilterType);

#[verifier::external_type_specification]
#[verifier::external_body]
pub struct ExIoError(std::io::Error);

#[verifier::external_type_specification]
#[verifier::external_body]
pub struct ExIconDir(ico::IconDir);

#[verifier::external_type_specification]
pub struct ExResourceType(ico::ResourceType);

#[verifier::external_type_specification]
#[verifier::external_body]
pub struct ExIconFamily(icns::IconFamily);

#[verifier::external_type_specification]
pub struct ExPixelFormat(icns::PixelFormat);

/// What the `image` crate decodes from the bytes of a file, read in the
/// format that the file's extension stands for and converted to RGBA8: the
/// width, the height and the pixels' bytes; `None` where the extension stands
/// for no format or the decoder reports an error.
pub uninterp spec fn decoding(bytes: Seq<u8>, extension: Seq<char>) -> Option<(u32, u32, Seq<u8>)>;

/// The PNG file that the `image` crate's encoder writes for an RGBA8 buffer
/// of the given dimensions; `None` where it reports an error.
pub uninterp spec fn png_encoding(width: u32, height: u32, rgba: Seq<u8>) -> Option<Seq<u8>>;

/// The encoded data that `ico::IconDirEntry::encode` stores for an RGBA8
/// image of the given dimensions; `None` where it reports an error.
pub uninterp spec fn ico_encoding(width: u32, height: u32, rgba: Seq<u8>) -> Option<Seq<u8>>;

/// The entries of an icon directory, in order: the width and height that
/// each declares, and its encoded data.
pub uninterp spec fn ico_entries(dir: ico::IconDir) -> Seq<(u32, u32, Seq<u8>)>;

/// Whether the directory holds cursors rather than icons.
pub uninterp spec fn ico_holds_cursors(dir: ico::IconDir) -> bool;

/// A text with its ASCII capitals turned into small letters.
pub open spec fn ascii_lowered(s: Seq<char>) -> Seq<char> {
    Seq::new(
        s.len(),
        |i: int|
            if 'A' <= s[i] <= 'Z' {
                ((s[i] as u8) + 32) as char
            } else {
                s[i]
            },
    )
}

/// The file extensions that stand for an image format, in small letters.
pub open spec fn image_extensions() -> Seq<Seq<char>> {
    seq![
        "avif"@,
        "jpg"@,
        "jpeg"@,
        "jfif"@,
        "png"@,
        "apng"@,
        "gif"@,
        "webp"@,
        "tif"@,
        "tiff"@,
        "tga"@,
        "dds"@,
        "bmp"@,
        "ico"@,
        "hdr"@,
        "exr"@,
        "pbm"@,
        "pam"@,
        "ppm"@,
        "pgm"@,
        "pnm"@,
        "ff"@,
        "qoi"@,
    ]
}

/// Whether a file extension, whatever the case of its ASCII letters, stands
/// for an image format.
pub open spec fn is_image_extension(extension: Seq<char>) -> bool {
    image_extensions().contains(ascii_lowered(extension))
}

/// `image::ImageFormat::from_extension`, then
/// `image::load_from_memory_with_format` with the format found, and the image
/// converted to RGBA8. The result is the decoding of the bytes: on success
/// the width, the height and four bytes for every pixel. Without a format
/// for the extension nothing is decoded and the error is `None`; an error of
/// the decoder is handed on.
#[verifier::external_body]
pub(crate) fn decode_rgba(bytes: &[u8], extension: &str) -> (r: Result<
    (u32, u32, Vec<u8>),
    Option<image::ImageError>,
>)
    ensures
        match r {
            Ok(parts) => decoding(bytes@, extension@) == Some((parts.0, parts.1, parts.2@))
                && is_image_extension(extension@) && parts.2@.len() == byte_len(
                parts.0 as int,
                parts.1 as int,
            ),
            Err(error) => decoding(bytes@, extension@) is None && (error is None
                <==> !is_image_extension(extension@)),
        },
{
    let format = image::ImageFormat::from_extension(extension).ok_or(None::<image::ImageError>)?;
    let decoded = image::load_from_memory_with_format(bytes, format).map_err(Some)?.to_rgba8();
    Ok((decoded.width(), decoded.height(), decoded.into_raw()))
}

/// The text of an `image::ImageError`.
#[verifier::external_body]
pub(crate) fn image_error_text(error: &image::ImageError) -> String {
    error.to_string()
}

/// The text of a `std::io::Error`.
#[verifier::external_body]
pub(crate) fn io_error_text(error: &std::io::Error) -> String {
    error.to_string()
}

/// What the resampler gives where it has nothing to sample: transparent
/// pixels throughout for a source without pixels, and the source itself where
/// it already has the dimensions asked for. `None` where it samples.
pub open spec fn unsampled(
    source: Seq<u8>,
    source_width: int,
    source_height: int,
    width: int,
    height: int,
) -> Option<Seq<u8>> {
    if source_width == 0 || source_height == 0 {
        Some(Seq::new(byte_len(width, height) as nat, |i: int| 0u8))
    } else if source_width == width && source_height == height {
        Some(source)
    } else {
        None
    }
}

/// `image::imageops::resize` on an RGBA8 buffer. The buffer is accepted when
/// it has the length that its dimensions ask for, and the result always has
/// exactly the dimensions asked for. Of its pixels the contract says what
/// [`unsampled`] does: the two cases that the crate answers before it
/// samples. The two size limits keep the intermediate buffer of 32-bit
/// floats and the result within what a vector may hold, beyond which the
/// crate panics.
#[verifier::external_body]
pub(crate) fn resample(
    source: &[u8],
    source_width: u32,
    source_height: u32,
    width: u32,
    height: u32,
    filter: image::imageops::FilterType,
) -> (r: Option<Vec<u8>>)
    requires
        16 * source_width * height <= isize::MAX,
        4 * width * height <= isize::MAX,
    ensures
        source@.len() == byte_len(source_width as int, source_height as int) ==> r is Some,
        r matches Some(pixels) ==> pixels@.len() == byte_len(width as int, height as int),
        r matches Some(pixels) ==> (source@.len() == byte_len(
            source_width as int,
            source_height as int,
        ) ==> (unsampled(
            source@,
            source_width as int,
            source_height as int,
            width as int,
            height as int,
        ) matches Some(known) ==> pixels@ == known)),
{
    let view = image::ImageBuffer::<image::Rgba<u8>, &[u8]>::from_raw(
        source_width,
        source_height,
        source,
    )?;
    Some(image::imageops::resize(&view, width, height, filter).into_raw())
}

/// `image::codecs::png::PngEncoder::write_image` for an RGBA8 buffer, which
/// must have the length that its dimensions ask for.
#[verifier::external_body]
pub(crate) fn encode_png(width: u32, height: u32, rgba: &[u8]) -> (r: Result<
    Vec<u8>,
    image::ImageError,
>)
    requires
        rgba@.len() == byte_len(width as int, height as int),
    ensures
        r matches Ok(file) ==> png_encoding(width, height, rgba@) == Some(file@),
        r is Err ==> png_encoding(width, height, rgba@) is None,
{
    let mut file = Vec::new();
    image::codecs::png::PngEncoder::new(&mut file).write_image(
        rgba,
        width,
        height,
        image::ExtendedColorType::Rgba8,
    )?;
    Ok(file)
}

/// `ico::IconDir::new`: an empty directory of the given kind.
#[verifier::external_body]
pub(crate) fn ico_new(kind: ico::ResourceType) -> (dir: ico::IconDir)
    ensures
        ico_entries(dir) == Seq::<(u32, u32, Seq<u8>)>::empty(),
        ico_holds_cursors(dir) == (kind == ico::ResourceType::Cursor),
{
    ico::IconDir::new(kind)
}

/// `ico::IconDirEntry::encode` on an RGBA8 image, and `ico::IconDir::add_entry`
/// with what it gives. The image must have a pixel and the right number of
/// bytes, its pixels must be countable in 32 bits, and the directory must
/// hold icons: otherwise the crate panics. On success the new entry declares
/// the image's dimensions and is the last one; the length of its data is
/// returned. On an error of the encoder the directory is as it was.
#[verifier::external_body]
pub(crate) fn ico_add(dir: &mut ico::IconDir, width: u32, height: u32, rgba: Vec<u8>) -> (r:
    Result<usize, std::io::Error>)
    requires
        width >= 1,
        height >= 1,
        width * height <= u32::MAX,
        rgba@.len() == byte_len(width as int, height as int),
        !ico_holds_cursors(*old(dir)),
    ensures
        !ico_holds_cursors(*final(dir)),
        match r {
            Ok(stored) => ico_encoding(width, height, rgba@) matches Some(data) && stored
                == data.len() && ico_entries(*final(dir)) == ico_entries(*old(dir)).push(
                (width, height, data),
            ),
            Err(_) => ico_encoding(width, height, rgba@) is None && ico_entries(*final(dir))
                == ico_entries(*old(dir)),
        },
{
    let image = ico::IconImage::from_rgba_data(width, height, rgba);
    let entry = ico::IconDirEntry::encode(&image)?;
    let stored = entry.data().len();
    dir.add_entry(entry);
    Ok(stored)
}

/// The byte that an entry of the directory holds for a dimension: sizes
/// above 255 are written as zero.
pub open spec fn ico_dimension_byte(dimension: u32) -> u8 {
    if dimension > 255 {
        0
    } else {
        dimension as u8
    }
}

/// The bytes of the entries' data together.
pub open spec fn ico_data_len(entries: Seq<(u32, u32, Seq<u8>)>) -> nat
    decreases entries.len(),
{
    if entries.len() == 0 {
        0
    } else {
        ico_data_len(entries.drop_last()) + entries.last().2.len()
    }
}

/// The start of an icon file that holds the given entries: a reserved zero
/// word, the kind (1 for icons, 2 for cursors), the number of entries, all
/// little-endian; then sixteen bytes for each entry, of which the first two
/// are its width and height and the fourth is zero. The file is as long as
/// this directory and the entries' data together.
pub open spec fn ico_layout(file: Seq<u8>, cursors: bool, entries: Seq<(u32, u32, Seq<u8>)>)
    -> bool {
    &&& file.len() == 6 + 16 * entries.len() + ico_data_len(entries)
    &&& file[0] == 0
    &&& file[1] == 0
    &&& file[2] == if cursors {
        2u8
    } else {
        1u8
    }
    &&& file[3] == 0
    &&& file[4] == entries.len() % 256
    &&& file[5] == entries.len() / 256
    &&& forall|i: int|
        #![trigger entries[i]]
        0 <= i < entries.len() ==> file[6 + 16 * i] == ico_dimension_byte(entries[i].0) && file[6
            + 16 * i + 1] == ico_dimension_byte(entries[i].1) && file[6 + 16 * i + 3] == 0
}

/// `ico::IconDir::write` into a vector. With at most 65535 entries and a
/// file of at most `u32::MAX` bytes, which its offsets are counted in, the
/// call succeeds, and the file starts as [`ico_layout`] says.
#[verifier::external_body]
pub(crate) fn ico_write(dir: &ico::IconDir) -> (r: Result<Vec<u8>, std::io::Error>)
    requires
        ico_entries(*dir).len() <= 0xFFFF,
        6 + 16 * ico_entries(*dir).len() + ico_data_len(ico_entries(*dir)) <= 0xFFFF_FFFF,
    ensures
        r is Ok,
        r matches Ok(file) ==> ico_layout(file@, ico_holds_cursors(*dir), ico_entries(*dir)),
{
    let mut file = Vec::new();
    dir.write(&mut file)?;
    Ok(file)
}

/// The elements of an icon family, in order: the four bytes of each
/// element's type, and its data.
pub uninterp spec fn icns_elements(family: icns::IconFamily) -> Seq<(Seq<u8>, Seq<u8>)>;

/// The elements that `icns::IconFamily::add_icon` appends for a square RGBA
/// image of the given side; `None` where it reports an error.
pub uninterp spec fn icns_encoding(side: u32, rgba: Seq<u8>) -> Option<Seq<(Seq<u8>, Seq<u8>)>>;

/// An element type, spelled with its four characters.
pub open spec fn icns_tag(a: char, b: char, c: char, d: char) -> Seq<u8> {
    seq![a as u8, b as u8, c as u8, d as u8]
}

/// The pixel width and height of the icon that an element of the given type
/// holds; `None` for masks and for types that are not icons.
pub open spec fn icns_pixel_size(tag: Seq<u8>) -> Option<(u32, u32)> {
    if tag == icns_tag('i', 'c', 'm', '4') || tag == icns_tag('i', 'c', 'm', '8') {
        Some((16u32, 12u32))
    } else if tag == icns_tag('i', 'c', 's', '4') || tag == icns_tag('i', 'c', 's', '8') || tag
        == icns_tag('i', 's', '3', '2') || tag == icns_tag('i', 'c', 'p', '4') || tag == icns_tag(
        'i',
        'c',
        '0',
        '4',
    ) {
        Some((16u32, 16u32))
    } else if tag == icns_tag('i', 'c', 's', 'b') {
        Some((18u32, 18u32))
    } else if tag == icns_tag('s', 'b', '2', '4') {
        Some((24u32, 24u32))
    } else if tag == icns_tag('I', 'C', 'O', 'N') || tag == icns_tag('i', 'c', 'l', '4') || tag
        == icns_tag('i', 'c', 'l', '8') || tag == icns_tag('i', 'l', '3', '2') || tag == icns_tag(
        'i',
        'c',
        'p',
        '5',
    ) || tag == icns_tag('i', 'c', '1', '1') || tag == icns_tag('i', 'c', '0', '5') {
        Some((32u32, 32u32))
    } else if tag == icns_tag('i', 'c', 's', 'B') {
        Some((36u32, 36u32))
    } else if tag == icns_tag('i', 'c', 'h', '4') || tag == icns_tag('i', 'c', 'h', '8') || tag
        == icns_tag('i', 'h', '3', '2') || tag == icns_tag('S', 'B', '2', '4') {
        Some((48u32, 48u32))
    } else if tag == icns_tag('i', 'c', 'p', '6') || tag == icns_tag('i', 'c', '1', '2') {
        Some((64u32, 64u32))
    } else if tag == icns_tag('i', 't', '3', '2') || tag == icns_tag('i', 'c', '0', '7') {
        Some((128u32, 128u32))
    } else if tag == icns_tag('i', 'c', '0', '8') || tag == icns_tag('i', 'c', '1', '3') {
        Some((256u32, 256u32))
    } else if tag == icns_tag('i', 'c', '0', '9') || tag == icns_tag('i', 'c', '1', '4') {
        Some((512u32, 512u32))
    } else if tag == icns_tag('i', 'c', '1', '0') {
        Some((1024u32, 1024u32))
    } else {
        None
    }
}

/// What `add_icon` appends for an image of the given side: first an element
/// whose type is an icon of that side, then at most its mask; every type has
/// four bytes.
pub open spec fn icns_icon_of(elements: Seq<(Seq<u8>, Seq<u8>)>, side: u32) -> bool {
    &&& 1 <= elements.len() <= 2
    &&& icns_pixel_size(elements[0].0) == Some((side, side))
    &&& forall|j: int| 0 <= j < elements.len() ==> (#[trigger] elements[j]).0.len() == 4
    &&& forall|j: int| 1 <= j < elements.len() ==> icns_pixel_size((#[trigger] elements[j]).0) is None
}

/// A length or an offset as the file holds it: four bytes, the highest first.
pub open spec fn be32(n: nat) -> Seq<u8> {
    seq![
        (n / 0x100_0000 % 256) as u8,
        (n / 0x1_0000 % 256) as u8,
        (n / 0x100 % 256) as u8,
        (n % 256) as u8,
    ]
}

/// The elements as they stand in the file, one after the other: type, the
/// element's length with its eight bytes of header, data.
pub open spec fn icns_body(elements: Seq<(Seq<u8>, Seq<u8>)>) -> Seq<u8>
    decreases elements.len(),
{
    if elements.len() == 0 {
        Seq::<u8>::empty()
    } else {
        let last = elements.last();
        icns_body(elements.drop_last()) + last.0 + be32(8 + last.1.len()) + last.1
    }
}

/// The whole file: the four characters `icns`, the file's length, the elements.
pub open spec fn icns_file(elements: Seq<(Seq<u8>, Seq<u8>)>) -> Seq<u8> {
    icns_tag('i', 'c', 'n', 's') + be32(8 + icns_body(elements).len()) + icns_body(elements)
}

/// `icns::IconFamily::new`: a family without elements.
#[verifier::external_body]
pub(crate) fn icns_new() -> (family: icns::IconFamily)
    ensures
        icns_elements(family) == Seq::<(Seq<u8>, Seq<u8>)>::empty(),
{
    icns::IconFamily::new()
}

/// `icns::Image::from_data` and `icns::IconFamily::add_icon` with what it
/// gives, for a square RGBA8 image with the right number of bytes. On success
/// the family has grown by the icon's element and, for the types that keep
/// their alpha apart, its mask. On an error, which includes a side that no
/// icon type has, the family is as it was.
#[verifier::external_body]
pub(crate) fn icns_add(
    family: &mut icns::IconFamily,
    format: icns::PixelFormat,
    side: u32,
    rgba: Vec<u8>,
) -> (r: Result<(), std::io::Error>)
    requires
        format == icns::PixelFormat::RGBA,
        rgba@.len() == byte_len(side as int, side as int),
    ensures
        match r {
            Ok(_) => icns_encoding(side, rgba@) matches Some(added) && icns_icon_of(added, side)
                && icns_elements(*final(family)) == icns_elements(*old(family)) + added,
            Err(_) => icns_encoding(side, rgba@) is None && icns_elements(*final(family))
                == icns_elements(*old(family)),
        },
{
    let image = icns::Image::from_data(format, side, side, rgba)?;
    family.add_icon(&image)
}

/// The length of the data of each element of the family, in order.
#[verifier::external_body]
pub(crate) fn icns_data_lengths(family: &icns::IconFamily) -> (lengths: Vec<usize>)
    ensures
        lengths@.len() == icns_elements(*family).len(),
        forall|i: int|
            0 <= i < lengths@.len() ==> lengths@[i] == (#[trigger] icns_elements(*family)[i]).1.len(),
{
    family.elements.iter().map(|element| element.data.len()).collect()
}

/// `icns::IconFamily::write` into a vector. The file's length is counted in
/// 32 bits, so it must not exceed `u32::MAX`; the call then succeeds, and the
/// file is exactly [`icns_file`] of the elements.
#[verifier::external_body]
pub(crate) fn icns_write(family: &icns::IconFamily) -> (r: Result<Vec<u8>, std::io::Error>)
    requires
        8 + icns_body(icns_elements(*family)).len() <= 0xFFFF_FFFF,
    ensures
        r is Ok,
        r matches Ok(file) ==> file@ == icns_file(icns_elements(*family)),
{
    let mut file = Vec::new();
    family.write(&mut file)?;
    Ok(file)
}

} // verus!
