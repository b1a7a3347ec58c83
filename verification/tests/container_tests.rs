use appforge::assets::generate_icons;
use appforge::container::{pack_icns, pack_ico, IconEntry, MacContainer, WindowsContainer};
use appforge::pipeline::PipelineState;
use appforge::errors::IconError;
use appforge::generate::{
    can_render, decode_source, flat_artifact, flat_name_of, generate_native_icns,
    generate_native_ico, generate_platform, icon_specs, mac_artifact, pack_platform, render_set,
    sizes_for, windows_artifact, ArtifactFormat,
};
use appforge::icon::{MaskStyle, Platform};
use appforge::raster::Raster;
use appforge::readback::{pixel_size_of, read_icns_sizes, read_ico_sizes};
use std::io::Cursor;

fn gradient(side: u32) -> Raster {
    let mut data = Vec::new();
    for y in 0..side {
        for x in 0..side {
            data.push((x * 255 / side.max(1)) as u8);
            data.push((y * 255 / side.max(1)) as u8);
            data.push(((x + y) % 256) as u8);
            data.push(255);
        }
    }
    Raster::from_rgba(side, side, data).unwrap()
}

fn entry(side: u32) -> IconEntry {
    IconEntry { declared: side, image: gradient(side) }
}

fn squares(sides: &[u32]) -> Vec<(u32, u32)> {
    sides.iter().map(|s| (*s, *s)).collect()
}

#[test]
fn size_lists_are_the_documented_ones() {
    assert_eq!(sizes_for(Platform::Windows), vec![16, 24, 32, 48, 64, 128, 256]);
    assert_eq!(sizes_for(Platform::MacOs), vec![16, 32, 64, 128, 256, 512, 1024]);
    assert_eq!(sizes_for(Platform::Ios), vec![512, 1024]);
    assert_eq!(sizes_for(Platform::Android), vec![512, 1024]);
}

#[test]
fn icon_specs_name_each_size_once() {
    let specs = icon_specs(Platform::MacOs, true);
    assert_eq!(specs.len(), 7);
    for (i, spec) in specs.iter().enumerate() {
        assert_eq!(spec.platform, Platform::MacOs);
        assert_eq!(spec.mask_style, MaskStyle::Squircle);
        for other in &specs[i + 1..] {
            assert_ne!(spec.size, other.size);
        }
    }
    for spec in icon_specs(Platform::MacOs, false) {
        assert_eq!(spec.mask_style, MaskStyle::Unmasked);
    }
    for spec in icon_specs(Platform::Windows, true) {
        assert_eq!(spec.mask_style, MaskStyle::Unmasked);
        assert_eq!(spec.platform, Platform::Windows);
    }
    assert_eq!(icon_specs(Platform::Android, true).len(), 2);
}

#[test]
fn can_render_respects_the_limits() {
    assert!(can_render(512, 1024));
    assert!(can_render(0, 0));
    assert!(!can_render(u32::MAX, u32::MAX));
}

#[test]
fn flat_names_follow_the_convention() {
    assert_eq!(flat_name_of(512), "icon_512x512.png");
    assert_eq!(flat_name_of(1024), "icon_1024x1024.png");
    assert_eq!(flat_name_of(0), "icon_0x0.png");
    assert_eq!(flat_name_of(7), "icon_7x7.png");
    assert_eq!(flat_name_of(4294967295), "icon_4294967295x4294967295.png");
}

#[test]
fn empty_windows_container_is_a_bare_header() {
    let container = WindowsContainer::new();
    assert_eq!(container.to_bytes(), vec![0, 0, 1, 0, 0, 0]);
    assert_eq!(read_ico_sizes(&container.to_bytes()), Some(Vec::new()));
}

#[test]
fn pack_ico_declares_each_raster_once_in_order() {
    let entries = vec![entry(16), entry(24), entry(256), entry(32)];
    let container = pack_ico(&entries).unwrap();
    let sizes: Vec<(u32, u32)> =
        container.directory().entries().iter().map(|e| (e.width(), e.height())).collect();
    assert_eq!(sizes, squares(&[16, 24, 256, 32]));
    // the stored rasters are the ones that went in
    for (stored, given) in container.directory().entries().iter().zip(entries.iter()) {
        let decoded = stored.decode().unwrap();
        assert_eq!(decoded.rgba_data(), given.image.as_bytes().as_slice());
    }
}

#[test]
fn pack_ico_rejects_a_raster_of_the_wrong_size() {
    let entries = vec![entry(16), IconEntry { declared: 32, image: gradient(24) }];
    assert!(matches!(pack_ico(&entries), Err(IconError::ContainerEncodeFailure(_))));
    let empty = vec![IconEntry { declared: 0, image: gradient(0) }];
    assert!(matches!(pack_ico(&empty), Err(IconError::ContainerEncodeFailure(_))));
    assert!(matches!(
        WindowsContainer::new().with_entry(&IconEntry { declared: 8, image: gradient(9) }),
        Err(IconError::ContainerEncodeFailure(_))
    ));
}

#[test]
fn windows_file_round_trip() {
    let entries = vec![entry(16), entry(48), entry(256)];
    let container = pack_ico(&entries).unwrap();
    let file = windows_artifact(&container);
    assert_eq!(file.file_name, "icon.ico");
    assert_eq!(file.format, ArtifactFormat::WindowsContainer);
    assert_eq!(read_ico_sizes(&file.bytes), Some(squares(&[16, 48, 256])));
    let read = ico::IconDir::read(Cursor::new(file.bytes.clone())).unwrap();
    let sizes: Vec<(u32, u32)> = read.entries().iter().map(|e| (e.width(), e.height())).collect();
    assert_eq!(sizes, squares(&[16, 48, 256]));
    assert_eq!(read.resource_type(), ico::ResourceType::Icon);
}

#[test]
fn read_ico_sizes_rejects_unsound_directories() {
    assert_eq!(read_ico_sizes(&[]), None);
    assert_eq!(read_ico_sizes(&[0, 0, 1, 0, 0]), None);
    assert_eq!(read_ico_sizes(&[1, 0, 1, 0, 0, 0]), None);
    assert_eq!(read_ico_sizes(&[0, 0, 3, 0, 0, 0]), None);
    assert_eq!(read_ico_sizes(&[0, 0, 1, 0, 1, 0]), None);
    let mut one = vec![0u8, 0, 2, 0, 1, 0];
    one.extend_from_slice(&[16, 0, 0, 0, 1, 0, 32, 0, 0, 0, 0, 0, 22, 0, 0, 0]);
    assert_eq!(read_ico_sizes(&one), Some(vec![(16, 256)]));
    one[9] = 1;
    assert_eq!(read_ico_sizes(&one), None);
}

#[test]
fn empty_mac_container_is_a_bare_header() {
    let container = MacContainer::new();
    assert_eq!(container.to_bytes(), b"icns\0\0\0\x08".to_vec());
    assert_eq!(read_icns_sizes(&container.to_bytes()), Some(Vec::new()));
}

#[test]
fn pack_icns_lists_each_raster_once_in_order() {
    let entries = vec![entry(16), entry(32), entry(64), entry(128), entry(256)];
    let container = pack_icns(&entries).unwrap();
    let listed: Vec<(u32, u32)> = container
        .family()
        .available_icons()
        .iter()
        .map(|t| (t.pixel_width(), t.pixel_height()))
        .collect();
    assert_eq!(listed, squares(&[16, 32, 64, 128, 256]));
    // sixteen, thirty-two and 128 keep their alpha in a mask element
    assert_eq!(container.family().elements.len(), 8);
    for (icon_type, given) in container.family().available_icons().iter().zip(entries.iter()) {
        let decoded = container.family().get_icon_with_type(*icon_type).unwrap();
        let rgba = decoded.convert_to(icns::PixelFormat::RGBA);
        assert_eq!(rgba.data(), given.image.as_bytes().as_slice());
    }
}

#[test]
fn pack_icns_rejects_what_does_not_fit() {
    // a side that no icon type has: the encoder's own words are handed on
    match pack_icns(&vec![entry(20)]) {
        Err(IconError::ContainerEncodeFailure(reason)) => {
            assert_eq!(reason, "no supported icon type has dimensions 20x20")
        }
        _ => panic!("a side of 20 was packed"),
    }
    // a raster that is not of the declared size
    let wrong = vec![IconEntry { declared: 32, image: gradient(16) }];
    assert!(matches!(pack_icns(&wrong), Err(IconError::ContainerEncodeFailure(_))));
}

#[test]
fn mac_file_round_trip() {
    let entries = vec![entry(16), entry(64), entry(128)];
    let container = pack_icns(&entries).unwrap();
    let file = mac_artifact(&container);
    assert_eq!(file.file_name, "icon.icns");
    assert_eq!(file.format, ArtifactFormat::MacContainer);
    assert_eq!(read_icns_sizes(&file.bytes), Some(squares(&[16, 64, 128])));
    let read = icns::IconFamily::read(Cursor::new(file.bytes.clone())).unwrap();
    let listed: Vec<u32> = read.available_icons().iter().map(|t| t.pixel_width()).collect();
    assert_eq!(listed, vec![16, 64, 128]);
}

#[test]
fn read_icns_sizes_rejects_broken_files() {
    assert_eq!(read_icns_sizes(b"icn"), None);
    assert_eq!(read_icns_sizes(b"icnt\0\0\0\x08"), None);
    assert_eq!(read_icns_sizes(b"icns\0\0\0\x09"), None);
    assert_eq!(read_icns_sizes(b"icns\0\0\0\x09x"), None);
    assert_eq!(read_icns_sizes(b"icns\0\0\0\x10ic08\0\0\0\x07"), None);
    assert_eq!(read_icns_sizes(b"icns\0\0\0\x10ic08\0\0\0\x09"), None);
    assert_eq!(read_icns_sizes(b"icns\0\0\0\x11ic08\0\0\0\x09x"), Some(vec![(256, 256)]));
    assert_eq!(
        read_icns_sizes(b"icns\0\0\0\x19t8mk\0\0\0\x08quux\0\0\0\x09x"),
        Some(Vec::new())
    );
}

#[test]
fn pixel_sizes_of_element_types() {
    assert_eq!(pixel_size_of(b"is32"), Some((16, 16)));
    assert_eq!(pixel_size_of(b"icm8"), Some((16, 12)));
    assert_eq!(pixel_size_of(b"ic10"), Some((1024, 1024)));
    assert_eq!(pixel_size_of(b"ic14"), Some((512, 512)));
    assert_eq!(pixel_size_of(b"SB24"), Some((48, 48)));
    assert_eq!(pixel_size_of(b"s8mk"), None);
    assert_eq!(pixel_size_of(b"ICN#"), None);
    assert_eq!(pixel_size_of(b"TOC "), None);
    assert_eq!(pixel_size_of(b"is3"), None);
    assert_eq!(pixel_size_of(b"is322"), None);
    assert_eq!(pixel_size_of(b""), None);
    for tag in [
        "ICON", "icm4", "icm8", "ics4", "ics8", "is32", "icl4", "icl8", "il32", "ich4", "ich8",
        "ih32", "it32", "icp4", "ic11", "icp5", "ic12", "icp6", "ic07", "ic13", "ic08", "ic14",
        "ic09", "ic10", "ic04", "ic05", "icsb", "icsB", "sb24", "SB24", "ICN#", "icm#", "ics#",
        "ich#", "s8mk", "l8mk", "h8mk", "t8mk",
    ] {
        let mut raw = [0u8; 4];
        raw.copy_from_slice(tag.as_bytes());
        let expected = icns::IconType::from_ostype(icns::OSType(raw))
            .filter(|t| !t.is_mask())
            .map(|t| (t.pixel_width(), t.pixel_height()));
        assert_eq!(pixel_size_of(tag.as_bytes()), expected, "{}", tag);
    }
}

#[test]
fn generated_windows_container_has_the_seven_sizes() {
    let container = generate_native_ico(&gradient(64)).unwrap();
    let sizes: Vec<u32> = container.directory().entries().iter().map(|e| e.width()).collect();
    assert_eq!(sizes, vec![16, 24, 32, 48, 64, 128, 256]);
    for stored in container.directory().entries() {
        let image = stored.decode().unwrap();
        assert_eq!(image.width(), stored.width());
        assert_eq!(image.height(), stored.height());
        // unmasked: the content square is opaque up to its corner
        let side = stored.width();
        let content = (side * 90 + 50) / 100;
        let margin = (side - content) / 2;
        let at = 4 * (margin * side + margin) as usize;
        assert_eq!(image.rgba_data()[at + 3], 255);
        assert_eq!(image.rgba_data()[3], 0);
    }
}

#[test]
fn generated_mac_container_has_the_seven_sizes() {
    let container = generate_native_icns(&gradient(32), true).unwrap();
    let listed: Vec<u32> =
        container.family().available_icons().iter().map(|t| t.pixel_width()).collect();
    assert_eq!(listed, vec![16, 32, 64, 128, 256, 512, 1024]);
    let icon = container.family().get_icon_with_type(icns::IconType::RGBA32_256x256).unwrap();
    let rgba = icon.convert_to(icns::PixelFormat::RGBA);
    let alpha = |x: usize, y: usize| rgba.data()[4 * (y * 256 + x) + 3];
    assert_eq!(alpha(0, 0), 0);
    assert_eq!(alpha(128, 128), 255);
    assert_eq!(alpha(23, 23), 0);
    assert_eq!(alpha(24, 61), 40);
    let plain = generate_native_icns(&gradient(32), false).unwrap();
    let icon = plain.family().get_icon_with_type(icns::IconType::RGBA32_256x256).unwrap();
    let rgba = icon.convert_to(icns::PixelFormat::RGBA);
    assert_eq!(rgba.data()[4 * (23 * 256 + 23) + 3], 255);
}

#[test]
fn desktop_request_gives_one_container_of_each_kind() {
    let source = gradient(48);
    let windows = generate_platform(&source, Platform::Windows, true).unwrap();
    assert_eq!(windows.len(), 1);
    assert_eq!(windows[0].file_name, "icon.ico");
    assert_eq!(windows[0].format, ArtifactFormat::WindowsContainer);
    let dir = ico::IconDir::read(Cursor::new(windows[0].bytes.clone())).unwrap();
    let sizes: Vec<(u32, u32)> = dir.entries().iter().map(|e| (e.width(), e.height())).collect();
    assert_eq!(sizes, squares(&[16, 24, 32, 48, 64, 128, 256]));
    assert_eq!(read_ico_sizes(&windows[0].bytes), Some(squares(&[16, 24, 32, 48, 64, 128, 256])));

    let mac = generate_platform(&source, Platform::MacOs, true).unwrap();
    assert_eq!(mac.len(), 1);
    assert_eq!(mac[0].file_name, "icon.icns");
    assert_eq!(mac[0].format, ArtifactFormat::MacContainer);
    let family = icns::IconFamily::read(Cursor::new(mac[0].bytes.clone())).unwrap();
    let listed: Vec<u32> = family.available_icons().iter().map(|t| t.pixel_width()).collect();
    assert_eq!(listed, vec![16, 32, 64, 128, 256, 512, 1024]);
    assert_eq!(
        read_icns_sizes(&mac[0].bytes),
        Some(squares(&[16, 32, 64, 128, 256, 512, 1024]))
    );
}

#[test]
fn mobile_request_gives_two_flat_images() {
    let files = generate_platform(&gradient(16), Platform::Android, false).unwrap();
    assert_eq!(files.len(), 2);
    assert_eq!(files[0].file_name, "icon_512x512.png");
    assert_eq!(files[1].file_name, "icon_1024x1024.png");
    for (file, side) in files.iter().zip([512u32, 1024]) {
        assert_eq!(file.format, ArtifactFormat::FlatPng);
        let decoded = image::load_from_memory_with_format(&file.bytes, image::ImageFormat::Png)
            .unwrap()
            .to_rgba8();
        assert_eq!((decoded.width(), decoded.height()), (side, side));
    }
}

#[test]
fn flat_artifact_is_the_png_of_the_raster() {
    let given = entry(12);
    let file = flat_artifact(&given).unwrap();
    assert_eq!(file.file_name, "icon_12x12.png");
    assert_eq!(&file.bytes[..8], &[0x89, b'P', b'N', b'G', 0x0D, 0x0A, 0x1A, 0x0A]);
    assert_eq!(file.byte_length(), file.bytes.len());
    let decoded =
        image::load_from_memory_with_format(&file.bytes, image::ImageFormat::Png).unwrap();
    assert_eq!(decoded.to_rgba8().into_raw(), given.image.into_raw());
    let wrong = IconEntry { declared: 12, image: gradient(10) };
    assert!(matches!(flat_artifact(&wrong), Err(IconError::ContainerEncodeFailure(_))));
}

#[test]
fn render_set_follows_the_specs() {
    let specs = icon_specs(Platform::Windows, false);
    let entries = render_set(&gradient(20), &specs);
    assert_eq!(entries.len(), 7);
    for (e, spec) in entries.iter().zip(specs.iter()) {
        assert_eq!(e.declared, spec.size);
        assert_eq!((e.image.width(), e.image.height()), (spec.size, spec.size));
    }
    let files = pack_platform(Platform::Windows, &entries).unwrap();
    assert_eq!(files.len(), 1);
}

#[test]
fn decode_source_reads_by_extension() {
    let pixels = gradient(5);
    let mut png = Vec::new();
    image::write_buffer_with_format(
        &mut Cursor::new(&mut png),
        pixels.as_bytes(),
        5,
        5,
        image::ExtendedColorType::Rgba8,
        image::ImageFormat::Png,
    )
    .unwrap();
    let decoded = decode_source(&png, "png").unwrap();
    assert_eq!((decoded.width(), decoded.height()), (5, 5));
    assert_eq!(decoded.as_bytes(), pixels.as_bytes());
    assert!(decode_source(&png, "PNG").is_ok());
    // the extension decides, not the content
    assert!(matches!(decode_source(&png, "jpg"), Err(IconError::DecodeFailure(_))));
    assert!(matches!(decode_source(&png, "xyz"), Err(IconError::DecodeFailure(_))));
    assert!(matches!(decode_source(&png, ""), Err(IconError::DecodeFailure(_))));
    assert!(matches!(decode_source(&png[..20], "png"), Err(IconError::DecodeFailure(_))));
    assert!(matches!(decode_source(&[], "png"), Err(IconError::DecodeFailure(_))));
    match decode_source(b"no image at all", "png") {
        Err(IconError::DecodeFailure(reason)) => assert!(reason.contains("PNG"), "{}", reason),
        _ => panic!("text was decoded"),
    }
}

#[test]
fn decode_source_converts_to_rgba() {
    let mut png = Vec::new();
    image::write_buffer_with_format(
        &mut Cursor::new(&mut png),
        &[10, 20, 30, 40, 50, 60],
        2,
        1,
        image::ExtendedColorType::Rgb8,
        image::ImageFormat::Png,
    )
    .unwrap();
    let decoded = decode_source(&png, "png").unwrap();
    assert_eq!(decoded.as_bytes(), &vec![10, 20, 30, 255, 40, 50, 60, 255]);
}

fn png_of(image: &Raster) -> Vec<u8> {
    let mut png = Vec::new();
    image::write_buffer_with_format(
        &mut Cursor::new(&mut png),
        image.as_bytes(),
        image.width(),
        image.height(),
        image::ExtendedColorType::Rgba8,
        image::ImageFormat::Png,
    )
    .unwrap();
    png
}

fn names(list: &[&str]) -> Vec<String> {
    list.iter().map(|s| s.to_string()).collect()
}

#[test]
fn a_desktop_run_hands_out_both_containers() {
    let report = generate_icons(&png_of(&gradient(40)), "png", &names(&["desktop"]), true);
    assert!(report.failure.is_none());
    assert_eq!(report.state, PipelineState::Migrating);
    assert_eq!(report.files.len(), 2);
    assert_eq!(report.files[0].file_name, "icon.icns");
    assert_eq!(report.files[0].format, ArtifactFormat::MacContainer);
    assert_eq!(report.files[1].file_name, "icon.ico");
    assert_eq!(report.files[1].format, ArtifactFormat::WindowsContainer);
    let family = icns::IconFamily::read(Cursor::new(report.files[0].bytes.clone())).unwrap();
    let listed: Vec<u32> = family.available_icons().iter().map(|t| t.pixel_width()).collect();
    assert_eq!(listed, vec![16, 32, 64, 128, 256, 512, 1024]);
    let dir = ico::IconDir::read(Cursor::new(report.files[1].bytes.clone())).unwrap();
    let sizes: Vec<u32> = dir.entries().iter().map(|e| e.width()).collect();
    assert_eq!(sizes, vec![16, 24, 32, 48, 64, 128, 256]);
    assert_eq!(dir.entries().len(), 7);
}

#[test]
fn a_run_for_every_platform() {
    let report =
        generate_icons(&png_of(&gradient(8)), "png", &names(&["android", "desktop", "ios"]), false);
    assert!(report.failure.is_none());
    let shown: Vec<&str> = report.files.iter().map(|f| f.file_name.as_str()).collect();
    assert_eq!(
        shown,
        vec![
            "icon.icns",
            "icon.ico",
            "icon_512x512.png",
            "icon_1024x1024.png",
            "icon_512x512.png",
            "icon_1024x1024.png",
        ]
    );
}

#[test]
fn a_run_without_platforms_generates_nothing() {
    let report = generate_icons(&png_of(&gradient(8)), "png", &names(&["web"]), true);
    assert!(report.failure.is_none());
    assert_eq!(report.state, PipelineState::Migrating);
    assert!(report.files.is_empty());
}

#[test]
fn a_run_fails_on_a_source_that_cannot_be_decoded() {
    let report = generate_icons(b"not an image", "png", &names(&["desktop"]), true);
    assert!(matches!(report.failure, Some(IconError::DecodeFailure(_))));
    assert_eq!(report.state, PipelineState::Failed);
    assert!(report.files.is_empty());
    let report = generate_icons(&png_of(&gradient(8)), "txt", &names(&["desktop"]), true);
    assert!(matches!(report.failure, Some(IconError::DecodeFailure(_))));
    assert_eq!(report.state, PipelineState::Failed);
}

#[test]
fn an_extension_without_a_format_is_a_decode_failure_without_files() {
    for extension in ["txt", "", "svg", "pngx"] {
        let report =
            generate_icons(&png_of(&gradient(8)), extension, &names(&["desktop", "ios"]), false);
        assert!(matches!(report.failure, Some(IconError::DecodeFailure(_))));
        assert_eq!(report.state, PipelineState::Failed);
        assert!(report.files.is_empty());
    }
    match decode_source(&png_of(&gradient(8)), "txt") {
        Err(IconError::DecodeFailure(text)) => assert_eq!(text, "unsupported image format"),
        other => panic!("{:?}", other.map(|r| r.width())),
    }
}

#[test]
fn decoding_gives_the_pixels_of_the_file() {
    let image = gradient(5);
    let decoded = decode_source(&png_of(&image), "png").unwrap();
    assert_eq!((decoded.width(), decoded.height()), (5, 5));
    assert_eq!(decoded.into_raw(), image.into_raw());
}

#[test]
fn a_run_decodes_once_and_renders_every_platform_from_it() {
    let report = generate_icons(&png_of(&gradient(16)), "PNG", &names(&["ios"]), true);
    assert!(report.failure.is_none());
    assert_eq!(report.files.len(), 2);
    let first = image::load_from_memory(&report.files[0].bytes).unwrap();
    assert_eq!((first.width(), first.height()), (512, 512));
    let second = image::load_from_memory(&report.files[1].bytes).unwrap();
    assert_eq!((second.width(), second.height()), (1024, 1024));
}
