use compositor::format::{
    fourcc_to_vk, fourcc_to_vk_on, low_byte_came_first, shm_formats, shm_formats_on, wl_shm_to_vk, wl_shm_to_vk_on,
    Fourcc, ShmFormat, VkFormat, DRM_FOURCC_ABGR8888, DRM_FOURCC_ARGB8888,
    DRM_FOURCC_BGR888, DRM_FOURCC_GR88, DRM_FOURCC_R8, DRM_FOURCC_RGB888, DRM_FOURCC_RGBA8888,
    DRM_FOURCC_RGBX8888, DRM_FOURCC_XBGR8888, DRM_FOURCC_XRGB8888,
    VK_FORMAT_A8B8G8R8_SRGB_PACK32, VK_FORMAT_B8G8R8A8_SRGB, VK_FORMAT_B8G8R8_SRGB,
    VK_FORMAT_R8G8B8A8_SRGB, VK_FORMAT_R8G8B8_SRGB,
    VK_FORMAT_R8G8_SRGB, VK_FORMAT_R8_SRGB, WL_SHM_FORMAT_ARGB8888, WL_SHM_FORMAT_XRGB8888,
};
use drm_fourcc::DrmFourcc;

fn fourcc(format: DrmFourcc) -> Fourcc {
    Fourcc { code: format as u32 }
}

fn vk(format: ash::vk::Format, alpha: bool) -> Option<(VkFormat, bool)> {
    Some((VkFormat { raw: format.as_raw() }, alpha))
}

fn this_host_is_little_endian() -> bool {
    1u32.to_ne_bytes()[0] == 1
}

#[test]
fn argb8888_and_xrgb8888_share_a_format() {
    let with_alpha = Some((VkFormat { raw: 50 }, true));
    let without_alpha = Some((VkFormat { raw: 50 }, false));
    assert_eq!(fourcc_to_vk(Fourcc { code: 0x34325241 }), with_alpha);
    assert_eq!(fourcc_to_vk(Fourcc { code: 0x34325258 }), without_alpha);
    assert_eq!(fourcc_to_vk(fourcc(DrmFourcc::Argb8888)), vk(ash::vk::Format::B8G8R8A8_SRGB, true));
    assert_eq!(fourcc_to_vk(fourcc(DrmFourcc::Xrgb8888)), vk(ash::vk::Format::B8G8R8A8_SRGB, false));
}

#[test]
fn unmapped_formats_have_no_entry() {
    for little_endian in [true, false] {
        assert_eq!(fourcc_to_vk_on(fourcc(DrmFourcc::Nv12), little_endian), None);
        assert_eq!(fourcc_to_vk_on(fourcc(DrmFourcc::Argb2101010), little_endian), None);
        assert_eq!(fourcc_to_vk_on(fourcc(DrmFourcc::Bgra8888), little_endian), None);
        assert_eq!(fourcc_to_vk_on(Fourcc { code: 0 }, little_endian), None);
        assert_eq!(fourcc_to_vk_on(Fourcc { code: 1 }, little_endian), None);
        assert_eq!(fourcc_to_vk_on(Fourcc { code: u32::MAX }, little_endian), None);
        assert_eq!(wl_shm_to_vk_on(ShmFormat { code: 2 }, little_endian), None);
        assert_eq!(wl_shm_to_vk_on(ShmFormat { code: DrmFourcc::Nv12 as u32 }, little_endian), None);
    }
    assert_eq!(fourcc_to_vk(fourcc(DrmFourcc::Yuyv)), None);
    assert_eq!(wl_shm_to_vk(ShmFormat { code: DrmFourcc::Yuyv as u32 }), None);
}

#[test]
fn every_entry_of_the_table() {
    let rows = [
        (DrmFourcc::Argb8888, ash::vk::Format::B8G8R8A8_SRGB, true),
        (DrmFourcc::Xrgb8888, ash::vk::Format::B8G8R8A8_SRGB, false),
        (DrmFourcc::Abgr8888, ash::vk::Format::R8G8B8A8_SRGB, true),
        (DrmFourcc::Xbgr8888, ash::vk::Format::R8G8B8A8_SRGB, false),
        (DrmFourcc::Rgba8888, ash::vk::Format::A8B8G8R8_SRGB_PACK32, true),
        (DrmFourcc::Rgbx8888, ash::vk::Format::A8B8G8R8_SRGB_PACK32, false),
        (DrmFourcc::Bgr888, ash::vk::Format::R8G8B8_SRGB, false),
        (DrmFourcc::Rgb888, ash::vk::Format::B8G8R8_SRGB, false),
        (DrmFourcc::R8, ash::vk::Format::R8_SRGB, false),
        (DrmFourcc::Gr88, ash::vk::Format::R8G8_SRGB, false),
    ];
    for (format, native, alpha) in rows {
        assert_eq!(fourcc_to_vk_on(fourcc(format), true), vk(native, alpha));
    }
}

#[test]
fn packed_formats_follow_the_byte_order() {
    assert_eq!(
        fourcc_to_vk_on(fourcc(DrmFourcc::Rgba8888), true),
        Some((VkFormat { raw: 57 }, true))
    );
    assert_eq!(
        fourcc_to_vk_on(fourcc(DrmFourcc::Rgbx8888), true),
        Some((VkFormat { raw: 57 }, false))
    );
    assert_eq!(fourcc_to_vk_on(fourcc(DrmFourcc::Rgba8888), false), None);
    assert_eq!(fourcc_to_vk_on(fourcc(DrmFourcc::Rgbx8888), false), None);
    assert_eq!(wl_shm_to_vk_on(ShmFormat { code: DRM_FOURCC_RGBA8888 }, false), None);
    assert_eq!(
        wl_shm_to_vk_on(ShmFormat { code: DRM_FOURCC_RGBA8888 }, true),
        Some((VkFormat { raw: 57 }, true))
    );
}

#[test]
fn other_formats_ignore_the_byte_order() {
    let codes = [
        DRM_FOURCC_ARGB8888,
        DRM_FOURCC_XRGB8888,
        DRM_FOURCC_ABGR8888,
        DRM_FOURCC_XBGR8888,
        DRM_FOURCC_BGR888,
        DRM_FOURCC_RGB888,
        DRM_FOURCC_R8,
        DRM_FOURCC_GR88,
    ];
    for code in codes {
        let little = fourcc_to_vk_on(Fourcc { code }, true);
        assert!(little.is_some());
        assert_eq!(little, fourcc_to_vk_on(Fourcc { code }, false));
        assert_eq!(little, fourcc_to_vk(Fourcc { code }));
    }
}

#[test]
fn this_host() {
    let little_endian = this_host_is_little_endian();
    let packed = fourcc(DrmFourcc::Rgba8888);
    assert_eq!(fourcc_to_vk(packed), fourcc_to_vk_on(packed, little_endian));
    assert_eq!(fourcc_to_vk(packed).is_some(), little_endian);
    let shm = ShmFormat { code: DRM_FOURCC_RGBX8888 };
    assert_eq!(wl_shm_to_vk(shm), wl_shm_to_vk_on(shm, little_endian));
    assert_eq!(wl_shm_to_vk(shm).is_some(), little_endian);
}

#[test]
fn shm_codes_of_the_two_required_formats() {
    assert_eq!(WL_SHM_FORMAT_ARGB8888, 0);
    assert_eq!(WL_SHM_FORMAT_XRGB8888, 1);
    assert_eq!(wl_shm_to_vk(ShmFormat { code: 0 }), Some((VkFormat { raw: 50 }, true)));
    assert_eq!(wl_shm_to_vk(ShmFormat { code: 1 }), Some((VkFormat { raw: 50 }, false)));
}

#[test]
fn fourcc_codes_of_the_two_required_formats_are_no_shm_codes() {
    for little_endian in [true, false] {
        assert_eq!(wl_shm_to_vk_on(ShmFormat { code: DRM_FOURCC_ARGB8888 }, little_endian), None);
        assert_eq!(wl_shm_to_vk_on(ShmFormat { code: DRM_FOURCC_XRGB8888 }, little_endian), None);
    }
    assert_eq!(wl_shm_to_vk(ShmFormat { code: DRM_FOURCC_ARGB8888 }), None);
    assert_eq!(wl_shm_to_vk(ShmFormat { code: DRM_FOURCC_XRGB8888 }), None);
}

#[test]
fn shm_codes_beyond_the_first_two_are_fourcc_codes() {
    let formats = [
        DrmFourcc::Abgr8888,
        DrmFourcc::Xbgr8888,
        DrmFourcc::Rgba8888,
        DrmFourcc::Rgbx8888,
        DrmFourcc::Bgr888,
        DrmFourcc::Rgb888,
        DrmFourcc::R8,
        DrmFourcc::Gr88,
        DrmFourcc::Nv12,
    ];
    for format in formats {
        for little_endian in [true, false] {
            assert_eq!(
                wl_shm_to_vk_on(ShmFormat { code: format as u32 }, little_endian),
                fourcc_to_vk_on(fourcc(format), little_endian)
            );
        }
    }
}

#[test]
fn codes_agree_with_the_crates_that_define_them() {
    assert_eq!(DRM_FOURCC_ARGB8888, DrmFourcc::Argb8888 as u32);
    assert_eq!(DRM_FOURCC_XRGB8888, DrmFourcc::Xrgb8888 as u32);
    assert_eq!(DRM_FOURCC_ABGR8888, DrmFourcc::Abgr8888 as u32);
    assert_eq!(DRM_FOURCC_XBGR8888, DrmFourcc::Xbgr8888 as u32);
    assert_eq!(DRM_FOURCC_RGBA8888, DrmFourcc::Rgba8888 as u32);
    assert_eq!(DRM_FOURCC_RGBX8888, DrmFourcc::Rgbx8888 as u32);
    assert_eq!(DRM_FOURCC_BGR888, DrmFourcc::Bgr888 as u32);
    assert_eq!(DRM_FOURCC_RGB888, DrmFourcc::Rgb888 as u32);
    assert_eq!(DRM_FOURCC_R8, DrmFourcc::R8 as u32);
    assert_eq!(DRM_FOURCC_GR88, DrmFourcc::Gr88 as u32);
    assert_eq!(VK_FORMAT_R8_SRGB, ash::vk::Format::R8_SRGB.as_raw());
    assert_eq!(VK_FORMAT_R8G8_SRGB, ash::vk::Format::R8G8_SRGB.as_raw());
    assert_eq!(VK_FORMAT_R8G8B8_SRGB, ash::vk::Format::R8G8B8_SRGB.as_raw());
    assert_eq!(VK_FORMAT_B8G8R8_SRGB, ash::vk::Format::B8G8R8_SRGB.as_raw());
    assert_eq!(VK_FORMAT_R8G8B8A8_SRGB, ash::vk::Format::R8G8B8A8_SRGB.as_raw());
    assert_eq!(VK_FORMAT_B8G8R8A8_SRGB, ash::vk::Format::B8G8R8A8_SRGB.as_raw());
    assert_eq!(VK_FORMAT_A8B8G8R8_SRGB_PACK32, ash::vk::Format::A8B8G8R8_SRGB_PACK32.as_raw());
}

#[test]
fn supported_shm_formats_are_those_with_an_entry() {
    for little_endian in [true, false] {
        let formats = shm_formats_on(little_endian);
        assert_eq!(formats.len(), if little_endian { 10 } else { 8 });
        for (i, format) in formats.iter().enumerate() {
            assert!(wl_shm_to_vk_on(*format, little_endian).is_some());
            assert!(!formats[..i].contains(format));
        }
        let candidates = [
            0,
            1,
            2,
            DRM_FOURCC_ARGB8888,
            DRM_FOURCC_XRGB8888,
            DRM_FOURCC_ABGR8888,
            DRM_FOURCC_XBGR8888,
            DRM_FOURCC_RGBA8888,
            DRM_FOURCC_RGBX8888,
            DRM_FOURCC_BGR888,
            DRM_FOURCC_RGB888,
            DRM_FOURCC_R8,
            DRM_FOURCC_GR88,
            DrmFourcc::Nv12 as u32,
            DrmFourcc::Abgr16161616f as u32,
            DrmFourcc::Xbgr16161616f as u32,
        ];
        for code in candidates {
            let format = ShmFormat { code };
            assert_eq!(
                formats.contains(&format),
                wl_shm_to_vk_on(format, little_endian).is_some()
            );
        }
    }
}

#[test]
fn supported_shm_formats_begin_with_the_required_ones() {
    let formats = shm_formats_on(false);
    assert_eq!(formats[0], ShmFormat { code: 0 });
    assert_eq!(formats[1], ShmFormat { code: 1 });
    assert!(!formats.contains(&ShmFormat { code: DRM_FOURCC_RGBA8888 }));
    assert!(shm_formats_on(true).contains(&ShmFormat { code: DRM_FOURCC_RGBA8888 }));
    assert!(shm_formats_on(true).contains(&ShmFormat { code: DRM_FOURCC_RGBX8888 }));
}

#[test]
fn supported_shm_formats_of_this_host() {
    assert_eq!(shm_formats(), shm_formats_on(this_host_is_little_endian()));
}

#[test]
fn reading_of_the_bytes_one_and_zero() {
    assert!(low_byte_came_first(1));
    assert!(!low_byte_came_first(256));
    assert!(low_byte_came_first(u16::from_le_bytes([1, 0])));
    assert!(!low_byte_came_first(u16::from_be_bytes([1, 0])));
    assert_eq!(low_byte_came_first(u16::from_ne_bytes([1, 0])), this_host_is_little_endian());
}

#[test]
fn formats_with_floating_point_channels_have_no_entry() {
    for little_endian in [true, false] {
        for format in [DrmFourcc::Abgr16161616f, DrmFourcc::Xbgr16161616f] {
            assert_eq!(fourcc_to_vk_on(fourcc(format), little_endian), None);
            assert_eq!(wl_shm_to_vk_on(ShmFormat { code: format as u32 }, little_endian), None);
            assert!(!shm_formats_on(little_endian).contains(&ShmFormat { code: format as u32 }));
        }
    }
    assert_eq!(fourcc_to_vk(fourcc(DrmFourcc::Abgr16161616f)), None);
    assert_eq!(wl_shm_to_vk(ShmFormat { code: DrmFourcc::Xbgr16161616f as u32 }), None);
}

#[test]
fn every_entry_is_an_srgb_format() {
    let srgb = [
        ash::vk::Format::R8_SRGB,
        ash::vk::Format::R8G8_SRGB,
        ash::vk::Format::R8G8B8_SRGB,
        ash::vk::Format::B8G8R8_SRGB,
        ash::vk::Format::R8G8B8A8_SRGB,
        ash::vk::Format::B8G8R8A8_SRGB,
        ash::vk::Format::A8B8G8R8_SRGB_PACK32,
    ];
    for little_endian in [true, false] {
        for format in shm_formats_on(little_endian) {
            let (native, _) = wl_shm_to_vk_on(format, little_endian).unwrap();
            assert!(srgb.contains(&ash::vk::Format::from_raw(native.raw)));
        }
    }
}
