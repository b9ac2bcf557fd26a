use compositor::format::{
    wl_shm_to_vk_on, ShmFormat, VkFormat, WL_SHM_FORMAT_ARGB8888, WL_SHM_FORMAT_XRGB8888,
};
use wayland_server::protocol::wl_shm::Format;

fn shm(format: Format) -> ShmFormat {
    ShmFormat { code: u32::from(format) }
}

#[test]
fn required_shm_codes_agree_with_the_protocol() {
    assert_eq!(WL_SHM_FORMAT_ARGB8888, u32::from(Format::Argb8888));
    assert_eq!(WL_SHM_FORMAT_XRGB8888, u32::from(Format::Xrgb8888));
}

#[test]
fn protocol_formats_through_the_table() {
    let rows = [
        (Format::Argb8888, ash::vk::Format::B8G8R8A8_SRGB, true),
        (Format::Xrgb8888, ash::vk::Format::B8G8R8A8_SRGB, false),
        (Format::Abgr8888, ash::vk::Format::R8G8B8A8_SRGB, true),
        (Format::Xbgr8888, ash::vk::Format::R8G8B8A8_SRGB, false),
        (Format::Rgba8888, ash::vk::Format::A8B8G8R8_SRGB_PACK32, true),
        (Format::Rgbx8888, ash::vk::Format::A8B8G8R8_SRGB_PACK32, false),
        (Format::Bgr888, ash::vk::Format::R8G8B8_SRGB, false),
        (Format::Rgb888, ash::vk::Format::B8G8R8_SRGB, false),
        (Format::R8, ash::vk::Format::R8_SRGB, false),
        (Format::Gr88, ash::vk::Format::R8G8_SRGB, false),
    ];
    for (format, native, alpha) in rows {
        assert_eq!(
            wl_shm_to_vk_on(shm(format), true),
            Some((VkFormat { raw: native.as_raw() }, alpha))
        );
    }
}

#[test]
fn protocol_formats_without_an_entry() {
    for format in [
        Format::Nv12,
        Format::Bgra8888,
        Format::Argb2101010,
        Format::Rgb565,
        Format::Abgr16161616f,
        Format::Xbgr16161616f,
    ] {
        assert_eq!(wl_shm_to_vk_on(shm(format), true), None);
        assert_eq!(wl_shm_to_vk_on(shm(format), false), None);
    }
    assert_eq!(wl_shm_to_vk_on(shm(Format::Rgba8888), false), None);
    assert_eq!(wl_shm_to_vk_on(shm(Format::Rgbx8888), false), None);
}
