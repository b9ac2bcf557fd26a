//! The table from compositor pixel formats to Vulkan formats.
//!
//! Only pixel formats whose Vulkan format is sRGB-encoded are mapped; a
//! format with floating-point channels has none and so no entry. Vulkan has no
//! formats with a padding byte in place of alpha, so a pixel format without
//! alpha maps to the Vulkan format of its alpha-bearing sibling, and the flag
//! beside the format tells the two apart. The lookup from a Vulkan format back
//! to a pixel format is not offered.

use vstd::prelude::*;

verus! {

/// A DRM fourcc code, as the compositor's allocator identifies pixel formats.
#[derive(Clone, Copy, Debug, PartialEq, Eq, Structural)]
pub struct Fourcc {
    pub code: u32,
}

/// A `wl_shm` format code, as clients name the format of a shared-memory
/// buffer. The two formats that every compositor must accept have the codes
/// 0 and 1; every other format has its fourcc code.
#[derive(Clone, Copy, Debug, PartialEq, Eq, Structural)]
pub struct ShmFormat {
    pub code: u32,
}

/// A Vulkan format, by its raw `VkFormat` value.
#[derive(Clone, Copy, Debug, PartialEq, Eq, Structural)]
pub struct VkFormat {
    pub raw: i32,
}

pub const DRM_FOURCC_ARGB8888: u32 = 0x3432_5241;

pub const DRM_FOURCC_XRGB8888: u32 = 0x3432_5258;

pub const DRM_FOURCC_ABGR8888: u32 = 0x3432_4241;

pub const DRM_FOURCC_XBGR8888: u32 = 0x3432_4258;

pub const DRM_FOURCC_RGBA8888: u32 = 0x3432_4152;

pub const DRM_FOURCC_RGBX8888: u32 = 0x3432_5852;

pub const DRM_FOURCC_BGR888: u32 = 0x3432_4742;

pub const DRM_FOURCC_RGB888: u32 = 0x3432_4752;

pub const DRM_FOURCC_R8: u32 = 0x2020_3852;

pub const DRM_FOURCC_GR88: u32 = 0x3838_5247;

pub const WL_SHM_FORMAT_ARGB8888: u32 = 0;

pub const WL_SHM_FORMAT_XRGB8888: u32 = 1;

pub const VK_FORMAT_R8_SRGB: i32 = 15;

pub const VK_FORMAT_R8G8_SRGB: i32 = 22;

pub const VK_FORMAT_R8G8B8_SRGB: i32 = 29;

pub const VK_FORMAT_B8G8R8_SRGB: i32 = 36;

pub const VK_FORMAT_R8G8B8A8_SRGB: i32 = 43;

pub const VK_FORMAT_B8G8R8A8_SRGB: i32 = 50;

pub const VK_FORMAT_A8B8G8R8_SRGB_PACK32: i32 = 57;

/// Whether a Vulkan format is sRGB-encoded.
pub open spec fn is_srgb(format: VkFormat) -> bool {
    format.raw == VK_FORMAT_R8_SRGB || format.raw == VK_FORMAT_R8G8_SRGB || format.raw
        == VK_FORMAT_R8G8B8_SRGB || format.raw == VK_FORMAT_B8G8R8_SRGB || format.raw
        == VK_FORMAT_R8G8B8A8_SRGB || format.raw == VK_FORMAT_B8G8R8A8_SRGB || format.raw
        == VK_FORMAT_A8B8G8R8_SRGB_PACK32
}

/// Whether the Vulkan format of a fourcc code is a packed 32-bit format,
/// whose bytes in memory follow the host's byte order.
pub open spec fn is_packed(code: u32) -> bool {
    code == DRM_FOURCC_RGBA8888 || code == DRM_FOURCC_RGBX8888
}

/// The table: the Vulkan format of a fourcc code and whether the pixel format
/// has an alpha channel, on a host of the given byte order.
///
/// A packed format has an entry on a little-endian host only: on a big-endian
/// host its bytes lie as those of `ABGR8888`, which has an entry of its own.
pub open spec fn vk_of_fourcc(code: u32, little_endian: bool) -> Option<(VkFormat, bool)> {
    if code == DRM_FOURCC_ARGB8888 {
        Some((VkFormat { raw: VK_FORMAT_B8G8R8A8_SRGB }, true))
    } else if code == DRM_FOURCC_XRGB8888 {
        Some((VkFormat { raw: VK_FORMAT_B8G8R8A8_SRGB }, false))
    } else if code == DRM_FOURCC_ABGR8888 {
        Some((VkFormat { raw: VK_FORMAT_R8G8B8A8_SRGB }, true))
    } else if code == DRM_FOURCC_XBGR8888 {
        Some((VkFormat { raw: VK_FORMAT_R8G8B8A8_SRGB }, false))
    } else if code == DRM_FOURCC_RGBA8888 && little_endian {
        Some((VkFormat { raw: VK_FORMAT_A8B8G8R8_SRGB_PACK32 }, true))
    } else if code == DRM_FOURCC_RGBX8888 && little_endian {
        Some((VkFormat { raw: VK_FORMAT_A8B8G8R8_SRGB_PACK32 }, false))
    } else if code == DRM_FOURCC_BGR888 {
        Some((VkFormat { raw: VK_FORMAT_R8G8B8_SRGB }, false))
    } else if code == DRM_FOURCC_RGB888 {
        Some((VkFormat { raw: VK_FORMAT_B8G8R8_SRGB }, false))
    } else if code == DRM_FOURCC_R8 {
        Some((VkFormat { raw: VK_FORMAT_R8_SRGB }, false))
    } else if code == DRM_FOURCC_GR88 {
        Some((VkFormat { raw: VK_FORMAT_R8G8_SRGB }, false))
    } else {
        None
    }
}

/// The fourcc code of the pixel format that a `wl_shm` code names, if it
/// names one.
///
/// The two required formats have the codes 0 and 1, and their fourcc codes
/// name nothing as `wl_shm` codes. Every other `wl_shm` code is the fourcc
/// code of its pixel format.
pub open spec fn fourcc_of_shm(code: u32) -> Option<u32> {
    if code == WL_SHM_FORMAT_ARGB8888 {
        Some(DRM_FOURCC_ARGB8888)
    } else if code == WL_SHM_FORMAT_XRGB8888 {
        Some(DRM_FOURCC_XRGB8888)
    } else if code == DRM_FOURCC_ARGB8888 || code == DRM_FOURCC_XRGB8888 {
        None
    } else {
        Some(code)
    }
}

/// The Vulkan format of a `wl_shm` code: that of the pixel format it names.
pub open spec fn vk_of_shm(code: u32, little_endian: bool) -> Option<(VkFormat, bool)> {
    match fourcc_of_shm(code) {
        Some(fourcc) => vk_of_fourcc(fourcc, little_endian),
        None => None,
    }
}

/// `u16::from_ne_bytes`: the number that two bytes make in the host's byte
/// order, which is one of the two ways of reading them.
#[verifier::external_body]
fn u16_from_host_bytes(bytes: [u8; 2]) -> (value: u16)
    ensures
        value == bytes@[0] + 256 * bytes@[1] || value == 256 * bytes@[0] + bytes@[1],
{
    u16::from_ne_bytes(bytes)
}

/// Whether this host stores the low byte of a number first.
fn host_is_little_endian() -> bool {
    let bytes: [u8; 2] = [1, 0];
    low_byte_came_first(u16_from_host_bytes(bytes))
}

/// Whether the number that a host made of the bytes 1 and 0, in this order,
/// shows a host that stores the low byte first: such a host makes 1 of them,
/// the other makes 256.
pub fn low_byte_came_first(reading: u16) -> (low_first: bool)
    ensures
        low_first == (reading == 1),
{
    reading == 1
}

/// Returns an equivalent Vulkan format from the specified fourcc code, on a
/// host of the given byte order.
///
/// The second field of the returned tuple tells whether the pixel format has
/// an alpha channel; where it has none, a view of the image must switch the
/// alpha component off.
pub fn fourcc_to_vk_on(fourcc: Fourcc, little_endian: bool) -> (entry: Option<(VkFormat, bool)>)
    ensures
        entry == vk_of_fourcc(fourcc.code, little_endian),
{
    let code = fourcc.code;
    if code == DRM_FOURCC_ARGB8888 {
        Some((VkFormat { raw: VK_FORMAT_B8G8R8A8_SRGB }, true))
    } else if code == DRM_FOURCC_XRGB8888 {
        Some((VkFormat { raw: VK_FORMAT_B8G8R8A8_SRGB }, false))
    } else if code == DRM_FOURCC_ABGR8888 {
        Some((VkFormat { raw: VK_FORMAT_R8G8B8A8_SRGB }, true))
    } else if code == DRM_FOURCC_XBGR8888 {
        Some((VkFormat { raw: VK_FORMAT_R8G8B8A8_SRGB }, false))
    } else if code == DRM_FOURCC_RGBA8888 {
        if little_endian {
            Some((VkFormat { raw: VK_FORMAT_A8B8G8R8_SRGB_PACK32 }, true))
        } else {
            None
        }
    } else if code == DRM_FOURCC_RGBX8888 {
        if little_endian {
            Some((VkFormat { raw: VK_FORMAT_A8B8G8R8_SRGB_PACK32 }, false))
        } else {
            None
        }
    } else if code == DRM_FOURCC_BGR888 {
        Some((VkFormat { raw: VK_FORMAT_R8G8B8_SRGB }, false))
    } else if code == DRM_FOURCC_RGB888 {
        Some((VkFormat { raw: VK_FORMAT_B8G8R8_SRGB }, false))
    } else if code == DRM_FOURCC_R8 {
        Some((VkFormat { raw: VK_FORMAT_R8_SRGB }, false))
    } else if code == DRM_FOURCC_GR88 {
        Some((VkFormat { raw: VK_FORMAT_R8G8_SRGB }, false))
    } else {
        None
    }
}

/// Returns an equivalent Vulkan format from the specified `wl_shm` code, on a
/// host of the given byte order.
pub fn wl_shm_to_vk_on(wl: ShmFormat, little_endian: bool) -> (entry: Option<(VkFormat, bool)>)
    ensures
        entry == vk_of_shm(wl.code, little_endian),
{
    if wl.code == WL_SHM_FORMAT_ARGB8888 {
        fourcc_to_vk_on(Fourcc { code: DRM_FOURCC_ARGB8888 }, little_endian)
    } else if wl.code == WL_SHM_FORMAT_XRGB8888 {
        fourcc_to_vk_on(Fourcc { code: DRM_FOURCC_XRGB8888 }, little_endian)
    } else if wl.code == DRM_FOURCC_ARGB8888 || wl.code == DRM_FOURCC_XRGB8888 {
        None
    } else {
        fourcc_to_vk_on(Fourcc { code: wl.code }, little_endian)
    }
}

/// The `wl_shm` formats that have a Vulkan format on a host of the given
/// byte order: every such format, once.
pub fn shm_formats_on(little_endian: bool) -> (formats: Vec<ShmFormat>)
    ensures
        forall|code: u32|
            #![trigger formats@.contains(ShmFormat { code })]
            #![trigger vk_of_shm(code, little_endian)]
            formats@.contains(ShmFormat { code }) <==> vk_of_shm(code, little_endian) is Some,
        formats@.no_duplicates(),
{
    let mut formats: Vec<ShmFormat> = vec![
        ShmFormat { code: WL_SHM_FORMAT_ARGB8888 },
        ShmFormat { code: WL_SHM_FORMAT_XRGB8888 },
        ShmFormat { code: DRM_FOURCC_ABGR8888 },
        ShmFormat { code: DRM_FOURCC_XBGR8888 },
        ShmFormat { code: DRM_FOURCC_BGR888 },
        ShmFormat { code: DRM_FOURCC_RGB888 },
        ShmFormat { code: DRM_FOURCC_R8 },
        ShmFormat { code: DRM_FOURCC_GR88 },
    ];
    if little_endian {
        formats.push(ShmFormat { code: DRM_FOURCC_RGBA8888 });
        formats.push(ShmFormat { code: DRM_FOURCC_RGBX8888 });
    }
    proof {
        let list = formats@;
        assert forall|code: u32| vk_of_shm(code, little_endian) is Some implies list.contains(
            ShmFormat { code },
        ) by {
            let wanted = ShmFormat { code };
            let k: int = if code == WL_SHM_FORMAT_ARGB8888 {
                0
            } else if code == WL_SHM_FORMAT_XRGB8888 {
                1
            } else if code == DRM_FOURCC_ABGR8888 {
                2
            } else if code == DRM_FOURCC_XBGR8888 {
                3
            } else if code == DRM_FOURCC_BGR888 {
                4
            } else if code == DRM_FOURCC_RGB888 {
                5
            } else if code == DRM_FOURCC_R8 {
                6
            } else if code == DRM_FOURCC_GR88 {
                7
            } else if code == DRM_FOURCC_RGBA8888 {
                8
            } else {
                9
            };
            assert(list[k] == wanted);
        }
    }
    formats
}

/// Returns an equivalent Vulkan format from the specified fourcc code, on
/// this host.
///
/// The entry is that of the table for one of the two byte orders; for every
/// format but the packed ones the two agree.
pub fn fourcc_to_vk(fourcc: Fourcc) -> (entry: Option<(VkFormat, bool)>)
    ensures
        entry == vk_of_fourcc(fourcc.code, true) || entry == vk_of_fourcc(fourcc.code, false),
        !is_packed(fourcc.code) ==> entry == vk_of_fourcc(fourcc.code, true),
        entry matches Some((format, _)) ==> is_srgb(format),
{
    fourcc_to_vk_on(fourcc, host_is_little_endian())
}

/// Returns an equivalent Vulkan format from the specified `wl_shm` code, on
/// this host.
pub fn wl_shm_to_vk(wl: ShmFormat) -> (entry: Option<(VkFormat, bool)>)
    ensures
        entry == vk_of_shm(wl.code, true) || entry == vk_of_shm(wl.code, false),
        !is_packed(wl.code) ==> entry == vk_of_shm(wl.code, true),
        entry matches Some((format, _)) ==> is_srgb(format),
{
    wl_shm_to_vk_on(wl, host_is_little_endian())
}

/// The `wl_shm` formats that have a Vulkan format on this host.
///
/// The list is that of one of the two byte orders, and holds every format
/// that is not packed and has a Vulkan format.
pub fn shm_formats() -> (formats: Vec<ShmFormat>)
    ensures
        formats@.no_duplicates(),
        forall|code: u32|
            formats@.contains(ShmFormat { code }) ==> vk_of_shm(code, true) is Some,
        forall|code: u32|
            vk_of_shm(code, false) is Some ==> formats@.contains(ShmFormat { code }),
{
    let little_endian = host_is_little_endian();
    let formats = shm_formats_on(little_endian);
    proof {
        assert forall|code: u32| formats@.contains(ShmFormat { code }) implies vk_of_shm(
            code,
            true,
        ) is Some by {
            assert(vk_of_shm(code, little_endian) is Some);
        }
        assert forall|code: u32| vk_of_shm(code, false) is Some implies formats@.contains(
            ShmFormat { code },
        ) by {
            assert(vk_of_shm(code, little_endian) is Some);
        }
    }
    formats
}

/// A pixel format has at most one Vulkan format: on either host the entry, if
/// there is one, is the same, and a packed format has none on a big-endian
/// host.
pub proof fn lemma_byte_order_policy(code: u32)
    ensures
        is_packed(code) ==> vk_of_fourcc(code, true) is Some && vk_of_fourcc(code, false) is None,
        !is_packed(code) ==> vk_of_fourcc(code, true) == vk_of_fourcc(code, false),
{
}

/// Every entry of the table names an sRGB-encoded Vulkan format, for a
/// fourcc code and for a `wl_shm` code alike.
pub proof fn lemma_entries_are_srgb(code: u32, little_endian: bool)
    ensures
        vk_of_fourcc(code, little_endian) matches Some((format, _)) ==> is_srgb(format),
        vk_of_shm(code, little_endian) matches Some((format, _)) ==> is_srgb(format),
{
}

} // verus!
