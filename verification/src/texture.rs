//! Which textures an uploaded video frame needs, and when those that are there
//! can be used again.

use crate::frames::VideoFramePayload;
use vstd::prelude::*;

verus! {

/// The pixel format of a texture that holds whole pixels.
#[derive(Clone, Copy, PartialEq, Eq, Debug, Structural)]
pub enum TextureFormat {
    Rgba8UnormSrgb,
    Rgba16Unorm,
}

/// What the textures of one player hold at present.
#[derive(Clone, Copy, PartialEq, Eq, Debug)]
pub struct TextureCache {
    /// Size of the texture that the GUI toolkit manages, if it was made.
    pub managed: Option<(u32, u32)>,
    /// Size and format of the GPU texture of whole pixels, if it was made.
    pub flat: Option<((u32, u32), TextureFormat)>,
    /// Frame size of the pair of luma and chroma textures, if it was made.
    pub planes: Option<(u32, u32)>,
    /// The most recent upload went into the luma and chroma textures.
    pub last_upload_was_nv12: bool,
}

/// What to do with the pixels of a frame.
pub enum Upload {
    Nothing,
    /// Hand the pixels to the GUI toolkit, into the texture it has where that
    /// has the right size.
    Managed { reuse: bool, width: u32, height: u32, pixels: Vec<u8> },
    /// Write the bytes into the texture of whole pixels.
    Flat {
        create: bool,
        width: u32,
        height: u32,
        format: TextureFormat,
        bytes_per_row: u32,
        bytes: Vec<u8>,
    },
    /// Write the two planes, `width` bytes per row each.
    Planes {
        create: bool,
        width: u32,
        height: u32,
        uv_width: u32,
        uv_height: u32,
        y_plane: Vec<u8>,
        uv_plane: Vec<u8>,
    },
}

pub open spec fn bytes_per_pixel(format: TextureFormat) -> int {
    match format {
        TextureFormat::Rgba8UnormSrgb => 4,
        TextureFormat::Rgba16Unorm => 8,
    }
}

/// The upload of one frame of whole pixels on the GPU.
pub open spec fn flat_upload(
    cache: TextureCache,
    size: (u32, u32),
    format: TextureFormat,
    bytes: Vec<u8>,
) -> Upload {
    Upload::Flat {
        create: cache.flat != Some((size, format)),
        width: size.0,
        height: size.1,
        format,
        bytes_per_row: (size.0 * bytes_per_pixel(format)) as u32,
        bytes,
    }
}

/// How a frame is uploaded, with or without a GPU of the player's own.
pub open spec fn upload_of(cache: TextureCache, gpu: bool, payload: VideoFramePayload) -> Upload {
    match payload {
        VideoFramePayload::Nv12 { width, height, y_plane, uv_plane } => if gpu {
            Upload::Planes {
                create: cache.planes != Some((width, height)),
                width,
                height,
                uv_width: width / 2,
                uv_height: ((height + 1) / 2) as u32,
                y_plane,
                uv_plane,
            }
        } else {
            Upload::Nothing
        },
        VideoFramePayload::Rgba16Unorm { width, height, bytes } => if gpu {
            flat_upload(cache, (width, height), TextureFormat::Rgba16Unorm, bytes)
        } else {
            Upload::Nothing
        },
        VideoFramePayload::Rgba8Srgb { width, height, pixels } => if gpu {
            flat_upload(cache, (width, height), TextureFormat::Rgba8UnormSrgb, pixels)
        } else {
            Upload::Managed {
                reuse: cache.managed == Some((width, height)),
                width,
                height,
                pixels,
            }
        },
    }
}

/// What the textures hold once an upload has been carried out.
pub open spec fn cache_after(cache: TextureCache, upload: Upload) -> TextureCache {
    match upload {
        Upload::Nothing => cache,
        Upload::Managed { width, height, .. } => TextureCache {
            managed: Some((width, height)),
            last_upload_was_nv12: false,
            ..cache
        },
        Upload::Flat { width, height, format, .. } => TextureCache {
            flat: Some(((width, height), format)),
            planes: None,
            last_upload_was_nv12: false,
            ..cache
        },
        Upload::Planes { width, height, .. } => TextureCache {
            planes: Some((width, height)),
            last_upload_was_nv12: true,
            ..cache
        },
    }
}

impl TextureCache {
    /// No texture was made yet.
    pub fn new() -> (r: TextureCache)
        ensures
            r == (TextureCache {
                managed: None,
                flat: None,
                planes: None,
                last_upload_was_nv12: false,
            }),
    {
        TextureCache { managed: None, flat: None, planes: None, last_upload_was_nv12: false }
    }

    fn flat(
        &mut self,
        width: u32,
        height: u32,
        format: TextureFormat,
        bytes: Vec<u8>,
    ) -> (r: Upload)
        requires
            width * 8 <= u32::MAX,
        ensures
            r == flat_upload(*old(self), (width, height), format, bytes),
            *final(self) == cache_after(*old(self), r),
    {
        let per_pixel: u32 = match format {
            TextureFormat::Rgba8UnormSrgb => 4,
            TextureFormat::Rgba16Unorm => 8,
        };
        assert(width * per_pixel <= width * 8) by (nonlinear_arith)
            requires
                per_pixel <= 8,
        ;
        let create = match self.flat {
            Some((size, had)) => size.0 != width || size.1 != height || had != format,
            None => true,
        };
        self.flat = Some(((width, height), format));
        self.planes = None;
        self.last_upload_was_nv12 = false;
        Upload::Flat { create, width, height, format, bytes_per_row: width * per_pixel, bytes }
    }

    /// Plans the upload of a frame, and notes the textures that are there once
    /// it has been carried out.
    pub fn upload(&mut self, gpu: bool, payload: VideoFramePayload) -> (r: Upload)
        requires
            payload.fits_texture(),
        ensures
            r == upload_of(*old(self), gpu, payload),
            *final(self) == cache_after(*old(self), r),
    {
        match payload {
            VideoFramePayload::Nv12 { width, height, y_plane, uv_plane } => {
                if !gpu {
                    return Upload::Nothing;
                }
                let create = match self.planes {
                    Some((w, h)) => w != width || h != height,
                    None => true,
                };
                self.planes = Some((width, height));
                self.last_upload_was_nv12 = true;
                Upload::Planes {
                    create,
                    width,
                    height,
                    uv_width: width / 2,
                    uv_height: (height + 1) / 2,
                    y_plane,
                    uv_plane,
                }
            },
            VideoFramePayload::Rgba16Unorm { width, height, bytes } => {
                if !gpu {
                    return Upload::Nothing;
                }
                self.flat(width, height, TextureFormat::Rgba16Unorm, bytes)
            },
            VideoFramePayload::Rgba8Srgb { width, height, pixels } => {
                if gpu {
                    return self.flat(width, height, TextureFormat::Rgba8UnormSrgb, pixels);
                }
                let reuse = match self.managed {
                    Some((w, h)) => w == width && h == height,
                    None => false,
                };
                self.managed = Some((width, height));
                self.last_upload_was_nv12 = false;
                Upload::Managed { reuse, width, height, pixels }
            },
        }
    }
}

/// The pixel format of what is drawn on.
#[derive(Clone, Copy, PartialEq, Eq, Debug, Structural)]
pub enum TargetFormat {
    Rgba8UnormSrgb,
    Bgra8UnormSrgb,
    Bc1RgbaUnormSrgb,
    Bc2RgbaUnormSrgb,
    Bc3RgbaUnormSrgb,
    Bc7RgbaUnormSrgb,
    /// Any other format: what is drawn is stored as it is.
    Other,
}

/// What is drawn on such a target is encoded as sRGB when it is stored, so that
/// linear values have to be drawn.
pub fn is_srgb_target(format: TargetFormat) -> (r: bool)
    ensures
        r == !(format is Other),
{
    match format {
        TargetFormat::Other => false,
        _ => true,
    }
}

/// The statement with which the fragment shader for luma and chroma ends.
pub fn fragment_return(format: TargetFormat) -> (r: &'static str)
    ensures
        r@ == (if format is Other {
            "return vec4<f32>(r_g, g_g, b_g, 1.0);"@
        } else {
            "return vec4<f32>(srgb_to_linear(r_g),srgb_to_linear(g_g),srgb_to_linear(b_g),1.0,);"@
        }),
{
    if is_srgb_target(format) {
        "return vec4<f32>(srgb_to_linear(r_g),srgb_to_linear(g_g),srgb_to_linear(b_g),1.0,);"
    } else {
        "return vec4<f32>(r_g, g_g, b_g, 1.0);"
    }
}

/// Two frames of one layout and size in a row: the second needs no new
/// texture.
pub proof fn same_layout_reuses_textures(
    cache: TextureCache,
    gpu: bool,
    a: VideoFramePayload,
    b: VideoFramePayload,
)
    requires
        a.spec_size() == b.spec_size(),
        a is Nv12 <==> b is Nv12,
        a is Rgba16Unorm <==> b is Rgba16Unorm,
    ensures
        match upload_of(cache_after(cache, upload_of(cache, gpu, a)), gpu, b) {
            Upload::Nothing => true,
            Upload::Managed { reuse, .. } => reuse,
            Upload::Flat { create, .. } => !create,
            Upload::Planes { create, .. } => !create,
        },
{
}

/// What is uploaded is the frame itself: its size and its bytes, all of them and
/// in their order. On a GPU of the player's own that is for every layout; without
/// one only pixels of four bytes are handed on, and the rest shows nothing.
pub proof fn uploads_carry_the_frame(cache: TextureCache, gpu: bool, payload: VideoFramePayload)
    ensures
        match payload {
            VideoFramePayload::Rgba8Srgb { width, height, pixels } => {
                &&& gpu ==> (upload_of(cache, gpu, payload) matches Upload::Flat {
                    width: w,
                    height: h,
                    format,
                    bytes_per_row,
                    bytes,
                    ..
                } && w == width && h == height && bytes == pixels && format is Rgba8UnormSrgb && (
                width * 4 <= u32::MAX ==> bytes_per_row == width * 4))
                &&& !gpu ==> (upload_of(cache, gpu, payload) matches Upload::Managed {
                    width: w,
                    height: h,
                    pixels: shown,
                    ..
                } && w == width && h == height && shown == pixels)
            },
            VideoFramePayload::Rgba16Unorm { width, height, bytes } => {
                &&& gpu ==> (upload_of(cache, gpu, payload) matches Upload::Flat {
                    width: w,
                    height: h,
                    format,
                    bytes_per_row,
                    bytes: shown,
                    ..
                } && w == width && h == height && shown == bytes && format is Rgba16Unorm && (width
                    * 8 <= u32::MAX ==> bytes_per_row == width * 8))
                &&& !gpu ==> upload_of(cache, gpu, payload) is Nothing
            },
            VideoFramePayload::Nv12 { width, height, y_plane, uv_plane } => {
                &&& gpu ==> (upload_of(cache, gpu, payload) matches Upload::Planes {
                    width: w,
                    height: h,
                    uv_width,
                    uv_height,
                    y_plane: y,
                    uv_plane: uv,
                    ..
                } && w == width && h == height && y == y_plane && uv == uv_plane && uv_width
                    == width / 2 && (height < u32::MAX ==> uv_height * 2 == height || uv_height * 2
                    == height + 1))
                &&& !gpu ==> upload_of(cache, gpu, payload) is Nothing
            },
        },
{
}

/// A texture is made anew exactly where the one that is there has another size or
/// another format, or where none is there.
pub proof fn textures_are_made_where_they_do_not_fit(
    cache: TextureCache,
    gpu: bool,
    payload: VideoFramePayload,
)
    ensures
        match upload_of(cache, gpu, payload) {
            Upload::Nothing => true,
            Upload::Managed { reuse, width, height, .. } => reuse <==> cache.managed == Some(
                (width, height),
            ),
            Upload::Flat { create, width, height, format, .. } => create <==> cache.flat != Some(
                ((width, height), format),
            ),
            Upload::Planes { create, width, height, .. } => create <==> cache.planes != Some(
                (width, height),
            ),
        },
{
}

/// Once an upload was carried out, the texture that it went into is there with its
/// size and format, and whether it went into luma and chroma is noted. Whole
/// pixels on the GPU take the place of luma and chroma. The rest is as it was.
pub proof fn uploads_are_noted(cache: TextureCache, upload: Upload)
    ensures
        ({
            let after = cache_after(cache, upload);
            match upload {
                Upload::Nothing => after == cache,
                Upload::Managed { width, height, .. } => {
                    &&& after.managed == Some((width, height))
                    &&& after.flat == cache.flat
                    &&& after.planes == cache.planes
                    &&& !after.last_upload_was_nv12
                },
                Upload::Flat { width, height, format, .. } => {
                    &&& after.managed == cache.managed
                    &&& after.flat == Some(((width, height), format))
                    &&& after.planes is None
                    &&& !after.last_upload_was_nv12
                },
                Upload::Planes { width, height, .. } => {
                    &&& after.managed == cache.managed
                    &&& after.flat == cache.flat
                    &&& after.planes == Some((width, height))
                    &&& after.last_upload_was_nv12
                },
            }
        }),
{
}

} // verus!
