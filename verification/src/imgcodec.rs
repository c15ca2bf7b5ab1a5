use vstd::prelude::*;

use crate::raster::Raster;

verus! {

/// The RGBA8 raster (width, height, pixel bytes) that the image crate's
/// decoder produces for an encoded byte sequence, or `None` when the bytes
/// are not a decodable image. The result depends on the bytes alone.
pub uninterp spec fn decoded_rgba_of(bytes: Seq<u8>) -> Option<(u32, u32, Seq<u8>)>;

/// Decodes an encoded image held in memory into an RGBA8 raster.
/// Relies on image::load_from_memory (the format is guessed from the bytes)
/// and on the RGBA8 conversion of the decoded image; an RGBA8 image buffer
/// holds exactly width * height * 4 bytes.
#[verifier::external_body]
pub(crate) fn decode_rgba(bytes: &Vec<u8>) -> (out: Option<Raster>)
    ensures
        out is Some <==> decoded_rgba_of(bytes@) is Some,
        out matches Some(r) ==> {
            &&& decoded_rgba_of(bytes@) matches Some(d)
            &&& r.width == d.0
            &&& r.height == d.1
            &&& r.data@ == d.2
            &&& r.wf()
        },
{
    match image::load_from_memory(bytes) {
        Ok(img) => {
            let rgba = img.to_rgba8();
            let width = rgba.width();
            let height = rgba.height();
            Some(Raster { width, height, data: rgba.into_raw() })
        },
        Err(_) => None,
    }
}

/// The RGBA8 bytes that the image crate's box-sampling resampler produces
/// when scaling a raster of the given size to the target size; a function of
/// the source pixels and the sizes alone.
pub uninterp spec fn downsampled_of(src: Seq<u8>, w: u32, h: u32, nw: u32, nh: u32) -> Seq<u8>;

/// The box-sampling resampler averages each output pixel's source block in
/// 32-bit accumulators. A block spans at most two more than `w / nw` by two
/// more than `h / nh` source pixels, and each contributes at most 255 plus
/// the rounding term, so the sums stay in range exactly when this bound
/// holds. Downsampling an enormous image onto a tiny box violates it.
pub open spec fn spec_thumbnail_sum_fits(w: int, h: int, nw: int, nh: int) -> bool {
    256 * (w / nw + 2) * (h / nh + 2) <= u32::MAX
}

/// Decides `spec_thumbnail_sum_fits` for concrete dimensions.
pub(crate) fn thumbnail_sum_fits(w: u32, h: u32, nw: u32, nh: u32) -> (r: bool)
    requires
        nw >= 1,
        nh >= 1,
    ensures
        r == spec_thumbnail_sum_fits(w as int, h as int, nw as int, nh as int),
{
    let bw: u128 = (w / nw) as u128 + 2;
    let bh: u128 = (h / nh) as u128 + 2;
    proof {
        assert(256 * bw * bh <= u128::MAX) by (nonlinear_arith)
            requires
                0 < bw <= 0x1_0000_0002u128,
                0 < bh <= 0x1_0000_0002u128,
        ;
        assert(256 * (bw * bh) == 256 * bw * bh) by (nonlinear_arith);
    }
    256 * (bw * bh) <= (u32::MAX as u128)
}

/// Resamples a raster to exactly `nw` by `nh` pixels.
/// Relies on image::imageops::thumbnail, which returns a buffer of exactly
/// the requested dimensions; the required block bound keeps its 32-bit
/// per-block accumulators from overflowing.
#[verifier::external_body]
pub(crate) fn downsample(src: &Raster, nw: u32, nh: u32) -> (out: Raster)
    requires
        src.wf(),
        nw >= 1,
        nh >= 1,
        4 * (nw as int) * (nh as int) <= usize::MAX,
        spec_thumbnail_sum_fits(src.width as int, src.height as int, nw as int, nh as int),
    ensures
        out.width == nw,
        out.height == nh,
        out.wf(),
        out.data@ == downsampled_of(src.data@, src.width, src.height, nw, nh),
{
    let img: image::RgbaImage = match image::RgbaImage::from_raw(
        src.width,
        src.height,
        src.data.clone(),
    ) {
        Some(i) => i,
        None => image::RgbaImage::new(src.width, src.height),
    };
    let out = image::imageops::thumbnail(&img, nw, nh);
    Raster { width: nw, height: nh, data: out.into_raw() }
}

/// The PNG encoding that the image crate produces for an RGBA8 raster of the
/// given size, or `None` when the size is rejected; a function of the pixels
/// and dimensions alone.
pub uninterp spec fn png_encoding_of(data: Seq<u8>, w: u32, h: u32) -> Option<Seq<u8>>;

/// Encodes a raster as PNG bytes (used for the on-disk thumbnail cache).
/// Relies on image::write_buffer_with_format with the PNG format writing into
/// an in-memory buffer.
#[verifier::external_body]
pub(crate) fn encode_png(src: &Raster) -> (out: Option<Vec<u8>>)
    requires
        src.wf(),
    ensures
        out is Some <==> png_encoding_of(src.data@, src.width, src.height) is Some,
        out matches Some(v) ==> {
            &&& png_encoding_of(src.data@, src.width, src.height) matches Some(s)
            &&& v@ == s
        },
{
    let mut cursor = std::io::Cursor::new(Vec::new());
    match image::write_buffer_with_format(
        &mut cursor,
        &src.data,
        src.width,
        src.height,
        image::ExtendedColorType::Rgba8,
        image::ImageFormat::Png,
    ) {
        Ok(()) => Some(cursor.into_inner()),
        Err(_) => None,
    }
}

} // verus!
