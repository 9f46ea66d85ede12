//! Vision support — tiling, downscaling, and JPEG encoding of screenshots for
//! LLM visual assertions.
//!
//! A captured page is split into viewport-tall bands ("tiles") from the top,
//! up to a height cap. Each tile is downscaled independently so its longest
//! edge is at most a given number of pixels, JPEG-encoded, and handed out as
//! a data URL — detail is preserved at every depth, and the tile count (hence
//! token cost) is bounded by the height cap and [`MAX_TILES`].
//!
//! Where the bands lie and how large they become is decided here; decoding,
//! cropping, resampling with Lanczos filtering and encoding are done by the
//! `image` crate.
use image::codecs::jpeg::JpegEncoder;
use image::imageops::FilterType;
use image::GenericImageView;
use vstd::prelude::*;
use vstd::string::StringExecFns;
use crate::base64_text;
use crate::numbers;
use crate::text;

verus! {

/// Default longest edge (px) of screenshots sent to vision endpoints.
pub const DEFAULT_MAX_DIMENSION: u32 = 1400;

/// Hard ceiling on the number of tiles attached to a single vision assert,
/// so a huge height cap can never produce an unbounded request (or token
/// bill).
pub const MAX_TILES: u32 = 30;

/// JPEG quality used for the encoded screenshot.
pub const JPEG_QUALITY: u8 = 85;

/// Number of viewport-tall bands covering `coverage` pixels, clamped to
/// [`MAX_TILES`].
pub open spec fn tiles_for(coverage: int, band_height: int) -> int {
    if coverage == 0 {
        0
    } else if band_height == 0 {
        1
    } else {
        let bands = (coverage + band_height - 1) / band_height;
        if bands < MAX_TILES {
            bands
        } else {
            MAX_TILES as int
        }
    }
}

/// Number of viewport-tall bands covering `coverage` pixels, clamped to
/// [`MAX_TILES`] so a single assert can never send an unbounded number of
/// image parts.
pub fn tile_count(coverage: u32, band_height: u32) -> (r: u32)
    ensures
        r == tiles_for(coverage as int, band_height as int),
        r <= MAX_TILES,
{
    if coverage == 0 {
        return 0;
    }
    if band_height == 0 {
        return 1;
    }
    let bands: u64 = (coverage as u64 + band_height as u64 - 1) / (band_height as u64);
    if bands < MAX_TILES as u64 {
        bands as u32
    } else {
        MAX_TILES
    }
}

/// The rows of a band: the first one, and how many there are.
pub open spec fn band_rows(coverage: int, band_height: int, i: int) -> (int, int) {
    let top = i * band_height;
    (
        top,
        if coverage - top < band_height {
            coverage - top
        } else {
            band_height
        },
    )
}

/// The size of a band after downscaling: its longest edge is at most
/// `max_dimension`; 0 disables resizing, and nothing is upscaled.
pub open spec fn target_size(width: nat, height: nat, max_dimension: nat) -> (nat, nat) {
    let longest = if width < height {
        height
    } else {
        width
    };
    if max_dimension > 0 && longest > max_dimension {
        (
            at_least_one(numbers::scaled_edge(width, max_dimension, longest)),
            at_least_one(numbers::scaled_edge(height, max_dimension, longest)),
        )
    } else {
        (width, height)
    }
}

/// The number, or 1 in place of 0.
pub open spec fn at_least_one(n: nat) -> nat {
    if n == 0 {
        1
    } else {
        n
    }
}

/// The size of a band after downscaling.
pub fn scaled_size(width: u32, height: u32, max_dimension: u32) -> (r: (u32, u32))
    ensures
        (r.0 as nat, r.1 as nat) == target_size(
            width as nat,
            height as nat,
            max_dimension as nat,
        ),
{
    let longest: u32 = if width < height {
        height
    } else {
        width
    };
    if max_dimension > 0 && longest > max_dimension {
        let w: u32 = numbers::scale_edge(width, max_dimension, longest);
        let h: u32 = numbers::scale_edge(height, max_dimension, longest);
        let w1: u32 = if w == 0 {
            1
        } else {
            w
        };
        let h1: u32 = if h == 0 {
            1
        } else {
            h
        };
        (w1, h1)
    } else {
        (width, height)
    }
}

/// Downscaling is on or the image is small: either way no edge of a band is
/// longer than `max_dimension` afterwards.
pub proof fn law_tiles_fit(width: u32, height: u32, max_dimension: u32)
    requires
        max_dimension > 0,
    ensures
        ({
            let (w, h) = target_size(width as nat, height as nat, max_dimension as nat);
            w <= max_dimension && h <= max_dimension
        }),
{
    let longest = if width < height {
        height
    } else {
        width
    };
    if longest > max_dimension {
        numbers::lemma_scaled_edge(width as nat, max_dimension as nat, longest as nat);
        numbers::lemma_scaled_edge(height as nat, max_dimension as nat, longest as nat);
    }
}

/// No edge of a band becomes longer, but that an edge of 0 may become 1.
pub proof fn law_nothing_grows(width: u32, height: u32, max_dimension: u32)
    ensures
        ({
            let (w, h) = target_size(width as nat, height as nat, max_dimension as nat);
            w <= at_least_one(width as nat) && h <= at_least_one(height as nat)
        }),
{
    let longest = if width < height {
        height
    } else {
        width
    };
    if 0 < max_dimension < longest {
        numbers::lemma_edge_shrinks(width as nat, max_dimension as nat, longest as nat);
        numbers::lemma_edge_shrinks(height as nat, max_dimension as nat, longest as nat);
    }
}

/// An image that is small enough keeps its size.
pub proof fn law_nothing_is_upscaled(width: u32, height: u32, max_dimension: u32)
    requires
        width <= max_dimension,
        height <= max_dimension,
    ensures
        target_size(width as nat, height as nat, max_dimension as nat) == (
            width as nat,
            height as nat,
        ),
{
}

/// Where the tiles are enough to cover the page, every row lies in exactly
/// the band that its number says, and no band is empty.
pub proof fn law_tiles_cover(coverage: u32, band_height: u32, row: u32)
    requires
        0 < band_height,
        coverage <= MAX_TILES * band_height,
        row < coverage,
    ensures
        ({
            let i = (row / band_height) as int;
            let (top, rows) = band_rows(coverage as int, band_height as int, i);
            &&& 0 <= i < tiles_for(coverage as int, band_height as int)
            &&& top <= row < top + rows
            &&& forall|k: int|
                0 <= k < tiles_for(coverage as int, band_height as int) && k != i ==> {
                    let (other, size) = #[trigger] band_rows(
                        coverage as int,
                        band_height as int,
                        k,
                    );
                    size > 0 && !(other <= row < other + size)
                }
        }),
{
    let c = coverage as int;
    let b = band_height as int;
    let y = row as int;
    let i = y / b;
    let n = (c + b - 1) / b;
    assert(i * b <= y < i * b + b && 0 <= i) by (nonlinear_arith)
        requires
            i == y / b,
            0 < b,
            0 <= y,
    ;
    assert(n <= MAX_TILES) by (nonlinear_arith)
        requires
            n == (c + b - 1) / b,
            c <= MAX_TILES * b,
            0 < b,
    ;
    assert(n * b <= c + b - 1) by (nonlinear_arith)
        requires
            n == (c + b - 1) / b,
            0 < b,
    ;
    assert(c <= n * b) by (nonlinear_arith)
        requires
            n == (c + b - 1) / b,
            0 < b,
    ;
    assert(i < n) by (nonlinear_arith)
        requires
            i * b <= y,
            y < c,
            c <= n * b,
            0 < b,
    ;
    assert forall|k: int| 0 <= k < n && k != i implies {
        let (other, size) = #[trigger] band_rows(c, b, k);
        size > 0 && !(other <= y < other + size)
    } by {
        assert(k * b < c) by (nonlinear_arith)
            requires
                k <= n - 1,
                n * b <= c + b - 1,
                0 < b,
        ;
        if k < i {
            assert(k * b + b <= i * b) by (nonlinear_arith)
                requires
                    k + 1 <= i,
                    0 < b,
            ;
        } else {
            assert(i * b + b <= k * b) by (nonlinear_arith)
                requires
                    i + 1 <= k,
                    0 < b,
            ;
        }
    }
}

#[verifier::external_type_specification]
#[verifier::external_body]
pub struct ExDynamicImage(image::DynamicImage);

/// A picture: its size, and all else that makes it up, in some coding.
pub struct Picture {
    /// Width in pixels.
    pub width: u32,
    /// Height in pixels.
    pub height: u32,
    /// The pixels.
    pub pixels: Seq<u8>,
}

/// What a `DynamicImage` shows.
pub uninterp spec fn picture_of(image: image::DynamicImage) -> Picture;

/// The picture that `image` reads from bytes, or its error message.
pub uninterp spec fn loaded(bytes: Seq<u8>) -> Result<Picture, Seq<char>>;

/// The part of a picture with the given corner and size.
pub uninterp spec fn cropped(picture: Picture, corner: (u32, u32), size: (u32, u32)) -> Picture;

/// Resampling the one picture with the Lanczos filter to fit a size can give
/// the other. It may be able to give several.
pub uninterp spec fn resampled(from: Picture, size: (u32, u32), to: Picture) -> bool;

/// The JPEG of a picture, or the error message of the encoder.
pub uninterp spec fn jpeg_of(picture: Picture, quality: u8) -> Result<Seq<u8>, Seq<char>>;

/// `image::load_from_memory`: the picture in bytes, or the message of the
/// error. The result depends on the bytes alone.
#[verifier::external_body]
fn load_image(bytes: &Vec<u8>) -> (r: Result<image::DynamicImage, String>)
    ensures
        match r {
            Ok(image) => loaded(bytes@) == Ok::<Picture, Seq<char>>(picture_of(image)),
            Err(e) => loaded(bytes@) == Err::<Picture, Seq<char>>(e@),
        },
{
    image::load_from_memory(bytes).map_err(|e| e.to_string())
}

/// `DynamicImage::dimensions`: the width and height of a picture.
#[verifier::external_body]
fn size_of_image(image: &image::DynamicImage) -> (r: (u32, u32))
    ensures
        r == (picture_of(*image).width, picture_of(*image).height),
{
    image.dimensions()
}

/// `DynamicImage::crop_imm`: the part of a picture with the given corner and
/// size, which depends on them and the picture alone. A part that lies within
/// the picture has that size.
#[verifier::external_body]
fn crop_image(image: &image::DynamicImage, corner: (u32, u32), size: (u32, u32)) -> (r:
    image::DynamicImage)
    ensures
        picture_of(r) == cropped(picture_of(*image), corner, size),
        corner.0 + size.0 <= picture_of(*image).width && corner.1 + size.1 <= picture_of(
            *image,
        ).height ==> (picture_of(r).width, picture_of(r).height) == size,
{
    image.crop_imm(corner.0, corner.1, size.0, size.1)
}

/// `DynamicImage::resize` with the Lanczos filter: a picture resampled to the
/// largest size of its shape that fits a size. Where the size has no edge of
/// 0, neither edge of the result is 0 or longer, and where there is anything
/// to sample from, one of them is as long. A size that is not much larger
/// than the picture is one that there is room for.
///
/// The result is one that resampling this picture to this size can give.
/// Which of them is left open: the filter goes through `f32::sin`, whose
/// precision may vary between machines.
#[verifier::external_body]
fn resize_image(image: &image::DynamicImage, size: (u32, u32)) -> (r: image::DynamicImage)
    requires
        size.0 <= at_least_one(picture_of(*image).width as nat),
        size.1 <= at_least_one(picture_of(*image).height as nat),
    ensures
        resampled(picture_of(*image), size, picture_of(r)),
        size.0 > 0 && size.1 > 0 ==> fits(picture_of(*image), size, picture_of(r)),
{
    image.resize(size.0, size.1, FilterType::Lanczos3)
}

/// `JpegEncoder::encode_image` of an encoder with a quality: the JPEG of a
/// picture, or the message of the error. The result depends on the picture
/// and the quality alone.
#[verifier::external_body]
fn encode_image(image: &image::DynamicImage, quality: u8) -> (r: Result<Vec<u8>, String>)
    ensures
        match r {
            Ok(jpeg) => jpeg_of(picture_of(*image), quality) == Ok::<Seq<u8>, Seq<char>>(jpeg@),
            Err(e) => jpeg_of(picture_of(*image), quality) == Err::<Seq<u8>, Seq<char>>(e@),
        },
{
    let mut jpeg: Vec<u8> = Vec::new();
    let mut encoder = JpegEncoder::new_with_quality(&mut jpeg, quality);
    encoder.encode_image(image).map_err(|e| e.to_string())?;
    Ok(jpeg)
}

/// A picture has a size that another can be resampled to so as to fit a size.
pub open spec fn fits(from: Picture, size: (u32, u32), to: Picture) -> bool {
    &&& 0 < to.width <= size.0
    &&& 0 < to.height <= size.1
    &&& from.width > 0 && from.height > 0 ==> to.width == size.0 || to.height == size.1
}

/// A picture is another one shrunk so that its longest edge is at most
/// `max_dimension`: that picture itself where it is small enough, and else
/// what resampling it to its target size can give. 0 disables resizing, and
/// nothing is upscaled.
pub open spec fn shrunk(from: Picture, max_dimension: u32, to: Picture) -> bool {
    let (w, h) = target_size(from.width as nat, from.height as nat, max_dimension as nat);
    if (w, h) == (from.width as nat, from.height as nat) {
        to == from
    } else {
        let size = (w as u32, h as u32);
        fits(from, size, to) && resampled(from, size, to)
    }
}

/// The data URL of a picture, or what went wrong.
pub open spec fn picture_url(picture: Picture) -> Result<Seq<char>, Seq<char>> {
    match jpeg_of(picture, JPEG_QUALITY) {
        Ok(jpeg) => Ok("data:image/jpeg;base64,"@ + base64_text::encoded(jpeg)),
        Err(e) => Err("screenshot encode failed: "@ + e),
    }
}

/// The data URLs of pictures, or what went wrong with the first that failed.
pub open spec fn picture_urls(pictures: Seq<Picture>) -> Result<Seq<Seq<char>>, Seq<char>>
    decreases pictures.len(),
{
    if pictures.len() == 0 {
        Ok(Seq::empty())
    } else {
        match picture_urls(pictures.drop_last()) {
            Err(e) => Err(e),
            Ok(before) => match picture_url(pictures.last()) {
                Err(e) => Err(e),
                Ok(url) => Ok(before.push(url)),
            },
        }
    }
}

/// A band of a picture.
pub open spec fn band_of(picture: Picture, coverage: int, band_height: int, i: int) -> Picture {
    let (top, rows) = band_rows(coverage, band_height, i);
    cropped(picture, (0, top as u32), (picture.width, rows as u32))
}

/// A picture is a tile: a band that has the full width and its number of
/// rows, shrunk.
pub open spec fn is_tile(
    picture: Picture,
    coverage: int,
    band_height: int,
    max_dimension: u32,
    i: int,
    tile: Picture,
) -> bool {
    let band = band_of(picture, coverage, band_height, i);
    &&& band.width == picture.width
    &&& band.height == band_rows(coverage, band_height, i).1
    &&& shrunk(band, max_dimension, tile)
}

/// The pictures are the first tiles of a picture, from the top down.
pub open spec fn are_tiles(
    picture: Picture,
    coverage: int,
    band_height: int,
    max_dimension: u32,
    tiles: Seq<Picture>,
) -> bool {
    &&& tiles.len() <= tiles_for(coverage, band_height)
    &&& forall|i: int|
        0 <= i < tiles.len() ==> is_tile(
            picture,
            coverage,
            band_height,
            max_dimension,
            i,
            #[trigger] tiles[i],
        )
}

/// What came of tiles: the data URLs of all of them, or what went wrong with
/// the first that failed.
pub open spec fn encoded_as(
    picture: Picture,
    coverage: int,
    band_height: int,
    max_dimension: u32,
    tiles: Seq<Picture>,
    urls: Result<Seq<Seq<char>>, Seq<char>>,
) -> bool {
    &&& are_tiles(picture, coverage, band_height, max_dimension, tiles)
    &&& urls == picture_urls(tiles)
    &&& urls is Ok ==> tiles.len() == tiles_for(coverage, band_height)
}

/// No edge of a tile is longer than `max_dimension`, unless that is 0.
pub proof fn law_tiles_are_small(
    picture: Picture,
    coverage: u32,
    band_height: u32,
    max_dimension: u32,
    tiles: Seq<Picture>,
    i: int,
)
    requires
        are_tiles(picture, coverage as int, band_height as int, max_dimension, tiles),
        max_dimension > 0,
        0 <= i < tiles.len(),
    ensures
        tiles[i].width <= max_dimension,
        tiles[i].height <= max_dimension,
{
    let band = band_of(picture, coverage as int, band_height as int, i);
    assert(is_tile(picture, coverage as int, band_height as int, max_dimension, i, tiles[i]));
    law_tiles_fit(band.width, band.height, max_dimension);
}

/// Every tile shows its own band: it is the band, or what resampling the band
/// can give.
pub proof fn law_tiles_show_their_bands(
    picture: Picture,
    coverage: u32,
    band_height: u32,
    max_dimension: u32,
    tiles: Seq<Picture>,
    i: int,
)
    requires
        are_tiles(picture, coverage as int, band_height as int, max_dimension, tiles),
        0 <= i < tiles.len(),
    ensures
        ({
            let band = band_of(picture, coverage as int, band_height as int, i);
            let (w, h) = target_size(band.width as nat, band.height as nat, max_dimension as nat);
            tiles[i] == band || resampled(band, (w as u32, h as u32), tiles[i])
        }),
{
    assert(is_tile(picture, coverage as int, band_height as int, max_dimension, i, tiles[i]));
}

/// Where resizing is off or every band is small enough, the tiles are the
/// bands as they are.
pub proof fn law_small_bands_are_kept(
    picture: Picture,
    coverage: u32,
    band_height: u32,
    max_dimension: u32,
    tiles: Seq<Picture>,
    i: int,
)
    requires
        are_tiles(picture, coverage as int, band_height as int, max_dimension, tiles),
        max_dimension == 0 || picture.width <= max_dimension && band_height <= max_dimension,
        0 <= i < tiles.len(),
    ensures
        tiles[i] == band_of(picture, coverage as int, band_height as int, i),
{
    assert(is_tile(picture, coverage as int, band_height as int, max_dimension, i, tiles[i]));
}

/// What a picture becomes: the data URLs of its tiles, or what went wrong with
/// the first that failed.
pub open spec fn tiled_as(
    picture: Picture,
    coverage: int,
    band_height: int,
    max_dimension: u32,
    urls: Result<Seq<Seq<char>>, Seq<char>>,
) -> bool {
    exists|tiles: Seq<Picture>| #[trigger]
        encoded_as(picture, coverage, band_height, max_dimension, tiles, urls)
}

/// The lower of two heights.
pub open spec fn covered(height: u32, height_cap: u32) -> u32 {
    if height < height_cap {
        height
    } else {
        height_cap
    }
}

/// What a base64-encoded capture becomes: the data URLs of its tiles, or what
/// went wrong.
pub open spec fn captured_as(
    png_base64: Seq<char>,
    max_dimension: u32,
    height_cap: u32,
    band_height: u32,
    urls: Result<Seq<Seq<char>>, Seq<char>>,
) -> bool {
    match base64_text::decoded(png_base64) {
        Err(e) => urls == Err::<Seq<Seq<char>>, Seq<char>>(
            "screenshot base64 decode failed: "@ + e,
        ),
        Ok(bytes) => match loaded(bytes) {
            Err(e) => urls == Err::<Seq<Seq<char>>, Seq<char>>("screenshot decode failed: "@ + e),
            Ok(picture) => tiled_as(
                picture,
                covered(picture.height, height_cap) as int,
                band_height as int,
                max_dimension,
                urls,
            ),
        },
    }
}

/// What a result says.
pub open spec fn told(r: Result<Vec<String>, String>) -> Result<Seq<Seq<char>>, Seq<char>> {
    match r {
        Ok(urls) => Ok(text::views(urls@)),
        Err(message) => Err(message@),
    }
}

/// Downscales a picture so that its longest edge is at most `max_dimension`.
fn shrink(image: image::DynamicImage, max_dimension: u32) -> (r: image::DynamicImage)
    ensures
        shrunk(picture_of(image), max_dimension, picture_of(r)),
{
    let (width, height): (u32, u32) = size_of_image(&image);
    let size: (u32, u32) = scaled_size(width, height, max_dimension);
    proof {
        law_nothing_grows(width, height, max_dimension);
    }
    if size.0 == width && size.1 == height {
        image
    } else {
        resize_image(&image, size)
    }
}

/// JPEG-encodes a picture into a data URL.
///
/// # Errors
///
/// Returns a description when the encoder fails.
pub fn jpeg_data_url(image: &image::DynamicImage) -> (r: Result<String, String>)
    ensures
        match r {
            Ok(url) => picture_url(picture_of(*image)) == Ok::<Seq<char>, Seq<char>>(url@),
            Err(m) => picture_url(picture_of(*image)) == Err::<Seq<char>, Seq<char>>(m@),
        },
{
    match encode_image(image, JPEG_QUALITY) {
        Ok(jpeg) => {
            let mut url = "data:image/jpeg;base64,".to_owned();
            url.append(base64_text::encode(&jpeg).as_str());
            Ok(url)
        },
        Err(e) => {
            let mut message = "screenshot encode failed: ".to_owned();
            message.append(e.as_str());
            Err(message)
        },
    }
}

/// Downscales (optional) and JPEG-encodes the bands of a picture, each into a
/// data URL.
fn encode_tiles(
    image: &image::DynamicImage,
    coverage: u32,
    band_height: u32,
    max_dimension: u32,
) -> (r: Result<Vec<String>, String>)
    requires
        coverage <= picture_of(*image).height,
    ensures
        tiled_as(
            picture_of(*image),
            coverage as int,
            band_height as int,
            max_dimension,
            told(r),
        ),
{
    let (width, _): (u32, u32) = size_of_image(image);
    let count: u32 = tile_count(coverage, band_height);
    let mut urls: Vec<String> = Vec::new();
    let mut i: u32 = 0;
    let ghost p = picture_of(*image);
    let ghost c = coverage as int;
    let ghost b = band_height as int;
    let ghost mut tiles: Seq<Picture> = Seq::empty();
    assert(text::views(urls@) =~= Seq::<Seq<char>>::empty());
    while i < count
        invariant
            i <= count,
            count == tiles_for(c, b),
            p == picture_of(*image) && width == p.width && c == coverage && b == band_height,
            c <= p.height,
            tiles.len() == i,
            are_tiles(p, c, b, max_dimension, tiles),
            picture_urls(tiles) == Ok::<Seq<Seq<char>>, Seq<char>>(text::views(urls@)),
        decreases count - i,
    {
        assert(i * b < c) by (nonlinear_arith)
            requires
                0 < c,
                0 <= b,
                b == 0 ==> i == 0,
                b > 0 ==> i < (c + b - 1) / b,
                0 <= i,
        ;
        let top: u32 = i * band_height;
        let left: u32 = coverage - top;
        let rows: u32 = if left < band_height {
            left
        } else {
            band_height
        };
        assert(band_rows(c, b, i as int) == (top as int, rows as int));
        let band = crop_image(image, (0, top), (width, rows));
        let small = shrink(band, max_dimension);
        let outcome = jpeg_data_url(&small);
        proof {
            let more = tiles.push(picture_of(small));
            assert(more.drop_last() =~= tiles);
            assert(is_tile(p, c, b, max_dimension, i as int, picture_of(small)));
            assert forall|k: int| 0 <= k < more.len() implies is_tile(
                p,
                c,
                b,
                max_dimension,
                k,
                #[trigger] more[k],
            ) by {
                if k < i {
                    assert(is_tile(p, c, b, max_dimension, k, tiles[k]));
                }
            }
            tiles = more;
        }
        match outcome {
            Ok(url) => {
                let ghost before = text::views(urls@);
                urls.push(url);
                assert(text::views(urls@) =~= before.push(url@));
            },
            Err(e) => {
                let r: Result<Vec<String>, String> = Err(e);
                assert(encoded_as(p, c, b, max_dimension, tiles, told(r)));
                return r;
            },
        }
        i += 1;
    }
    let r: Result<Vec<String>, String> = Ok(urls);
    assert(encoded_as(p, c, b, max_dimension, tiles, told(r)));
    r
}

/// Turns a base64-encoded capture of the full page into one JPEG data URL per
/// viewport-tall band, ordered from the top of the page down — suitable for
/// `image_url` content parts.
///
/// The capture is covered from the top to `height_cap` pixels (what is no
/// taller than a band is returned as a single tile). Each band is
/// downscaled independently so its longest edge is at most `max_dimension`
/// (no upscaling; `0` disables resizing). The number of tiles is bounded by
/// [`MAX_TILES`].
///
/// # Errors
///
/// Returns a description when the base64 decode, PNG decode or JPEG encode
/// fails.
pub fn capture_screenshot_data_urls(
    png_base64: &str,
    max_dimension: u32,
    height_cap: u32,
    band_height: u32,
) -> (r: Result<Vec<String>, String>)
    ensures
        captured_as(png_base64@, max_dimension, height_cap, band_height, told(r)),
{
    let bytes = match base64_text::decode(png_base64) {
        Ok(b) => b,
        Err(e) => {
            let mut message = "screenshot base64 decode failed: ".to_owned();
            message.append(e.as_str());
            return Err(message);
        },
    };
    let image = match load_image(&bytes) {
        Ok(image) => image,
        Err(e) => {
            let mut message = "screenshot decode failed: ".to_owned();
            message.append(e.as_str());
            return Err(message);
        },
    };
    let (_, height): (u32, u32) = size_of_image(&image);
    let coverage: u32 = if height < height_cap {
        height
    } else {
        height_cap
    };
    encode_tiles(&image, coverage, band_height, max_dimension)
}

/// An image that is too large is shrunk until its longest edge is just as long
/// as is allowed; the other keeps the shape to within a pixel.
pub proof fn law_shrinking_keeps_the_shape(width: u32, height: u32, max_dimension: u32)
    requires
        0 < max_dimension,
        max_dimension < width || max_dimension < height,
    ensures
        ({
            let (w, h) = target_size(width as nat, height as nat, max_dimension as nat);
            let m = max_dimension as int;
            &&& width >= height ==> w == m && h * width <= m * height + width && m * height <= h
                * width + width
            &&& height >= width ==> h == m && w * height <= m * width + height && m * width <= w
                * height + height
        }),
{
    let longest = if width < height {
        height as nat
    } else {
        width as nat
    };
    let m = max_dimension as nat;
    numbers::law_scaled_edges_keep_the_ratio(width as nat, m, longest);
    numbers::law_scaled_edges_keep_the_ratio(height as nat, m, longest);
    let a = numbers::scaled_edge(width as nat, m, longest);
    let b = numbers::scaled_edge(height as nat, m, longest);
    if width >= height {
        lemma_exact_edge(a, m, longest);
        if b == 0 {
            assert(0 * longest == 0);
            assert(1 * longest == longest);
        }
    }
    if height >= width {
        lemma_exact_edge(b, m, longest);
        if a == 0 {
            assert(0 * longest == 0);
            assert(1 * longest == longest);
        }
    }
}

/// An edge that keeps the ratio of itself is the limit.
proof fn lemma_exact_edge(s: nat, m: nat, longest: nat)
    requires
        0 < longest,
        1048576 * (2 * (s * longest)) <= 1048576 * (2 * (m * longest) + longest) + 3 * longest,
        1048576 * (2 * (m * longest)) <= 1048576 * (2 * (s * longest) + longest) + 3 * longest,
    ensures
        s == m,
{
    assert(2097152 * s <= 2097152 * m + 1048579) by (nonlinear_arith)
        requires
            0 < longest,
            1048576 * (2 * (s * longest)) <= 1048576 * (2 * (m * longest) + longest) + 3 * longest,
    ;
    assert(2097152 * m <= 2097152 * s + 1048579) by (nonlinear_arith)
        requires
            0 < longest,
            1048576 * (2 * (m * longest)) <= 1048576 * (2 * (s * longest) + longest) + 3 * longest,
    ;
}

/// There are as many tiles as it takes to cover the page, thirty at most.
pub proof fn law_tiles_are_as_many_as_needed(coverage: u32, band_height: u32)
    ensures
        ({
            let n = tiles_for(coverage as int, band_height as int);
            &&& 0 <= n <= 30
            &&& coverage == 0 ==> n == 0
            &&& coverage > 0 ==> n >= 1
            &&& coverage > 0 && band_height == 0 ==> n == 1
            &&& coverage > 0 && band_height > 0 ==> (n - 1) * band_height < coverage
            &&& band_height > 0 && n < 30 ==> coverage <= n * band_height
        }),
{
    if coverage > 0 && band_height > 0 {
        let c = coverage as int;
        let b = band_height as int;
        let bands = (c + b - 1) / b;
        assert((bands - 1) * b < c && c <= bands * b && bands >= 1) by (nonlinear_arith)
            requires
                c > 0,
                b > 0,
                bands == (c + b - 1) / b,
        ;
        let n = tiles_for(c, b);
        assert((n - 1) * b <= (bands - 1) * b) by (nonlinear_arith)
            requires
                n <= bands,
                b > 0,
        ;
    } else if coverage == 0 && band_height > 0 {
        assert(0 * (band_height as int) == 0);
    }
}

/// No more of the page is shown than there is, or than is allowed.
pub proof fn law_coverage_is_the_smaller(height: u32, height_cap: u32)
    ensures
        covered(height, height_cap) <= height,
        covered(height, height_cap) <= height_cap,
        covered(height, height_cap) == height || covered(height, height_cap) == height_cap,
{
}

/// A picture goes out as a data URL of its JPEG, or not at all.
pub proof fn law_pictures_go_out_as_data_urls(picture: Picture)
    ensures
        picture_url(picture) is Ok <==> jpeg_of(picture, 85) is Ok,
        picture_url(picture) matches Ok(url) ==> url == "data:image/jpeg;base64,"@
            + base64_text::encoded(jpeg_of(picture, 85)->Ok_0),
        picture_url(picture) matches Err(m) ==> text::has_text(m, jpeg_of(picture, 85)->Err_0),
{
    if let Err(e) = jpeg_of(picture, 85) {
        text::lemma_middle("screenshot encode failed: "@, e, Seq::empty());
        assert("screenshot encode failed: "@ + e + Seq::<char>::empty()
            =~= "screenshot encode failed: "@ + e);
    }
}

/// Each tile has its URL, in the order of the tiles.
pub proof fn law_urls_are_in_the_order_of_the_tiles(pictures: Seq<Picture>)
    ensures
        picture_urls(pictures) matches Ok(urls) ==> urls.len() == pictures.len() && forall|i: int|
            0 <= i < urls.len() ==> picture_url(pictures[i]) == Ok::<Seq<char>, Seq<char>>(
                #[trigger] urls[i],
            ),
        picture_urls(pictures) is Err <==> exists|i: int|
            0 <= i < pictures.len() && picture_url(#[trigger] pictures[i]) is Err,
    decreases pictures.len(),
{
    if pictures.len() > 0 {
        let rest = pictures.drop_last();
        law_urls_are_in_the_order_of_the_tiles(rest);
        assert(pictures[pictures.len() - 1] == pictures.last());
        match picture_urls(rest) {
            Ok(before) => {
                if let Ok(url) = picture_url(pictures.last()) {
                    assert forall|i: int| 0 <= i < pictures.len() implies picture_url(
                        #[trigger] pictures[i],
                    ) == Ok::<Seq<char>, Seq<char>>(before.push(url)[i]) by {
                        if i < rest.len() {
                            assert(rest[i] == pictures[i]);
                            assert(before[i] == before.push(url)[i]);
                        }
                    }
                }
            },
            Err(_) => {
                let i = choose|i: int| 0 <= i < rest.len() && picture_url(#[trigger] rest[i]) is Err;
                assert(pictures[i] == rest[i]);
            },
        }
    }
}

/// A page is shown by as many pictures as it takes to cover it from the top, as
/// far as is allowed, each with its URL; or by none, and then it is said why.
pub proof fn law_captures_cover_the_page(
    png_base64: Seq<char>,
    max_dimension: u32,
    height_cap: u32,
    band_height: u32,
    urls: Result<Seq<Seq<char>>, Seq<char>>,
)
    requires
        captured_as(png_base64, max_dimension, height_cap, band_height, urls),
    ensures
        base64_text::decoded(png_base64) is Err ==> urls is Err,
        base64_text::decoded(png_base64) is Ok && loaded(base64_text::decoded(png_base64)->Ok_0)
            is Err ==> urls is Err,
        (base64_text::decoded(png_base64) is Ok && (loaded(
            base64_text::decoded(png_base64)->Ok_0,
        ) matches Ok(picture) && urls matches Ok(list) && picture.height > 0 && height_cap > 0
            && band_height > 0)) ==> {
            let picture = loaded(base64_text::decoded(png_base64)->Ok_0)->Ok_0;
            let n = urls->Ok_0.len() as int;
            let rows = if picture.height < height_cap {
                picture.height as int
            } else {
                height_cap as int
            };
            &&& 1 <= n <= 30
            &&& (n - 1) * band_height < rows
            &&& n < 30 ==> rows <= n * band_height
        },
{
    match base64_text::decoded(png_base64) {
        Ok(bytes) => {
            match loaded(bytes) {
                Ok(picture) => {
                    let cover = covered(picture.height, height_cap);
                    law_tiles_are_as_many_as_needed(cover, band_height);
                    if urls is Ok {
                        let tiles = choose|tiles: Seq<Picture>| #[trigger]
                            encoded_as(
                                picture,
                                cover as int,
                                band_height as int,
                                max_dimension,
                                tiles,
                                urls,
                            );
                        law_urls_are_in_the_order_of_the_tiles(tiles);
                    }
                },
                Err(_) => {},
            }
        },
        Err(_) => {},
    }
}

} // verus!
