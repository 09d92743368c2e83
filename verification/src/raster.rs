use vstd::arithmetic::div_mod::lemma_fundamental_div_mod_converse;
use crate::text::{decimal_digits, decimal_string};
use vstd::prelude::*;
use vstd::string::StringExecFns;

verus! {

/// Byte offset, in a BGRA bitmap with rows `stride` bytes apart, of pixel `p`
/// of a `width`-pixel-wide image.
pub open spec fn bgra_offset(p: int, width: int, stride: int) -> int {
    (p / width) * stride + (p % width) * 4
}

/// Tightly packed RGB bytes of a BGRA bitmap.
pub open spec fn rgb_of_bgra(src: Seq<u8>, width: int, height: int, stride: int) -> Seq<u8> {
    Seq::new(
        (width * height * 3) as nat,
        |i: int| src[bgra_offset(i / 3, width, stride) + (2 - i % 3)],
    )
}

/// Tightly packed RGBA bytes of a BGRA bitmap.
pub open spec fn rgba_of_bgra(src: Seq<u8>, width: int, height: int, stride: int) -> Seq<u8> {
    Seq::new(
        (width * height * 4) as nat,
        |i: int|
            src[bgra_offset(i / 4, width, stride) + if i % 4 == 3 {
                3
            } else {
                2 - i % 4
            }],
    )
}

/// Whether every row of a `width` x `height` bitmap with rows `stride` bytes
/// apart lies inside `len` bytes.
pub open spec fn rows_fit(len: int, width: int, height: int, stride: int) -> bool {
    height == 0 || (height - 1) * stride + width * 4 <= len
}

proof fn lemma_pixel_split(p: int, width: int, x: int, y: int)
    requires
        width > 0,
        0 <= x < width,
        y >= 0,
        p == y * width + x,
    ensures
        p / width == y,
        p % width == x,
{
    lemma_fundamental_div_mod_converse(p, width, y, x);
}

proof fn lemma_byte_split(p: int, k: int, n: int)
    requires
        n > 0,
        0 <= k < n,
        p >= 0,
    ensures
        (p * n + k) / n == p,
        (p * n + k) % n == k,
{
    lemma_fundamental_div_mod_converse(p * n + k, n, p, k);
}

/// Converts BGRA bitmap rows into RGB model input and RGBA annotation buffers.
pub fn bgra_to_rgb_and_rgba(src: &[u8], width: usize, height: usize, stride: usize) -> (out: (
    Vec<u8>,
    Vec<u8>,
))
    requires
        width * height * 4 <= usize::MAX,
        rows_fit(src@.len() as int, width as int, height as int, stride as int),
    ensures
        out.0@ == rgb_of_bgra(src@, width as int, height as int, stride as int),
        out.1@ == rgba_of_bgra(src@, width as int, height as int, stride as int),
{
    let ghost w = width as int;
    let ghost h = height as int;
    let ghost s = stride as int;
    let ghost bytes = src@;
    let mut rgb: Vec<u8> = Vec::new();
    let mut rgba: Vec<u8> = Vec::new();
    if width == 0 || height == 0 {
        assert(width * height == 0) by (nonlinear_arith)
            requires
                width == 0 || height == 0,
        ;
        assert(rgb@ =~= rgb_of_bgra(bytes, w, h, s));
        assert(rgba@ =~= rgba_of_bgra(bytes, w, h, s));
        return (rgb, rgba);
    }
    let src_len = src.len();
    assert(width * 4 <= width * height * 4) by (nonlinear_arith)
        requires
            height > 0,
    ;
    let mut y: usize = 0;
    while y < height
        invariant
            src_len == bytes.len(),
            width * 4 <= usize::MAX,
            w == width,
            h == height,
            s == stride,
            bytes == src@,
            width > 0,
            height > 0,
            y <= height,
            width * height * 4 <= usize::MAX,
            rows_fit(bytes.len() as int, w, h, s),
            rgb@.len() == y * w * 3,
            rgba@.len() == y * w * 4,
            forall|i: int| 0 <= i < rgb@.len() ==> #[trigger] rgb@[i] == bytes[bgra_offset(i / 3, w, s) + (2 - i % 3)],
            forall|i: int|
                0 <= i < rgba@.len() ==> #[trigger] rgba@[i] == bytes[bgra_offset(i / 4, w, s) + if i % 4 == 3 {
                    3
                } else {
                    2 - i % 4
                }],
        decreases height - y,
    {
        proof {
            assert(y * stride + width * 4 <= src_len) by (nonlinear_arith)
                requires
                    y < height,
                    (height - 1) * stride + width * 4 <= src_len,
            ;
        }
        let row_start = y * stride;
        let mut x: usize = 0;
        while x < width
            invariant
                w == width,
                h == height,
                s == stride,
                bytes == src@,
                width > 0,
                y < height,
                x <= width,
                width * height * 4 <= usize::MAX,
                row_start == y * s,
                row_start + w * 4 <= bytes.len(),
                src_len == bytes.len(),
                width * 4 <= usize::MAX,
                rgb@.len() == (y * w + x) * 3,
                rgba@.len() == (y * w + x) * 4,
                forall|i: int|
                    0 <= i < rgb@.len() ==> #[trigger] rgb@[i] == bytes[bgra_offset(i / 3, w, s) + (2 - i % 3)],
                forall|i: int|
                    0 <= i < rgba@.len() ==> #[trigger] rgba@[i] == bytes[bgra_offset(i / 4, w, s) + if i % 4
                        == 3 {
                        3
                    } else {
                        2 - i % 4
                    }],
            decreases width - x,
        {
            let p = row_start + x * 4;
            let blue = src[p];
            let green = src[p + 1];
            let red = src[p + 2];
            let alpha = src[p + 3];
            let ghost pixel = y * w + x;
            proof {
                lemma_pixel_split(pixel, w, x as int, y as int);
                assert(bgra_offset(pixel, w, s) == p);
                assert(pixel < w * h) by (nonlinear_arith)
                    requires
                        pixel == y * w + x,
                        x < w,
                        y < h,
                ;
                assert(pixel * 4 + 4 <= w * h * 4);
                lemma_byte_split(pixel, 0, 3);
                lemma_byte_split(pixel, 1, 3);
                lemma_byte_split(pixel, 2, 3);
                lemma_byte_split(pixel, 0, 4);
                lemma_byte_split(pixel, 1, 4);
                lemma_byte_split(pixel, 2, 4);
                lemma_byte_split(pixel, 3, 4);
            }
            rgb.push(red);
            rgb.push(green);
            rgb.push(blue);
            rgba.push(red);
            rgba.push(green);
            rgba.push(blue);
            rgba.push(alpha);
            proof {
                assert((y * w + x + 1) * 3 == pixel * 3 + 3);
                assert((y * w + x + 1) * 4 == pixel * 4 + 4);
            }
            x = x + 1;
        }
        proof {
            assert(y * w + w == (y + 1) * w) by (nonlinear_arith);
        }
        y = y + 1;
    }
    proof {
        assert(y * w * 3 == w * h * 3) by (nonlinear_arith)
            requires
                y == h,
        ;
        assert(y * w * 4 == w * h * 4) by (nonlinear_arith)
            requires
                y == h,
        ;
        assert(rgb@ =~= rgb_of_bgra(bytes, w, h, s));
        assert(rgba@ =~= rgba_of_bgra(bytes, w, h, s));
    }
    (rgb, rgba)
}

/// Why a one-based page range cannot be rendered.
#[derive(Debug, Clone, Copy, PartialEq, Eq, Structural)]
pub enum PageRangeError {
    /// The first page number is zero.
    ZeroStartPage,
    /// The page count is zero.
    ZeroCount,
    /// The last page number does not fit in `u32`.
    Overflow,
    /// The last page lies beyond the document.
    OutOfRange,
}

/// Checks a one-based page range of `count` pages starting at `start_page`
/// against a document of `page_count` pages and returns its last page number.
pub fn checked_page_range(start_page: u32, count: u32, page_count: u32) -> (result: Result<u32, PageRangeError>)
    ensures
        start_page == 0 ==> result == Err::<u32, PageRangeError>(PageRangeError::ZeroStartPage),
        start_page > 0 && count == 0 ==> result == Err::<u32, PageRangeError>(PageRangeError::ZeroCount),
        start_page > 0 && count > 0 && start_page + count - 1 > u32::MAX ==> result == Err::<
            u32,
            PageRangeError,
        >(PageRangeError::Overflow),
        start_page > 0 && count > 0 && start_page + count - 1 <= u32::MAX && start_page + count - 1
            > page_count ==> result == Err::<u32, PageRangeError>(PageRangeError::OutOfRange),
        start_page > 0 && count > 0 && start_page + count - 1 <= page_count ==> result == Ok::<
            u32,
            PageRangeError,
        >((start_page + count - 1) as u32),
{
    if start_page == 0 {
        return Err(PageRangeError::ZeroStartPage);
    }
    if count == 0 {
        return Err(PageRangeError::ZeroCount);
    }
    let end_page = match start_page.checked_add(count - 1) {
        Some(end_page) => end_page,
        None => return Err(PageRangeError::Overflow),
    };
    if end_page > page_count {
        return Err(PageRangeError::OutOfRange);
    }
    Ok(end_page)
}

impl PageRangeError {
    /// The text with which a refused range of `count` pages from `start_page`
    /// in a document of `page_count` pages is reported.
    pub open spec fn spec_message(self, start_page: u32, count: u32, page_count: u32) -> Seq<char> {
        match self {
            PageRangeError::ZeroStartPage => "startPage is 1-based and must be greater than 0"@,
            PageRangeError::ZeroCount => "count must be greater than 0"@,
            PageRangeError::Overflow => "page range overflow"@,
            PageRangeError::OutOfRange => "page range "@ + decimal_digits(start_page as nat) + "-"@
                + decimal_digits((start_page + count - 1) as nat) + " out of range; document has "@
                + decimal_digits(page_count as nat) + " pages"@,
        }
    }

    /// The text with which a refused range of `count` pages from `start_page`
    /// in a document of `page_count` pages is reported.
    pub fn message(self, start_page: u32, count: u32, page_count: u32) -> (text: String)
        requires
            self is OutOfRange ==> count > 0,
        ensures
            text@ == self.spec_message(start_page, count, page_count),
    {
        match self {
            PageRangeError::ZeroStartPage => String::from_str(
                "startPage is 1-based and must be greater than 0",
            ),
            PageRangeError::ZeroCount => String::from_str("count must be greater than 0"),
            PageRangeError::Overflow => String::from_str("page range overflow"),
            PageRangeError::OutOfRange => {
                let mut text = String::from_str("page range ");
                let start_text = decimal_string(start_page as u128);
                text.append(start_text.as_str());
                text.append("-");
                let end_text = decimal_string(start_page as u128 + count as u128 - 1);
                text.append(end_text.as_str());
                text.append(" out of range; document has ");
                let count_text = decimal_string(page_count as u128);
                text.append(count_text.as_str());
                text.append(" pages");
                text
            },
        }
    }
}

/// The PNG file that the `png` crate writes for an 8-bit RGBA image of
/// `width` x `height` pixels with its default encoder settings.
pub uninterp spec fn png_rgba8_file(rgba: Seq<u8>, width: u32, height: u32) -> Seq<u8>;

/// The text with which the `png` crate refuses an image buffer of `actual`
/// bytes where `expected` are needed.
pub open spec fn png_size_error_text(expected: nat, actual: nat) -> Seq<char> {
    "wrong data size, expected "@ + decimal_digits(expected) + " got "@ + decimal_digits(actual)
}

/// What can be said of encoding an RGBA page as PNG, whatever the encoder
/// reports: a zero width, then a zero height, then a buffer of the wrong
/// length are refused with the `png` crate's texts; any other page is
/// encoded, into the crate's PNG file of the page.
pub open spec fn png_encoding_outcome(
    rgba: Seq<u8>,
    width: u32,
    height: u32,
    result: Result<Vec<u8>, String>,
) -> bool {
    &&& result is Ok <==> width > 0 && height > 0 && rgba.len() == width * height * 4
    &&& result matches Ok(bytes) ==> bytes@ == png_rgba8_file(rgba, width, height)
    &&& width == 0 ==> (result matches Err(text) && text@ == "Zero width not allowed"@)
    &&& width > 0 && height == 0 ==> (result matches Err(text) && text@ == "Zero height not allowed"@)
    &&& width > 0 && height > 0 && rgba.len() != width * height * 4 ==> (result matches Err(text)
        && text@ == png_size_error_text((width * height * 4) as nat, rgba.len()))
}

/// Calls `png::Encoder::new` on an in-memory buffer, sets colour type RGBA
/// and bit depth 8, writes the header (`Encoder::write_header`) and the
/// pixels (`Writer::write_image_data`) and lets the writer end the file when
/// it is dropped; a failure comes back as the error's display text. Claimed:
/// `Writer::init` refuses a zero width, then a zero height, and
/// `write_image_data` refuses data of another length than `width * height * 4`
/// with the texts of `png_encoding_outcome`, and nothing else fails: the
/// colour type and depth are a valid pair, the compressors and the chunk
/// writer write into in-memory vectors, and image data is cut into chunks no
/// longer than the chunk limit. A success is the named file.
#[verifier::external_body]
fn png_encode_rgba8(rgba: &[u8], width: u32, height: u32) -> (result: Result<Vec<u8>, String>)
    requires
        width * height * 4 <= usize::MAX,
    ensures
        result matches Ok(bytes) ==> bytes@ == png_rgba8_file(rgba@, width, height),
        png_encoding_outcome(rgba@, width, height, result),
{
    let mut png_bytes = Vec::new();
    {
        let mut encoder = png::Encoder::new(&mut png_bytes, width, height);
        encoder.set_color(png::ColorType::Rgba);
        encoder.set_depth(png::BitDepth::Eight);
        let mut writer = encoder.write_header().map_err(|error| error.to_string())?;
        writer.write_image_data(rgba).map_err(|error| error.to_string())?;
    }
    Ok(png_bytes)
}

/// Encodes an RGBA page buffer of `width` x `height` pixels as PNG bytes.
///
/// A zero width, a zero height or a buffer of another length than
/// `width * height * 4` is refused with the `png` crate's message; any other
/// page is encoded.
pub fn encode_png_rgba(rgba: &[u8], width: u32, height: u32) -> (result: Result<Vec<u8>, String>)
    requires
        width * height * 4 <= usize::MAX,
    ensures
        png_encoding_outcome(rgba@, width, height, result),
{
    png_encode_rgba8(rgba, width, height)
}

} // verus!
