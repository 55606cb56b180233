use image::{DynamicImage, ImageError};
use vstd::prelude::*;

verus! {

/// The quality of the pictures that are sent and saved, out of 100.
pub const JPEG_QUALITY: u8 = 50;

/// The longest side that a JPEG can have.
pub const MAX_JPEG_SIDE: u32 = 65535;

/// Declares `image::ImageError`, which is only carried.
#[verifier::external_type_specification]
#[verifier::external_body]
pub struct ExImageError(ImageError);

/// Why there is no picture.
#[derive(Debug)]
pub enum PictureError {
    /// A capture has fewer pixels than its size asks for.
    BufferTooSmall,
    /// Captures cannot be put below one another: they are too large together, or one
    /// of them is not an RGBA picture.
    NotStacked,
    /// The picture cannot be written as a JPEG.
    NotEncoded(ImageError),
}

/// How many bytes the pixels of an RGBA picture of this size take.
pub open spec fn rgba_len(width: u32, height: u32) -> int {
    4 * width * height
}

/// `len` bytes are enough for the pixels of an RGBA picture of this size. They never
/// are where a single row takes more than can be counted.
pub open spec fn pixels_suffice(width: u32, height: u32, len: nat) -> bool {
    4 * width <= usize::MAX && rgba_len(width, height) <= len
}

/// The RGBA picture of this size with these pixels, row by row from the top.
pub uninterp spec fn rgba_image(width: u32, height: u32, pixels: Seq<u8>) -> DynamicImage;

/// The width and height of an RGBA picture. Pictures of other kinds have none here.
pub uninterp spec fn image_size(image: DynamicImage) -> Option<(u32, u32)>;

/// The pixels of an RGBA picture, row by row from the top, four bytes each.
pub uninterp spec fn image_pixels(image: DynamicImage) -> Seq<u8>;

/// The JPEG file of a picture, if it has one.
pub uninterp spec fn jpeg_bytes(image: DynamicImage, quality: u8) -> Option<Seq<u8>>;

/// The pixels of a picture after one with the pixels `top` was drawn over it, whose
/// upper left corner is at `x` and `y`. What lies outside is cut off.
pub open spec fn drawn_pixels(
    bottom: Seq<u8>,
    bottom_size: (u32, u32),
    top: Seq<u8>,
    top_size: (u32, u32),
    x: int,
    y: int,
) -> Seq<u8> {
    Seq::new(
        bottom.len(),
        |k: int|
            {
                let column = k / 4 % (bottom_size.0 as int) - x;
                let row = k / 4 / (bottom_size.0 as int) - y;
                if k < rgba_len(bottom_size.0, bottom_size.1) && 0 <= column < top_size.0 && 0
                    <= row < top_size.1 {
                    top[4 * (row * top_size.0 + column) + k % 4]
                } else {
                    bottom[k]
                }
            },
    )
}

/// No side of a picture of this size is too long for a JPEG.
pub open spec fn is_jpeg_sized(size: (u32, u32)) -> bool {
    size.0 <= MAX_JPEG_SIDE && size.1 <= MAX_JPEG_SIDE
}

/// Calls `image::RgbaImage::from_raw`. Trusted: there is a picture exactly where the
/// pixels suffice for its size; it has that size and those pixels, and depends on the
/// arguments alone.
#[verifier::external_body]
fn rgba_from_raw(width: u32, height: u32, pixels: Vec<u8>) -> (res: Option<DynamicImage>)
    ensures
        res is Some <==> pixels_suffice(width, height, pixels@.len()),
        res matches Some(image) ==> image == rgba_image(width, height, pixels@),
        res matches Some(image) ==> image_size(image) == Some((width, height)),
        res matches Some(image) ==> image_pixels(image) == pixels@,
{
    image::RgbaImage::from_raw(width, height, pixels).map(DynamicImage::ImageRgba8)
}

/// Calls `image::DynamicImage::as_rgba8` and `image::RgbaImage::dimensions`. Trusted:
/// only an RGBA picture has a size here, and it depends on the picture alone.
#[verifier::external_body]
fn rgba_size(image: &DynamicImage) -> (res: Option<(u32, u32)>)
    ensures
        res == image_size(*image),
{
    image.as_rgba8().map(|rgba| rgba.dimensions())
}

/// Calls `image::DynamicImage::new_rgba8`. Trusted: it is the RGBA picture of the given
/// size all of whose bytes are zero. It panics where its pixels take more bytes than
/// a vector can have.
#[verifier::external_body]
fn blank_image(width: u32, height: u32) -> (image: DynamicImage)
    requires
        pixels_suffice(width, height, isize::MAX as nat),
    ensures
        image == rgba_image(width, height, blank_pixels(width, height)),
        image_size(image) == Some((width, height)),
        image_pixels(image) == blank_pixels(width, height),
{
    DynamicImage::new_rgba8(width, height)
}

/// Calls `image::imageops::replace`. Trusted: the picture stays an RGBA picture of its
/// size, in which the pixels of `top` stand in place of those that they cover. On
/// pictures whose channels are floating-point numbers it can panic.
#[verifier::external_body]
fn draw(picture: &mut DynamicImage, top: &DynamicImage, x: i64, y: i64)
    requires
        image_size(*old(picture)) is Some,
        image_size(*top) is Some,
    ensures
        image_size(*final(picture)) == image_size(*old(picture)),
        image_pixels(*final(picture)) == drawn_pixels(
            image_pixels(*old(picture)),
            image_size(*old(picture))->0,
            image_pixels(*top),
            image_size(*top)->0,
            x as int,
            y as int,
        ),
        *final(picture) == rgba_image(
            (image_size(*old(picture))->0).0,
            (image_size(*old(picture))->0).1,
            image_pixels(*final(picture)),
        ),
{
    image::imageops::replace(picture, top, x, y);
}

/// Calls `image::DynamicImage::write_with_encoder` with an encoder from
/// `image::codecs::jpeg::JpegEncoder::new_with_quality` that writes to memory.
/// Trusted: the file depends on the picture and the quality alone, and an RGBA
/// picture has one exactly where none of its sides is too long for a JPEG. Which
/// pictures of other kinds have one is not stated.
#[verifier::external_body]
fn write_jpeg(image: &DynamicImage, quality: u8) -> (res: Result<Vec<u8>, ImageError>)
    ensures
        res is Ok <==> jpeg_bytes(*image, quality) is Some,
        res matches Ok(bytes) ==> jpeg_bytes(*image, quality) == Some(bytes@),
        image_size(*image) matches Some(size) ==> (res is Ok <==> is_jpeg_sized(size)),
{
    let mut buf = Vec::new();
    let encoder = image::codecs::jpeg::JpegEncoder::new_with_quality(&mut buf, quality);
    image.write_with_encoder(encoder)?;
    Ok(buf)
}

/// The picture of a capture of this size, given its RGBA pixels row by row.
pub fn capture_image(width: u32, height: u32, pixels: Vec<u8>) -> (res: Result<
    DynamicImage,
    PictureError,
>)
    ensures
        match res {
            Ok(image) => {
                &&& pixels_suffice(width, height, pixels@.len())
                &&& image == rgba_image(width, height, pixels@)
                &&& image_size(image) == Some((width, height))
                &&& image_pixels(image) == pixels@
            },
            Err(err) => {
                &&& !pixels_suffice(width, height, pixels@.len())
                &&& err is BufferTooSmall
            },
        },
        res is Ok <==> 4 * width <= usize::MAX && 4 * width * height <= pixels@.len(),
{
    match rgba_from_raw(width, height, pixels) {
        Some(image) => Ok(image),
        None => Err(PictureError::BufferTooSmall),
    }
}

/// The JPEG file of a picture.
pub fn encode_jpeg(image: &DynamicImage) -> (res: Result<Vec<u8>, PictureError>)
    ensures
        match res {
            Ok(bytes) => jpeg_bytes(*image, JPEG_QUALITY) == Some(bytes@),
            Err(err) => jpeg_bytes(*image, JPEG_QUALITY) is None && err is NotEncoded,
        },
        res matches Ok(bytes) ==> jpeg_bytes(*image, 50) == Some(bytes@),
        image_size(*image) matches Some((width, height)) ==> (res is Ok <==> width <= 65535
            && height <= 65535),
        image_size(*image) matches Some(size) ==> (res is Ok <==> is_jpeg_sized(size)),
{
    match write_jpeg(image, JPEG_QUALITY) {
        Ok(bytes) => Ok(bytes),
        Err(err) => Err(PictureError::NotEncoded(err)),
    }
}

/// How captures are put below one another in one picture.
pub struct StackLayout {
    /// The size of the picture.
    pub width: u32,
    pub height: u32,
    /// The row at which each capture begins.
    pub tops: Vec<u32>,
}

/// The heights of the first `n` captures, given as pairs of width and height,
/// added up.
pub open spec fn stacked_height(sizes: Seq<(u32, u32)>, n: int) -> int
    decreases n,
{
    if n <= 0 {
        0
    } else {
        stacked_height(sizes, n - 1) + sizes[n - 1].1
    }
}

/// The width of the widest of the first `n` captures, or zero if there are none.
pub open spec fn stacked_width(sizes: Seq<(u32, u32)>, n: int) -> int
    decreases n,
{
    if n <= 0 {
        0
    } else {
        let before = stacked_width(sizes, n - 1);
        if sizes[n - 1].0 > before {
            sizes[n - 1].0 as int
        } else {
            before
        }
    }
}

/// How to put captures of these sizes, given as pairs of width and height, below
/// one another: each begins where the one before it ends. There is no such picture
/// where they are too high together.
pub fn stack_layout(sizes: &Vec<(u32, u32)>) -> (res: Option<StackLayout>)
    ensures
        res is Some <==> stacked_height(sizes@, sizes@.len() as int) <= u32::MAX,
        res matches Some(layout) ==> {
            &&& layout.width == stacked_width(sizes@, sizes@.len() as int)
            &&& layout.height == stacked_height(sizes@, sizes@.len() as int)
            &&& layout.tops@.len() == sizes@.len()
            &&& forall|i: int|
                0 <= i < sizes@.len() ==> #[trigger] layout.tops@[i] == stacked_height(sizes@, i)
            &&& sizes@.len() == 0 ==> layout.width == 0 && layout.height == 0
            &&& sizes@.len() > 0 ==> layout.tops@[0] == 0
            &&& sizes@.len() > 0 ==> layout.tops@[sizes@.len() - 1] + sizes@[sizes@.len() - 1].1
                == layout.height
            &&& forall|i: int, j: int|
                #![trigger layout.tops@[i], layout.tops@[j]]
                0 <= i && j == i + 1 && j < sizes@.len() ==> layout.tops@[j] == layout.tops@[i]
                    + sizes@[i].1
            &&& forall|i: int| 0 <= i < sizes@.len() ==> (#[trigger] sizes@[i]).0 <= layout.width
            &&& sizes@.len() > 0 ==> exists|i: int|
                0 <= i < sizes@.len() && (#[trigger] sizes@[i]).0 == layout.width
        },
{
    let mut width: u32 = 0;
    let mut height: u32 = 0;
    let mut tops: Vec<u32> = Vec::new();
    let mut i: usize = 0;
    while i < sizes.len()
        invariant
            i <= sizes@.len(),
            width == stacked_width(sizes@, i as int),
            height == stacked_height(sizes@, i as int),
            tops@.len() == i,
            forall|j: int| 0 <= j < i ==> #[trigger] tops@[j] == stacked_height(sizes@, j),
        decreases sizes.len() - i,
    {
        let size = sizes[i];
        tops.push(height);
        if size.0 > width {
            width = size.0;
        }
        height = match height.checked_add(size.1) {
            Some(sum) => sum,
            None => {
                proof {
                    lemma_stacked_height_grows(sizes@, i + 1, sizes@.len() as int);
                }
                return None;
            },
        };
        i += 1;
    }
    proof {
        assert forall|k: int| 0 <= k < sizes@.len() implies (#[trigger] sizes@[k]).0 <= width by {
            lemma_stacked_width_covers(sizes@, k, sizes@.len() as int);
        }
        if sizes@.len() > 0 {
            let widest = lemma_stacked_width_is_reached(sizes@, sizes@.len() as int);
            assert(sizes@[widest].0 == width);
        }
    }
    Some(StackLayout { width, height, tops })
}

proof fn lemma_stacked_height_grows(sizes: Seq<(u32, u32)>, n: int, m: int)
    requires
        0 <= n <= m,
    ensures
        stacked_height(sizes, n) <= stacked_height(sizes, m),
    decreases m - n,
{
    if n < m {
        lemma_stacked_height_grows(sizes, n, m - 1);
    }
}

/// The pixels of a picture of this size all of whose bytes are zero.
pub open spec fn blank_pixels(width: u32, height: u32) -> Seq<u8> {
    Seq::new(rgba_len(width, height) as nat, |i: int| 0u8)
}

/// The sizes of captures that are RGBA pictures.
pub open spec fn sizes_of(captures: Seq<DynamicImage>) -> Seq<(u32, u32)> {
    captures.map_values(|capture: DynamicImage| image_size(capture)->0)
}

/// The size of the picture in which captures are put below one another: as wide as
/// the widest, and as high as all of them together.
pub open spec fn stacked_size(captures: Seq<DynamicImage>) -> (int, int) {
    let n = captures.len() as int;
    (stacked_width(sizes_of(captures), n), stacked_height(sizes_of(captures), n))
}

/// Captures can be put below one another: they are RGBA pictures, and the one that
/// they make is not too large to be held.
pub open spec fn can_stack(captures: Seq<DynamicImage>) -> bool {
    let (width, height) = stacked_size(captures);
    &&& forall|i: int| 0 <= i < captures.len() ==> image_size(#[trigger] captures[i]) is Some
    &&& height <= u32::MAX
    &&& pixels_suffice(width as u32, height as u32, isize::MAX as nat)
}

/// The pixels of the picture of all captures in which the first `n` of them are drawn:
/// each from the row on at which the one before it ends.
pub open spec fn stacked_pixels(captures: Seq<DynamicImage>, n: int) -> Seq<u8>
    decreases n,
{
    let (width, height) = stacked_size(captures);
    if n <= 0 {
        blank_pixels(width as u32, height as u32)
    } else {
        drawn_pixels(
            stacked_pixels(captures, n - 1),
            (width as u32, height as u32),
            image_pixels(captures[n - 1]),
            image_size(captures[n - 1])->0,
            0,
            stacked_height(sizes_of(captures), n - 1),
        )
    }
}

/// The picture in which captures are put below one another.
pub open spec fn stacked(captures: Seq<DynamicImage>) -> DynamicImage {
    let (width, height) = stacked_size(captures);
    rgba_image(width as u32, height as u32, stacked_pixels(captures, captures.len() as int))
}

/// Whether the pixels of an RGBA picture of this size can be held.
fn can_hold(width: u32, height: u32) -> (res: bool)
    ensures
        res == pixels_suffice(width, height, isize::MAX as nat),
{
    let row: u128 = 4 * width as u128;
    assert(0 <= row * height <= 0x4_0000_0000 * 0x1_0000_0000) by (nonlinear_arith)
        requires
            0 <= row <= 0x4_0000_0000,
            0 <= height <= 0x1_0000_0000,
    ;
    row <= usize::MAX as u128 && row * height as u128 <= isize::MAX as u128
}

/// Draws captures into one picture, from top to bottom in their order.
pub fn stack_captures(captures: &Vec<DynamicImage>) -> (res: Option<DynamicImage>)
    ensures
        res is Some <==> can_stack(captures@),
        res is Some <==> {
            let (width, height) = stacked_size(captures@);
            &&& forall|i: int|
                0 <= i < captures@.len() ==> image_size(#[trigger] captures@[i]) is Some
            &&& height <= u32::MAX
            &&& 4 * width <= usize::MAX
            &&& 4 * width * height <= isize::MAX
        },
        res matches Some(picture) ==> {
            let (width, height) = stacked_size(captures@);
            &&& picture == stacked(captures@)
            &&& image_size(picture) == Some((width as u32, height as u32))
            &&& picture == rgba_image(width as u32, height as u32, image_pixels(picture))
            &&& image_pixels(picture).len() == 4 * width * height
            &&& forall|i: int, k: int|
                #![trigger captures@[i], image_pixels(picture)[k]]
                {
                    let top = stacked_height(sizes_of(captures@), i);
                    let (shown_width, shown_height) = image_size(captures@[i])->0;
                    let (row, column) = (k / 4 / width - top, k / 4 % width);
                    0 <= i < captures@.len() && 0 <= k < 4 * width * height && 0 <= row
                        < shown_height ==> image_pixels(picture)[k] == if column < shown_width {
                        image_pixels(captures@[i])[4 * (row * shown_width + column) + k % 4]
                    } else {
                        0
                    }
                }
        },
{
    proof {
        lemma_stacked_size_bounds(sizes_of(captures@), captures@.len() as int);
    }
    let mut sizes: Vec<(u32, u32)> = Vec::new();
    let mut i: usize = 0;
    while i < captures.len()
        invariant
            i <= captures@.len(),
            sizes@.len() == i,
            forall|j: int|
                0 <= j < i ==> image_size(#[trigger] captures@[j]) == Some(sizes@[j]),
        decreases captures.len() - i,
    {
        match rgba_size(&captures[i]) {
            Some(size) => sizes.push(size),
            None => return None,
        }
        i += 1;
    }
    assert(sizes@ =~= sizes_of(captures@));
    let layout = match stack_layout(&sizes) {
        Some(layout) => layout,
        None => return None,
    };
    if !can_hold(layout.width, layout.height) {
        return None;
    }
    let mut picture = blank_image(layout.width, layout.height);
    let mut k: usize = 0;
    while k < captures.len()
        invariant
            k <= captures@.len(),
            sizes@ == sizes_of(captures@),
            layout.tops@.len() == captures@.len(),
            forall|j: int|
                0 <= j < captures@.len() ==> #[trigger] layout.tops@[j] == stacked_height(
                    sizes@,
                    j,
                ),
            forall|j: int| 0 <= j < captures@.len() ==> image_size(#[trigger] captures@[j]) is Some,
            (layout.width, layout.height) == (
                stacked_size(captures@).0 as u32,
                stacked_size(captures@).1 as u32,
            ),
            image_size(picture) == Some((layout.width, layout.height)),
            image_pixels(picture) == stacked_pixels(captures@, k as int),
            picture == rgba_image(layout.width, layout.height, image_pixels(picture)),
        decreases captures.len() - k,
    {
        draw(&mut picture, &captures[k], 0, layout.tops[k] as i64);
        k += 1;
    }
    proof {
        let n = captures@.len() as int;
        let (width, height) = stacked_size(captures@);
        lemma_stacked_size_bounds(sizes_of(captures@), n);
        lemma_stacked_len(captures@, n);
        assert forall|i: int, k: int|
            #![trigger captures@[i], image_pixels(picture)[k]]
            {
                let top = stacked_height(sizes_of(captures@), i);
                let (shown_width, shown_height) = image_size(captures@[i])->0;
                let (row, column) = (k / 4 / width - top, k / 4 % width);
                0 <= i < captures@.len() && 0 <= k < 4 * width * height && 0 <= row < shown_height
                    ==> image_pixels(picture)[k] == if column < shown_width {
                    image_pixels(captures@[i])[4 * (row * shown_width + column) + k % 4]
                } else {
                    0
                }
            } by {
            if 0 <= i < n && 0 <= k < 4 * width * height && 0 <= k / 4 / width - stacked_height(
                sizes_of(captures@),
                i,
            ) < (image_size(captures@[i])->0).1 {
                law_picture_shows_every_capture(captures@, i, k);
            }
        }
    }
    Some(picture)
}

/// The JPEG file of the picture in which captures are put below one another.
pub fn encode_captures(captures: &Vec<DynamicImage>) -> (res: Result<Vec<u8>, PictureError>)
    ensures
        res is Ok <==> can_stack(captures@) && stacked_size(captures@).0 <= MAX_JPEG_SIDE
            && stacked_size(captures@).1 <= MAX_JPEG_SIDE,
        res is Ok <==> can_stack(captures@) && stacked_size(captures@).0 <= 65535 && stacked_size(
            captures@,
        ).1 <= 65535,
        res matches Ok(bytes) ==> jpeg_bytes(stacked(captures@), JPEG_QUALITY) == Some(bytes@),
        res matches Ok(bytes) ==> jpeg_bytes(stacked(captures@), 50) == Some(bytes@),
        res matches Err(err) ==> (if can_stack(captures@) {
            err is NotEncoded
        } else {
            err is NotStacked
        }),
{
    match stack_captures(captures) {
        Some(picture) => {
            proof {
                lemma_stacked_size_bounds(sizes_of(captures@), captures@.len() as int);
            }
            encode_jpeg(&picture)
        },
        None => Err(PictureError::NotStacked),
    }
}

/// The heights of captures add up: the first `i + 1` of them are higher than the first `i`
/// by the height of one, and none of them have no height. None is wider than all of them
/// together, and the widest is as wide.
pub proof fn law_sizes_add_up(sizes: Seq<(u32, u32)>, i: int)
    requires
        0 <= i < sizes.len(),
    ensures
        stacked_height(sizes, 0) == 0,
        stacked_height(sizes, i + 1) == stacked_height(sizes, i) + sizes[i].1,
        stacked_width(sizes, 0) == 0,
        sizes[i].0 <= stacked_width(sizes, sizes.len() as int),
        exists|j: int|
            0 <= j < sizes.len() && (#[trigger] sizes[j]).0 == stacked_width(
                sizes,
                sizes.len() as int,
            ),
{
    lemma_stacked_width_covers(sizes, i, sizes.len() as int);
    let widest = lemma_stacked_width_is_reached(sizes, sizes.len() as int);
    assert(sizes[widest].0 == stacked_width(sizes, sizes.len() as int));
}

/// How large the picture of captures is. It is as high as all of them together: the `i`th
/// begins where the one before it ends, the first one at the top, and the picture ends
/// with the last one. It is as wide as the widest of them.
pub proof fn law_picture_is_as_large_as_its_captures(captures: Seq<DynamicImage>, i: int)
    requires
        0 <= i < captures.len(),
    ensures
        ({
            let sizes = sizes_of(captures);
            let (width, height) = stacked_size(captures);
            &&& sizes.len() == captures.len()
            &&& sizes[i] == image_size(captures[i])->0
            &&& stacked_height(sizes, 0) == 0
            &&& stacked_height(sizes, i + 1) == stacked_height(sizes, i) + (image_size(
                captures[i],
            )->0).1
            &&& stacked_height(sizes, captures.len() as int) == height
            &&& (image_size(captures[i])->0).0 <= width
            &&& exists|j: int|
                0 <= j < captures.len() && (image_size(#[trigger] captures[j])->0).0 == width
        }),
{
    let sizes = sizes_of(captures);
    let n = captures.len() as int;
    lemma_stacked_width_covers(sizes, i, n);
    let widest = lemma_stacked_width_is_reached(sizes, n);
    assert((image_size(captures[widest])->0).0 == stacked_size(captures).0);
}

/// No captures make an empty picture.
pub proof fn law_no_captures_make_an_empty_picture(captures: Seq<DynamicImage>)
    requires
        captures.len() == 0,
    ensures
        stacked_size(captures) == (0int, 0int),
        can_stack(captures),
        stacked(captures) == rgba_image(0, 0, Seq::empty()),
{
    assert(stacked_pixels(captures, 0) =~= Seq::empty());
}

/// Captures can be put below one another exactly where each of them is an RGBA picture
/// and the pixels of the picture that they make can be counted and held. It is then the
/// picture in which all of them are drawn.
pub proof fn law_captures_are_stacked_where_they_fit(captures: Seq<DynamicImage>)
    ensures
        ({
            let (width, height) = stacked_size(captures);
            can_stack(captures) <==> {
                &&& forall|i: int|
                    0 <= i < captures.len() ==> image_size(#[trigger] captures[i]) is Some
                &&& height <= u32::MAX
                &&& 4 * width <= usize::MAX
                &&& 4 * width * height <= isize::MAX
            }
        }),
        can_stack(captures) ==> {
            let (width, height) = stacked_size(captures);
            let pixels = stacked_pixels(captures, captures.len() as int);
            &&& pixels.len() == 4 * width * height
            &&& stacked(captures) == rgba_image(width as u32, height as u32, pixels)
        },
{
    lemma_stacked_size_bounds(sizes_of(captures), captures.len() as int);
    lemma_stacked_len(captures, captures.len() as int);
}

/// The picture of captures consists of their pixels and of nothing else. Each of its rows
/// belongs to one capture, to the `i`th where it is one of those that lie as far down as
/// the captures before it are high: there it shows, from the left, the pixels of the row
/// of that capture, and is blank to the right of it. So all captures are to be seen, each
/// below the one before it and none of them cut off.
pub proof fn law_picture_shows_every_capture(captures: Seq<DynamicImage>, i: int, k: int)
    requires
        can_stack(captures),
        0 <= i < captures.len(),
        ({
            let (width, height) = stacked_size(captures);
            &&& 0 <= k < 4 * width * height
            &&& 0 <= k / 4 / width - stacked_height(sizes_of(captures), i) < (image_size(
                captures[i],
            )->0).1
        }),
    ensures
        ({
            let (width, height) = stacked_size(captures);
            let pixels = stacked_pixels(captures, captures.len() as int);
            let (shown_width, shown_height) = image_size(captures[i])->0;
            let row = k / 4 / width - stacked_height(sizes_of(captures), i);
            let column = k / 4 % width;
            &&& stacked(captures) == rgba_image(width as u32, height as u32, pixels)
            &&& pixels.len() == 4 * width * height
            &&& pixels[k] == if column < shown_width {
                image_pixels(captures[i])[4 * (row * shown_width + column) + k % 4]
            } else {
                0
            }
        }),
{
    let sizes = sizes_of(captures);
    let n = captures.len() as int;
    let (width, height) = stacked_size(captures);
    let row = k / 4 / width - stacked_height(sizes, i);
    let column = k / 4 % width;
    let byte = k % 4;
    lemma_stacked_size_bounds(sizes, n);
    lemma_stacked_len(captures, n);
    lemma_stacked_width_covers(sizes, i, n);
    assert(sizes[i] == image_size(captures[i])->0);
    assert(width > 0) by (nonlinear_arith)
        requires
            0 <= k < 4 * width * height,
            0 <= width,
    ;
    vstd::arithmetic::div_mod::lemma_fundamental_div_mod(k / 4, width);
    assert(0 <= column < width) by {
        vstd::arithmetic::div_mod::lemma_mod_bound(k / 4, width);
    }
    assert(width * (k / 4 / width) == (k / 4 / width) * width) by (nonlinear_arith);
    assert(k == 4 * ((stacked_height(sizes, i) + row) * width + column) + byte);
    if column < sizes[i].0 {
        law_stacked_captures_follow_one_another(captures, i, column, row, byte);
    } else {
        lemma_blank_stays(captures, n, i, k);
    }
}

/// Where a row of the picture belongs to the `i`th capture and lies to the right of it,
/// nothing is ever drawn.
proof fn lemma_blank_stays(captures: Seq<DynamicImage>, n: int, i: int, k: int)
    requires
        can_stack(captures),
        0 <= i < captures.len(),
        0 <= n <= captures.len(),
        ({
            let (width, height) = stacked_size(captures);
            let row = k / 4 / width;
            &&& 0 <= k < 4 * width * height
            &&& stacked_height(sizes_of(captures), i) <= row < stacked_height(
                sizes_of(captures),
                i + 1,
            )
            &&& k / 4 % width >= (image_size(captures[i])->0).0
        }),
    ensures
        stacked_pixels(captures, n)[k] == 0,
    decreases n,
{
    let sizes = sizes_of(captures);
    lemma_stacked_size_bounds(sizes, captures.len() as int);
    lemma_stacked_len(captures, n);
    if n > 0 {
        lemma_blank_stays(captures, n - 1, i, k);
        lemma_stacked_len(captures, n - 1);
        assert(sizes[n - 1] == image_size(captures[n - 1])->0);
        if n - 1 < i {
            lemma_stacked_height_grows(sizes, n, i);
        } else if i < n - 1 {
            lemma_stacked_height_grows(sizes, i + 1, n - 1);
        }
    }
}

/// A picture that is drawn over another one replaces the pixels that it covers, each by
/// the one at the same distance from its own upper left corner, and leaves all others as
/// they were.
pub proof fn law_drawing_replaces_what_is_covered(
    bottom: Seq<u8>,
    bottom_size: (u32, u32),
    top: Seq<u8>,
    top_size: (u32, u32),
    x: int,
    y: int,
    k: int,
)
    requires
        0 <= k < 4 * bottom_size.0 * bottom_size.1 <= bottom.len(),
    ensures
        ({
            let drawn = drawn_pixels(bottom, bottom_size, top, top_size, x, y);
            let column = k / 4 % (bottom_size.0 as int);
            let row = k / 4 / (bottom_size.0 as int);
            &&& drawn.len() == bottom.len()
            &&& drawn[k] == if x <= column < x + top_size.0 && y <= row < y + top_size.1 {
                top[4 * ((row - y) * top_size.0 + (column - x)) + k % 4]
            } else {
                bottom[k]
            }
        }),
{
}

/// Every capture is to be seen in the picture that they are put into: its pixel in
/// column `c` and row `r` stands there in the same column, as many rows further down
/// as the captures before it are high.
pub proof fn law_stacked_captures_follow_one_another(
    captures: Seq<DynamicImage>,
    i: int,
    c: int,
    r: int,
    byte: int,
)
    requires
        can_stack(captures),
        0 <= i < captures.len(),
        0 <= c < (image_size(captures[i])->0).0,
        0 <= r < (image_size(captures[i])->0).1,
        0 <= byte < 4,
    ensures
        ({
            let row = stacked_height(sizes_of(captures), i) + r;
            stacked_pixels(captures, captures.len() as int)[4 * (row * stacked_size(captures).0 + c)
                + byte] == image_pixels(captures[i])[4 * (r * (image_size(captures[i])->0).0 + c)
                + byte]
        }),
{
    lemma_pixel_stays(captures, captures.len() as int, i, c, r, byte);
}

proof fn lemma_pixel_stays(
    captures: Seq<DynamicImage>,
    n: int,
    i: int,
    c: int,
    r: int,
    byte: int,
)
    requires
        can_stack(captures),
        0 <= i < n <= captures.len(),
        0 <= c < (image_size(captures[i])->0).0,
        0 <= r < (image_size(captures[i])->0).1,
        0 <= byte < 4,
    ensures
        ({
            let row = stacked_height(sizes_of(captures), i) + r;
            stacked_pixels(captures, n)[4 * (row * stacked_size(captures).0 + c) + byte]
                == image_pixels(captures[i])[4 * (r * (image_size(captures[i])->0).0 + c) + byte]
        }),
    decreases n,
{
    let sizes = sizes_of(captures);
    let len = captures.len() as int;
    let (width, height) = stacked_size(captures);
    let row = stacked_height(sizes, i) + r;
    let k = 4 * (row * width + c) + byte;
    assert(sizes[i] == image_size(captures[i])->0);
    lemma_stacked_size_bounds(sizes, len);
    lemma_stacked_size_bounds(sizes, i);
    lemma_stacked_width_covers(sizes, i, len);
    lemma_stacked_height_grows(sizes, i + 1, len);
    lemma_stacked_len(captures, n - 1);
    assert(0 <= k < 4 * width * height && k / 4 == row * width + c && k % 4 == byte)
        by (nonlinear_arith)
        requires
            k == 4 * (row * width + c) + byte,
            0 <= byte < 4,
            0 <= c < width,
            0 <= row < height,
    ;
    vstd::arithmetic::div_mod::lemma_fundamental_div_mod_converse(k / 4, width, row, c);
    if i < n - 1 {
        lemma_pixel_stays(captures, n - 1, i, c, r, byte);
        lemma_stacked_height_grows(sizes, i + 1, n - 1);
    }
}

proof fn lemma_stacked_len(captures: Seq<DynamicImage>, n: int)
    ensures
        stacked_pixels(captures, n).len() == stacked_pixels(captures, 0).len(),
    decreases n,
{
    if n > 0 {
        lemma_stacked_len(captures, n - 1);
    }
}

proof fn lemma_stacked_width_covers(sizes: Seq<(u32, u32)>, i: int, n: int)
    requires
        0 <= i < n,
    ensures
        sizes[i].0 <= stacked_width(sizes, n),
    decreases n,
{
    if i < n - 1 {
        lemma_stacked_width_covers(sizes, i, n - 1);
    }
}

proof fn lemma_stacked_width_is_reached(sizes: Seq<(u32, u32)>, n: int) -> (widest: int)
    requires
        0 < n <= sizes.len(),
    ensures
        0 <= widest < n,
        sizes[widest].0 == stacked_width(sizes, n),
    decreases n,
{
    if n == 1 {
        reveal_with_fuel(stacked_width, 2);
        0
    } else {
        let before = lemma_stacked_width_is_reached(sizes, n - 1);
        if sizes[n - 1].0 > stacked_width(sizes, n - 1) {
            n - 1
        } else {
            before
        }
    }
}

proof fn lemma_stacked_size_bounds(sizes: Seq<(u32, u32)>, n: int)
    ensures
        0 <= stacked_width(sizes, n) <= u32::MAX,
        0 <= stacked_height(sizes, n),
    decreases n,
{
    if n > 0 {
        lemma_stacked_size_bounds(sizes, n - 1);
    }
}

} // verus!
