//! 8-bit indexed bitmap images with a grayscale palette.
//!
//! The layout is a 14-byte file header, a 40-byte info header, 256 palette
//! entries of four bytes each, and the pixel rows from top to bottom. Rows are
//! written back to back: no padding brings them to a multiple of four bytes.

use crate::bytes::{
    from_twos_complement, i32_bits, i32_from_bits, le_bytes_i32, le_bytes_u16, le_bytes_u32,
    le_i32, le_u32, lemma_le_i32_round_trip, lemma_le_u32_round_trip, put_i32, put_u16, put_u32,
    twos_complement,
};
use vstd::prelude::*;

verus! {

/// Size in bytes of the file header.
pub const FILE_HEADER_SIZE: u32 = 14;

/// Size in bytes of the info header.
pub const INFO_HEADER_SIZE: u32 = 40;

/// Number of palette entries.
pub const PALLATE_SIZE: usize = 256;

/// Offset in bytes of the first pixel from the start of the file.
pub const DATA_OFFSET: u32 = 1078;

/// The bytes of a file header that announces `data_size` bytes of pixels
/// after `header_size` bytes of headers and palette.
pub open spec fn file_header_bytes(header_size: u32, data_size: u32) -> Seq<u8> {
    seq![0x42u8, 0x4du8] + le_bytes_u32((header_size + data_size) as u32) + le_bytes_u16(0)
        + le_bytes_u16(0) + le_bytes_u32(header_size)
}

/// The bytes of an info header for an uncompressed image of one plane and
/// eight bits per pixel.
pub open spec fn info_header_bytes(width: i32, height: i32) -> Seq<u8> {
    le_bytes_u32(INFO_HEADER_SIZE) + le_bytes_i32(width) + le_bytes_i32(height) + le_bytes_u16(1)
        + le_bytes_u16(8) + le_bytes_u32(0) + le_bytes_u32(0) + le_bytes_i32(0) + le_bytes_i32(0)
        + le_bytes_u32(0) + le_bytes_u32(0)
}

/// The bytes of one palette entry: red, green, blue and a reserved zero.
pub open spec fn palette_entry_bytes(r: u8, g: u8, b: u8) -> Seq<u8> {
    seq![r, g, b, 0u8]
}

/// The bytes of the grayscale palette: entry `i` is the gray of level `i`.
pub open spec fn palette_bytes() -> Seq<u8> {
    Seq::new(
        4 * PALLATE_SIZE as nat,
        |k: int|
            if k % 4 == 3 {
                0u8
            } else {
                (k / 4) as u8
            },
    )
}

#[derive(Debug)]
struct BmpFileHeader {
    file_type: [u8; 2],
    file_size: u32,
    reserved1: u16,
    reserved2: u16,
    data_offset: u32,
}

impl BmpFileHeader {
    spec fn bytes(&self) -> Seq<u8> {
        self.file_type@ + le_bytes_u32(self.file_size) + le_bytes_u16(self.reserved1)
            + le_bytes_u16(self.reserved2) + le_bytes_u32(self.data_offset)
    }

    fn new(header_size: u32, data_size: u32) -> (r: Self)
        requires
            header_size + data_size <= u32::MAX,
        ensures
            r.bytes() == file_header_bytes(header_size, data_size),
            r.file_size == header_size + data_size,
            r.data_offset == header_size,
    {
        let r = BmpFileHeader {
            file_type: [0x42, 0x4d],
            file_size: header_size + data_size,
            reserved1: 0,
            reserved2: 0,
            data_offset: header_size,
        };
        assert(r.file_type@ =~= seq![0x42u8, 0x4du8]);
        r
    }

    fn to_writer(&self, destination: &mut Vec<u8>)
        ensures
            final(destination)@ == old(destination)@ + self.bytes(),
    {
        destination.push(self.file_type[0]);
        destination.push(self.file_type[1]);
        assert(destination@ =~= old(destination)@ + self.file_type@);
        put_u32(destination, self.file_size);
        put_u16(destination, self.reserved1);
        put_u16(destination, self.reserved2);
        put_u32(destination, self.data_offset);
        assert(destination@ =~= old(destination)@ + self.bytes());
    }
}

#[derive(Debug)]
struct BmpInfoHeader {
    header_size: u32,
    width: i32,
    height: i32,
    planes: u16,
    bits_per_pixel: u16,
    compression: u32,
    image_size: u32,
    x_pixels_per_meter: i32,
    y_pixels_per_meter: i32,
    colors_used: u32,
    colors_important: u32,
}

impl BmpInfoHeader {
    spec fn bytes(&self) -> Seq<u8> {
        le_bytes_u32(self.header_size) + le_bytes_i32(self.width) + le_bytes_i32(self.height)
            + le_bytes_u16(self.planes) + le_bytes_u16(self.bits_per_pixel) + le_bytes_u32(
            self.compression,
        ) + le_bytes_u32(self.image_size) + le_bytes_i32(self.x_pixels_per_meter) + le_bytes_i32(
            self.y_pixels_per_meter,
        ) + le_bytes_u32(self.colors_used) + le_bytes_u32(self.colors_important)
    }

    fn new(width: i32, height: i32) -> (r: Self)
        ensures
            r.bytes() == info_header_bytes(width, height),
            r.width == width,
            r.height == height,
    {
        BmpInfoHeader {
            header_size: INFO_HEADER_SIZE,
            width,
            height,
            planes: 1,
            bits_per_pixel: 8,
            compression: 0,
            image_size: 0,
            x_pixels_per_meter: 0,
            y_pixels_per_meter: 0,
            colors_used: 0,
            colors_important: 0,
        }
    }

    fn to_writer(&self, destination: &mut Vec<u8>)
        ensures
            final(destination)@ == old(destination)@ + self.bytes(),
    {
        put_u32(destination, self.header_size);
        put_i32(destination, self.width);
        put_i32(destination, self.height);
        put_u16(destination, self.planes);
        put_u16(destination, self.bits_per_pixel);
        put_u32(destination, self.compression);
        put_u32(destination, self.image_size);
        put_i32(destination, self.x_pixels_per_meter);
        put_i32(destination, self.y_pixels_per_meter);
        put_u32(destination, self.colors_used);
        put_u32(destination, self.colors_important);
        assert(destination@ =~= old(destination)@ + self.bytes());
    }
}

#[derive(Debug)]
struct BmpColorPallet {
    r: u8,
    g: u8,
    b: u8,
    reserved: u8,
}

impl BmpColorPallet {
    spec fn bytes(&self) -> Seq<u8> {
        seq![self.r, self.g, self.b, self.reserved]
    }

    fn new(r: u8, g: u8, b: u8) -> (p: Self)
        ensures
            p.bytes() == palette_entry_bytes(r, g, b),
            p == (BmpColorPallet { r, g, b, reserved: 0 }),
    {
        BmpColorPallet { r, g, b, reserved: 0 }
    }

    fn to_writer(&self, destination: &mut Vec<u8>)
        ensures
            final(destination)@ == old(destination)@ + self.bytes(),
    {
        destination.push(self.r);
        destination.push(self.g);
        destination.push(self.b);
        destination.push(self.reserved);
        assert(destination@ =~= old(destination)@ + self.bytes());
    }
}

/// What an image is: its dimensions and its pixels, row after row, top row first.
pub struct ImageView {
    pub width: nat,
    pub height: nat,
    pub pixels: Seq<u8>,
}

impl ImageView {
    /// The dimensions fit the headers, and there is one pixel for each position.
    pub open spec fn valid(self) -> bool {
        &&& self.width <= u32::MAX
        &&& self.height <= u32::MAX
        &&& DATA_OFFSET + self.width * self.height <= u32::MAX
        &&& self.pixels.len() == self.width * self.height
    }

    /// The position of pixel `(x, y)` in the pixel sequence.
    pub open spec fn offset(self, x: u32, y: u32) -> int {
        y * self.width + x
    }

    /// The bytes of the bitmap file that holds this image.
    pub open spec fn encoding(self) -> Seq<u8> {
        file_header_bytes(DATA_OFFSET, (self.width * self.height) as u32) + info_header_bytes(
            from_twos_complement(self.width as u32),
            from_twos_complement(self.height as u32),
        ) + palette_bytes() + self.pixels
    }
}

/// The pixel bytes of a bitmap file, found through the data offset in its header.
pub open spec fn stored_pixels(file: Seq<u8>) -> Seq<u8> {
    file.skip(le_u32(file.subrange(10, 14)) as int)
}

/// The width that the info header of a bitmap file declares.
pub open spec fn stored_width(file: Seq<u8>) -> i32 {
    le_i32(file.subrange(18, 22))
}

/// The height that the info header of a bitmap file declares.
pub open spec fn stored_height(file: Seq<u8>) -> i32 {
    le_i32(file.subrange(22, 26))
}

/// An 8-bit image with the fixed grayscale palette.
#[derive(Debug)]
pub struct Image {
    header: BmpFileHeader,
    info: BmpInfoHeader,
    pallet: Vec<BmpColorPallet>,
    data: Vec<u8>,
}

impl View for Image {
    type V = ImageView;

    closed spec fn view(&self) -> ImageView {
        ImageView {
            width: twos_complement(self.info.width) as nat,
            height: twos_complement(self.info.height) as nat,
            pixels: self.data@,
        }
    }
}

impl Image {
    #[verifier::type_invariant]
    spec fn inv(&self) -> bool {
        &&& self@.valid()
        &&& self.header.bytes() == file_header_bytes(DATA_OFFSET, self.data@.len() as u32)
        &&& self.info.bytes() == info_header_bytes(self.info.width, self.info.height)
        &&& self.pallet@.len() == PALLATE_SIZE
        &&& forall|i: int|
            0 <= i < PALLATE_SIZE ==> (#[trigger] self.pallet@[i]).bytes() == palette_entry_bytes(
                i as u8,
                i as u8,
                i as u8,
            )
    }

    /// A black image of `width` by `height` pixels.
    pub fn new(width: u32, height: u32) -> (image: Self)
        requires
            DATA_OFFSET + width * height <= u32::MAX,
        ensures
            image@.valid(),
            image@.width == width,
            image@.height == height,
            image@.pixels == Seq::new((width * height) as nat, |i: int| 0u8),
    {
        let mut pallet: Vec<BmpColorPallet> = Vec::new();
        let mut i: usize = 0;
        while i < PALLATE_SIZE
            invariant
                i <= PALLATE_SIZE,
                pallet@.len() == i,
                forall|k: int|
                    0 <= k < i ==> (#[trigger] pallet@[k]).bytes() == palette_entry_bytes(
                        k as u8,
                        k as u8,
                        k as u8,
                    ),
            decreases PALLATE_SIZE - i,
        {
            pallet.push(BmpColorPallet::new(i as u8, i as u8, i as u8));
            i += 1;
        }
        let data = vec![0u8; (width * height) as usize];
        let header = BmpFileHeader::new(
            FILE_HEADER_SIZE + INFO_HEADER_SIZE + PALLATE_SIZE as u32 * 4,
            data.len() as u32,
        );
        let info = BmpInfoHeader::new(i32_from_bits(width), i32_from_bits(height));
        assert(data@ =~= Seq::new((width * height) as nat, |i: int| 0u8));
        Image { header, info, pallet, data }
    }

    /// The number of pixels in a row.
    pub fn width(&self) -> (w: u32)
        ensures
            w == self@.width,
    {
        i32_bits(self.info.width)
    }

    /// The number of rows.
    pub fn height(&self) -> (h: u32)
        ensures
            h == self@.height,
    {
        i32_bits(self.info.height)
    }

    /// Sets the pixel in column `x` of row `y` to `color`.
    pub fn set_pixel(&mut self, x: u32, y: u32, color: u8)
        requires
            0 <= old(self)@.offset(x, y) < old(self)@.pixels.len(),
        ensures
            final(self)@.valid(),
            final(self)@.width == old(self)@.width,
            final(self)@.height == old(self)@.height,
            final(self)@.pixels == old(self)@.pixels.update(old(self)@.offset(x, y), color),
    {
        proof {
            use_type_invariant(&*self);
        }
        let index = (y * self.width() + x) as usize;
        self.data[index] = color;
    }

    /// The pixel in column `x` of row `y`.
    pub fn get_pixel(&self, x: u32, y: u32) -> (color: u8)
        requires
            0 <= self@.offset(x, y) < self@.pixels.len(),
        ensures
            color == self@.pixels[self@.offset(x, y)],
    {
        proof {
            use_type_invariant(self);
        }
        let index = (y * self.width() + x) as usize;
        self.data[index]
    }

    /// The coordinates `(x, y)` of the image, row after row, each row from left to right.
    pub fn coordinates(&self) -> (all: Vec<(u32, u32)>)
        ensures
            all@ == grid(self@.width, self@.height),
    {
        let mut index = ImageIndex::new(self.width(), self.height());
        let mut all: Vec<(u32, u32)> = Vec::new();
        let ghost whole = grid(self@.width, self@.height);
        loop
            invariant
                index@.width == self@.width,
                index@.height == self@.height,
                whole == grid(self@.width, self@.height),
                index@.position <= whole.len(),
                all@ == whole.take(index@.position as int),
            decreases whole.len() - index@.position,
        {
            match index.next() {
                Some(c) => {
                    all.push(c);
                    assert(all@ =~= whole.take(index@.position as int));
                },
                None => {
                    assert(all@ =~= whole);
                    return all;
                },
            }
        }
    }

    /// Appends the bytes of the bitmap file to `destination`.
    pub fn to_writer(&self, destination: &mut Vec<u8>)
        ensures
            final(destination)@ == old(destination)@ + self@.encoding(),
    {
        proof {
            use_type_invariant(self);
        }
        self.header.to_writer(destination);
        self.info.to_writer(destination);
        let ghost before = destination@;
        let mut i: usize = 0;
        while i < PALLATE_SIZE
            invariant
                i <= PALLATE_SIZE,
                self.pallet@.len() == PALLATE_SIZE,
                forall|k: int|
                    0 <= k < PALLATE_SIZE ==> (#[trigger] self.pallet@[k]).bytes()
                        == palette_entry_bytes(k as u8, k as u8, k as u8),
                destination@ == before + palette_bytes().take(4 * i),
            decreases PALLATE_SIZE - i,
        {
            self.pallet[i].to_writer(destination);
            assert(palette_bytes().take(4 * (i + 1)) =~= palette_bytes().take(4 * i)
                + palette_entry_bytes(i as u8, i as u8, i as u8));
            i += 1;
        }
        assert(palette_bytes().take(4 * PALLATE_SIZE as int) =~= palette_bytes());
        let ghost filled = destination@;
        destination.extend_from_slice(self.data.as_slice());
        assert(destination@ =~= filled + self.data@);
        assert(destination@ =~= old(destination)@ + self@.encoding());
    }
}

/// The number of coordinates that a row gives: an image without columns still
/// gives one per row.
pub open spec fn columns(width: nat) -> nat {
    if width == 0 {
        1
    } else {
        width
    }
}

/// The coordinates `(x, y)` with `x` below `columns(width)` and `y` below
/// `height`, row after row, each row from left to right.
pub open spec fn grid(width: nat, height: nat) -> Seq<(u32, u32)> {
    Seq::new(
        columns(width) * height,
        |i: int| ((i % columns(width) as int) as u32, (i / columns(width) as int) as u32),
    )
}

/// What a cursor is: the dimensions it walks over and how many coordinates it
/// has given.
pub struct ImageIndexView {
    pub width: nat,
    pub height: nat,
    pub position: nat,
}

/// A cursor over the coordinates of an image.
#[derive(Debug, Clone, Copy)]
pub struct ImageIndex {
    width: u32,
    height: u32,
    x: u32,
    y: u32,
}

impl View for ImageIndex {
    type V = ImageIndexView;

    closed spec fn view(&self) -> ImageIndexView {
        ImageIndexView {
            width: self.width as nat,
            height: self.height as nat,
            position: self.y as nat * columns(self.width as nat) + self.x as nat,
        }
    }
}

/// Where the coordinate `(x, y)` stands among the rows, taken one after another.
pub proof fn lemma_position(cols: int, height: int, x: int, y: int)
    requires
        0 <= x < cols,
        0 <= y < height,
    ensures
        0 <= y * cols + x < cols * height,
        (y * cols + x) % cols == x,
        (y * cols + x) / cols == y,
        (y + 1) * cols == y * cols + cols,
{
    assert((y + 1) * cols == y * cols + cols) by (nonlinear_arith);
    assert(0 <= y * cols) by (nonlinear_arith)
        requires
            0 <= y,
            0 < cols,
    ;
    assert((y + 1) * cols <= height * cols) by (nonlinear_arith)
        requires
            y + 1 <= height,
            0 < cols,
    ;
    assert(height * cols == cols * height) by (nonlinear_arith);
    vstd::arithmetic::div_mod::lemma_fundamental_div_mod_converse(y * cols + x, cols, y, x);
}

impl ImageIndex {
    #[verifier::type_invariant]
    spec fn inv(&self) -> bool {
        &&& self.x < columns(self.width as nat)
        &&& self.y <= self.height
        &&& self.y == self.height ==> self.x == 0
    }

    /// A cursor at the first coordinate of an image of `width` by `height`.
    pub fn new(width: u32, height: u32) -> (index: Self)
        ensures
            index@ == (ImageIndexView { width: width as nat, height: height as nat, position: 0 }),
    {
        ImageIndex { width, height, x: 0, y: 0 }
    }

    /// Gives the coordinate under the cursor and moves on, or `None` when all
    /// have been given.
    pub fn next(&mut self) -> (item: Option<(u32, u32)>)
        ensures
            final(self)@.width == old(self)@.width,
            final(self)@.height == old(self)@.height,
            old(self)@.position <= grid(old(self)@.width, old(self)@.height).len(),
            match item {
                Some(c) => {
                    &&& old(self)@.position < grid(old(self)@.width, old(self)@.height).len()
                    &&& c == grid(old(self)@.width, old(self)@.height)[old(self)@.position as int]
                    &&& final(self)@.position == old(self)@.position + 1
                },
                None => {
                    &&& old(self)@.position == grid(old(self)@.width, old(self)@.height).len()
                    &&& final(self)@ == old(self)@
                },
            },
    {
        proof {
            use_type_invariant(&*self);
            assert(self.height as int * columns(self.width as nat) as int == columns(
                self.width as nat,
            ) as int * self.height as int) by (nonlinear_arith);
        }
        if self.y >= self.height {
            return None;
        }
        let x = self.x;
        let y = self.y;
        proof {
            lemma_position(
                columns(self.width as nat) as int,
                self.height as int,
                x as int,
                y as int,
            );
        }
        if x + 1 >= self.width {
            *self = ImageIndex { width: self.width, height: self.height, x: 0, y: y + 1 };
        } else {
            *self = ImageIndex { width: self.width, height: self.height, x: x + 1, y };
        }
        Some((x, y))
    }
}

/// Reading a written image back gives its size, its dimensions and its pixels.
pub proof fn lemma_stored_image(image: ImageView)
    requires
        image.valid(),
    ensures
        image.encoding().len() == DATA_OFFSET + image.pixels.len(),
        stored_pixels(image.encoding()) == image.pixels,
        twos_complement(stored_width(image.encoding())) == image.width,
        twos_complement(stored_height(image.encoding())) == image.height,
{
    let file = image.encoding();
    let w = from_twos_complement(image.width as u32);
    let h = from_twos_complement(image.height as u32);
    let head = file_header_bytes(DATA_OFFSET, (image.width * image.height) as u32);
    let info = info_header_bytes(w, h);
    assert(head.len() == 14);
    assert(info.len() == 40);
    assert(palette_bytes().len() == 1024);
    assert(file.subrange(10, 14) =~= le_bytes_u32(DATA_OFFSET));
    assert(file.subrange(18, 22) =~= le_bytes_i32(w));
    assert(file.subrange(22, 26) =~= le_bytes_i32(h));
    lemma_le_u32_round_trip(DATA_OFFSET);
    lemma_le_i32_round_trip(w);
    lemma_le_i32_round_trip(h);
    assert(file.skip(DATA_OFFSET as int) =~= image.pixels);
}

} // verus!
