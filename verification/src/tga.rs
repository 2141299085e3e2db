//! The TGA file format, as far as images go through it: an 18-byte header
//! followed by uncompressed pixels. Images are written with three bytes per
//! pixel, blue first, in the order they are stored. They are read from four
//! bytes per pixel with the rows turned upside down, and the first three
//! bytes of a pixel become the three channels in the order they stand: the
//! byte that a file calls blue is the first channel of what is read.

use vstd::prelude::*;
use crate::color::Color;
use crate::image::lemma_offset_bounds;
use crate::image::offset;
use crate::image::Image;

verus! {

/// The header of a TGA file.
#[derive(Clone, Copy, Debug, PartialEq, Eq, Structural)]
pub struct Header {
    pub id_length: u8,
    pub color_map_type: u8,
    pub image_type: u8,
    pub c_map_start: u16,
    pub c_map_length: u16,
    pub c_map_depth: u8,
    pub x_offset: u16,
    pub y_offset: u16,
    pub width: u16,
    pub height: u16,
    pub pixel_depth: u8,
    pub image_descriptor: u8,
}

/// The number of bytes a header takes in a file.
pub const HEADER_LEN: usize = 18;

/// The low byte of a 16-bit number.
pub open spec fn low(v: u16) -> u8 {
    (v % 256) as u8
}

/// The high byte of a 16-bit number.
pub open spec fn high(v: u16) -> u8 {
    (v / 256) as u8
}

/// The 16-bit number of the given low and high byte.
pub open spec fn word16(lo: u8, hi: u8) -> u16 {
    (lo + 256 * hi) as u16
}

impl Header {
    /// The header of an uncompressed true-colour image of the given size with
    /// three bytes per pixel.
    pub open spec fn truecolor(width: u16, height: u16) -> Header {
        Header {
            id_length: 0,
            color_map_type: 0,
            image_type: 2,
            c_map_start: 0,
            c_map_length: 0,
            c_map_depth: 0,
            x_offset: 0,
            y_offset: 0,
            width,
            height,
            pixel_depth: 24,
            image_descriptor: 0,
        }
    }

    /// The header as its 18 bytes: the fields in order, the 16-bit ones with
    /// their low byte first.
    pub open spec fn bytes(self) -> Seq<u8> {
        seq![
            self.id_length,
            self.color_map_type,
            self.image_type,
            low(self.c_map_start),
            high(self.c_map_start),
            low(self.c_map_length),
            high(self.c_map_length),
            self.c_map_depth,
            low(self.x_offset),
            high(self.x_offset),
            low(self.y_offset),
            high(self.y_offset),
            low(self.width),
            high(self.width),
            low(self.height),
            high(self.height),
            self.pixel_depth,
            self.image_descriptor,
        ]
    }

    /// The header that the first 18 bytes of `b` hold.
    pub open spec fn of_bytes(b: Seq<u8>) -> Header {
        Header {
            id_length: b[0],
            color_map_type: b[1],
            image_type: b[2],
            c_map_start: word16(b[3], b[4]),
            c_map_length: word16(b[5], b[6]),
            c_map_depth: b[7],
            x_offset: word16(b[8], b[9]),
            y_offset: word16(b[10], b[11]),
            width: word16(b[12], b[13]),
            height: word16(b[14], b[15]),
            pixel_depth: b[16],
            image_descriptor: b[17],
        }
    }

    /// Writes the header as its 18 bytes.
    pub fn to_bytes(&self) -> (b: [u8; 18])
        ensures
            b@ == self.bytes(),
    {
        let b: [u8; 18] = [
            self.id_length,
            self.color_map_type,
            self.image_type,
            (self.c_map_start % 256) as u8,
            (self.c_map_start / 256) as u8,
            (self.c_map_length % 256) as u8,
            (self.c_map_length / 256) as u8,
            self.c_map_depth,
            (self.x_offset % 256) as u8,
            (self.x_offset / 256) as u8,
            (self.y_offset % 256) as u8,
            (self.y_offset / 256) as u8,
            (self.width % 256) as u8,
            (self.width / 256) as u8,
            (self.height % 256) as u8,
            (self.height / 256) as u8,
            self.pixel_depth,
            self.image_descriptor,
        ];
        assert(b@ =~= self.bytes());
        b
    }

    /// Reads a header from the first 18 bytes of `b`.
    pub fn from_bytes(b: &Vec<u8>) -> (h: Header)
        requires
            b@.len() >= HEADER_LEN,
        ensures
            h == Header::of_bytes(b@),
    {
        Header {
            id_length: b[0],
            color_map_type: b[1],
            image_type: b[2],
            c_map_start: b[3] as u16 + 256 * (b[4] as u16),
            c_map_length: b[5] as u16 + 256 * (b[6] as u16),
            c_map_depth: b[7],
            x_offset: b[8] as u16 + 256 * (b[9] as u16),
            y_offset: b[10] as u16 + 256 * (b[11] as u16),
            width: b[12] as u16 + 256 * (b[13] as u16),
            height: b[14] as u16 + 256 * (b[15] as u16),
            pixel_depth: b[16],
            image_descriptor: b[17],
        }
    }
}

/// A header that is written and read back is the header one started from.
pub proof fn lemma_header_round_trip(h: Header)
    ensures
        h.bytes().len() == HEADER_LEN,
        Header::of_bytes(h.bytes()) == h,
{
}

/// The colours of `data` one after the other, three bytes each: blue, green,
/// red.
pub open spec fn channels(data: Seq<Color>) -> Seq<u8> {
    Seq::new(
        3 * data.len(),
        |i: int|
            if i % 3 == 0 {
                data[i / 3].2
            } else if i % 3 == 1 {
                data[i / 3].1
            } else {
                data[i / 3].0
            },
    )
}

/// The bytes hold a header and, right behind it, four bytes for every pixel
/// that the header announces.
pub open spec fn is_tga(bytes: Seq<u8>) -> bool {
    &&& bytes.len() >= HEADER_LEN
    &&& bytes.len() >= HEADER_LEN + 4 * (Header::of_bytes(bytes).width * Header::of_bytes(
        bytes,
    ).height)
}

/// The pixels read from a file: pixel `x` of row `y` is made of the first
/// three of the four bytes that the file holds for pixel `x` of its row
/// `height - 1 - y`.
pub open spec fn tga_data(bytes: Seq<u8>) -> Seq<Color> {
    let w = Header::of_bytes(bytes).width as int;
    let h = Header::of_bytes(bytes).height as int;
    Seq::new(
        (w * h) as nat,
        |i: int|
            {
                let p = HEADER_LEN + 4 * offset(w, i % w, h - 1 - i / w);
                Color(bytes[p], bytes[p + 1], bytes[p + 2])
            },
    )
}

impl Image {
    /// The image as a file: the header of a true-colour image of its size,
    /// each side taken modulo 65536, then the pixels in the order they are
    /// stored, each as its blue, green and red byte.
    pub open spec fn tga_bytes(&self) -> Seq<u8> {
        Header::truecolor((self.width % 0x10000) as u16, (self.height % 0x10000) as u16).bytes()
            + channels(self.data@)
    }

    /// Tells whether `v` holds a header and all the pixels it announces.
    pub fn is_raw_vec(v: &Vec<u8>) -> (b: bool)
        ensures
            b == is_tga(v@),
    {
        if v.len() < HEADER_LEN {
            return false;
        }
        let header = Header::from_bytes(v);
        assert(0 <= header.width * header.height <= 0xffff * 0xffff) by (nonlinear_arith)
            requires
                0 <= header.width <= 0xffff,
                0 <= header.height <= 0xffff,
        ;
        let need: u64 = 4 * (header.width as u64 * header.height as u64);
        (v.len() - HEADER_LEN) as u64 >= need
    }

    /// Reads an image from a file of four bytes per pixel. The fourth byte of
    /// each pixel is dropped, and the rows come out in reverse order.
    pub fn from_raw_vec(v: Vec<u8>) -> (img: Image)
        requires
            is_tga(v@),
        ensures
            img.wf(),
            img.width == Header::of_bytes(v@).width,
            img.height == Header::of_bytes(v@).height,
            img.data@ == tga_data(v@),
    {
        let header = Header::from_bytes(&v);
        let w: usize = header.width as usize;
        let h: usize = header.height as usize;
        let n: usize = v.len();
        let mut data: Vec<Color> = Vec::new();
        let mut y: usize = 0;
        while y < h
            invariant
                is_tga(v@),
                n == v@.len(),
                w == Header::of_bytes(v@).width,
                h == Header::of_bytes(v@).height,
                0 <= y <= h,
                data@.len() == y * w,
                forall|i: int| 0 <= i < data@.len() ==> data@[i] == tga_data(v@)[i],
            decreases h - y,
        {
            let src: usize = h - 1 - y;
            let mut x: usize = 0;
            while x < w
                invariant
                    is_tga(v@),
                    n == v@.len(),
                    w == Header::of_bytes(v@).width,
                    h == Header::of_bytes(v@).height,
                    0 <= y < h,
                    src == h - 1 - y,
                    0 <= x <= w,
                    data@.len() == y * w + x,
                    forall|i: int| 0 <= i < data@.len() ==> data@[i] == tga_data(v@)[i],
                decreases w - x,
            {
                proof {
                    lemma_offset_bounds(w as int, h as int, x as int, src as int);
                    lemma_offset_bounds(w as int, h as int, x as int, y as int);
                    assert(src * w >= 0) by (nonlinear_arith)
                        requires
                            src >= 0,
                            w >= 0,
                    ;
                }
                let p: usize = HEADER_LEN + 4 * (x + src * w);
                let c = Color(v[p], v[p + 1], v[p + 2]);
                let ghost before = data@;
                data.push(c);
                proof {
                    let i = offset(w as int, x as int, y as int);
                    assert(before.len() == i);
                    assert forall|j: int| 0 <= j < data@.len() implies data@[j] == tga_data(
                        v@,
                    )[j] by {
                        if j < i {
                            assert(data@[j] == before[j]);
                        }
                    }
                }
                x += 1;
            }
            proof {
                assert(y * w + w == (y + 1) * w) by (nonlinear_arith);
            }
            y += 1;
        }
        proof {
            assert(y * w == w * h) by (nonlinear_arith)
                requires
                    y == h,
            ;
            assert(data@ =~= tga_data(v@));
        }
        Image { width: header.width as i32, height: header.height as i32, data }
    }

    /// Writes the image as a file of three bytes per pixel, blue, green and
    /// red, in the order the pixels are stored.
    pub fn write_to_tga(&self) -> (bytes: Vec<u8>)
        requires
            self.wf(),
            HEADER_LEN + 3 * self.data@.len() <= usize::MAX,
        ensures
            bytes@ == self.tga_bytes(),
    {
        let header = Header {
            id_length: 0,
            color_map_type: 0,
            image_type: 2,
            c_map_start: 0,
            c_map_length: 0,
            c_map_depth: 0,
            x_offset: 0,
            y_offset: 0,
            width: (self.width % 0x10000) as u16,
            height: (self.height % 0x10000) as u16,
            pixel_depth: 24,
            image_descriptor: 0,
        };
        let head = header.to_bytes();
        let mut bytes: Vec<u8> = Vec::new();
        let mut k: usize = 0;
        while k < HEADER_LEN
            invariant
                0 <= k <= HEADER_LEN,
                head@ == header.bytes(),
                bytes@ == head@.take(k as int),
            decreases HEADER_LEN - k,
        {
            bytes.push(head[k]);
            assert(bytes@ =~= head@.take(k + 1));
            k += 1;
        }
        assert(bytes@ =~= header.bytes());
        let n: usize = self.data.len();
        let mut i: usize = 0;
        while i < n
            invariant
                0 <= i <= n,
                n == self.data@.len(),
                HEADER_LEN + 3 * n <= usize::MAX,
                bytes@.len() == HEADER_LEN + 3 * i,
                bytes@.take(HEADER_LEN as int) == header.bytes(),
                forall|j: int|
                    0 <= j < 3 * i ==> bytes@[HEADER_LEN + j] == channels(self.data@)[j],
            decreases n - i,
        {
            let c = self.data[i];
            let ghost before = bytes@;
            bytes.push(c.2);
            bytes.push(c.1);
            bytes.push(c.0);
            proof {
                assert(bytes@.take(HEADER_LEN as int) =~= before.take(HEADER_LEN as int));
                assert forall|j: int| 0 <= j < 3 * (i + 1) implies bytes@[HEADER_LEN + j]
                    == channels(self.data@)[j] by {
                    if j < 3 * i {
                        assert(bytes@[HEADER_LEN + j] == before[HEADER_LEN + j]);
                    } else {
                        assert(j / 3 == i);
                    }
                }
            }
            i += 1;
        }
        proof {
            assert(bytes@ =~= bytes@.take(HEADER_LEN as int) + channels(self.data@));
        }
        bytes
    }
}

/// An image without pixels, no side of it longer than 4096, is read back
/// from the file it was written to as it was.
///
/// Images with pixels are left out: they are written with three bytes per
/// pixel and read with four, so the file of such an image is too short to be
/// read.
pub proof fn lemma_tga_round_trip(img: Image)
    requires
        img.wf(),
        img.width <= 4096,
        img.height <= 4096,
        img.width * img.height == 0,
    ensures
        is_tga(img.tga_bytes()),
        Header::of_bytes(img.tga_bytes()).width == img.width,
        Header::of_bytes(img.tga_bytes()).height == img.height,
        tga_data(img.tga_bytes()) == img.data@,
{
    lemma_written_header(img);
    assert(tga_data(img.tga_bytes()) =~= img.data@);
}

/// The file that an image is written to starts with the header of a
/// true-colour image of its size, and holds three bytes per pixel behind it.
pub proof fn lemma_written_header(img: Image)
    requires
        img.wf(),
        img.width <= 0xffff,
        img.height <= 0xffff,
    ensures
        img.tga_bytes().len() == HEADER_LEN + 3 * (img.width * img.height),
        Header::of_bytes(img.tga_bytes()) == Header::truecolor(
            img.width as u16,
            img.height as u16,
        ),
{
    let h = Header::truecolor(img.width as u16, img.height as u16);
    lemma_header_round_trip(h);
    let b = img.tga_bytes();
    assert(b.take(HEADER_LEN as int) =~= h.bytes());
    assert(Header::of_bytes(b) == Header::of_bytes(h.bytes()));
}

} // verus!
