//! Images on their way to the terminal.
use vstd::prelude::*;
use vstd::string::*;

use super::kgfx::lease::{LeaseView, ShmLease};
use crate::text;

verus! {

/// The size of an image in pixels.
#[derive(Clone, Copy, Debug, PartialEq, Eq, Structural)]
pub struct Dimensions {
    pub width: u32,
    pub height: u32,
}

/// The number of an image at the terminal, which is never zero.
#[derive(Clone, Copy, Debug, PartialEq, Eq, Structural)]
pub struct ImageId {
    pub id: u32,
}

impl ImageId {
    /// The number of an image.
    pub fn new(id: u32) -> (r: Self)
        requires
            id != 0,
        ensures
            r.id == id,
    {
        ImageId { id }
    }
}

/// How the pixels of an image reach the terminal.
#[derive(Debug)]
pub enum Transmission {
    /// Through shared memory.
    SharedMemory {
        /// The region, until it is handed over.
        shm: Option<ShmLease>,
    },
    /// Inside the command.
    Direct {
        /// How long the parts of the command are.
        chunk_size: Option<usize>,
        /// The pixels, three bytes each.
        data: Vec<u8>,
    },
}

/// An image that is ready for the terminal.
#[derive(Debug)]
pub struct Image {
    pub id: ImageId,
    pub dimensions: Dimensions,
    pub transmission: Transmission,
}

/// The pixels of an image, three bytes each, row by row.
#[derive(Debug)]
pub struct RgbImage {
    pub width: u32,
    pub height: u32,
    pub data: Vec<u8>,
}

/// An image of any kind of pixels.
#[verifier::external_type_specification]
#[verifier::external_body]
pub struct ExDynamicImage(image::DynamicImage);

/// The pixels of an image as red, green and blue, three bytes each, row by row.
pub uninterp spec fn rgb_pixels(img: image::DynamicImage) -> Seq<u8>;

/// The width and the height of an image.
pub uninterp spec fn image_size(img: image::DynamicImage) -> (u32, u32);

/// `image::DynamicImage::to_rgb8` gives a copy of the image with its size and with every pixel as red,
/// green and blue; what a pixel of another kind becomes is only named here. The copy has at least three
/// bytes for each pixel: a buffer of pixels is only made where they fit, and it may be longer.
#[verifier::external_body]
fn to_rgb8(img: &image::DynamicImage) -> (r: RgbImage)
    ensures
        r.data@ == rgb_pixels(*img),
        (r.width, r.height) == image_size(*img),
        r.data@.len() >= rgb_bytes(r.width, r.height),
{
    let rgb = img.to_rgb8();
    RgbImage { width: rgb.width(), height: rgb.height(), data: rgb.into_raw() }
}

/// Why an image cannot go through shared memory.
#[derive(Debug)]
pub enum ImageError {
    /// The number of bytes is too large to be written down.
    SizeOverflow,
    /// There are more bytes or fewer than the pixels need.
    SizeMismatch,
    /// The system gives no region, and says why.
    Region { cause: String },
}

/// The wording of an error.
pub open spec fn image_error_text(e: ImageError) -> Seq<char> {
    match e {
        ImageError::SizeOverflow => "RGB size overflow"@,
        ImageError::SizeMismatch => "RGB buffer size mismatch"@,
        ImageError::Region { cause } => cause@,
    }
}

impl ImageError {
    /// The wording of the error.
    pub fn message(&self) -> (r: String)
        ensures
            r@ == image_error_text(*self),
    {
        match self {
            ImageError::SizeOverflow => text::copy("RGB size overflow"),
            ImageError::SizeMismatch => text::copy("RGB buffer size mismatch"),
            ImageError::Region { cause } => text::copy(cause.as_str()),
        }
    }
}

/// Whether an image goes inside the command, with the given pixels.
pub open spec fn is_direct(image: Image, id: ImageId, width: u32, height: u32, data: Seq<u8>) -> bool {
    &&& image.id == id
    &&& image.dimensions == (Dimensions { width, height })
    &&& image.transmission matches Transmission::Direct { chunk_size, data: d } && chunk_size
        is None && d@ == data
}

/// Whether an image goes through a region that its lease answers for.
pub open spec fn is_shared(
    image: Image,
    id: ImageId,
    width: u32,
    height: u32,
    path: Seq<char>,
    size: usize,
) -> bool {
    &&& image.id == id
    &&& image.dimensions == (Dimensions { width, height })
    &&& image.transmission matches Transmission::SharedMemory { shm } && shm matches Some(lease)
        && lease@ == (LeaseView { path, size, owned: true })
}

/// How many bytes the pixels of an image need.
pub open spec fn rgb_bytes(width: u32, height: u32) -> int {
    width * height * 3
}

/// The number of bytes of an image, where they are as many as its pixels need.
pub fn rgb_size(len: usize, width: u32, height: u32) -> (r: Result<usize, ImageError>)
    ensures
        match r {
            Ok(n) => rgb_bytes(width, height) <= u32::MAX && len == rgb_bytes(width, height) && n
                == len,
            Err(ImageError::SizeOverflow) => rgb_bytes(width, height) > u32::MAX,
            Err(ImageError::SizeMismatch) => rgb_bytes(width, height) <= u32::MAX && len
                != rgb_bytes(width, height),
            Err(ImageError::Region { .. }) => false,
        },
{
    let pixels: u64 = width as u64;
    proof {
        assert(0 <= width * height <= 0xffff_ffff * 0xffff_ffff) by (nonlinear_arith)
            requires
                0 <= width <= 0xffff_ffff,
                0 <= height <= 0xffff_ffff,
        ;
    }
    let area: u64 = pixels * (height as u64);
    if area > u32::MAX as u64 {
        return Err(ImageError::SizeOverflow);
    }
    let bytes: u64 = area * 3;
    if bytes > u32::MAX as u64 {
        return Err(ImageError::SizeOverflow);
    }
    if len as u64 != bytes {
        return Err(ImageError::SizeMismatch);
    }
    Ok(len)
}

/// The pixels of an image as they are written into shared memory: they have to be as many as the size
/// needs, and their number has to be small enough to be written down.
pub fn rgb_for_shm(img: &image::DynamicImage) -> (r: Result<RgbImage, ImageError>)
    ensures
        match r {
            Ok(i) => {
                &&& i.data@ == rgb_pixels(*img)
                &&& (i.width, i.height) == image_size(*img)
                &&& i.data@.len() == rgb_bytes(i.width, i.height)
                &&& rgb_bytes(i.width, i.height) <= u32::MAX
            },
            Err(ImageError::SizeOverflow) => rgb_bytes(image_size(*img).0, image_size(*img).1)
                > u32::MAX,
            Err(ImageError::SizeMismatch) => rgb_bytes(image_size(*img).0, image_size(*img).1)
                <= u32::MAX && rgb_pixels(*img).len() > rgb_bytes(
                image_size(*img).0,
                image_size(*img).1,
            ),
            Err(ImageError::Region { .. }) => false,
        },
{
    let rgb = to_rgb8(img);
    match rgb_size(rgb.data.len(), rgb.width, rgb.height) {
        Ok(_) => Ok(rgb),
        Err(e) => Err(e),
    }
}

impl Image {
    /// An image that goes inside the command.
    pub fn from_dynamic(img: image::DynamicImage, id: ImageId) -> (r: Image)
        ensures
            is_direct(r, id, image_size(img).0, image_size(img).1, rgb_pixels(img)),
    {
        let rgb = to_rgb8(&img);
        Image::from_rgb_bytes(rgb.data, rgb.width, rgb.height, id)
    }

    /// An image that goes inside the command, from its bytes.
    pub fn from_rgb_bytes(data: Vec<u8>, width: u32, height: u32, id: ImageId) -> (r: Image)
        ensures
            is_direct(r, id, width, height, data@),
    {
        Image {
            id,
            dimensions: Dimensions { width, height },
            transmission: Transmission::Direct { chunk_size: None, data },
        }
    }

    /// An image that goes through shared memory; `region` is the path of the region that the system
    /// gave for its bytes.
    pub fn create_shm_from(
        img: image::DynamicImage,
        region: Result<String, String>,
        id: ImageId,
    ) -> (r: Result<(Image, usize), ImageError>)
        ensures
            shm_result(
                r,
                rgb_pixels(img).len(),
                image_size(img).0,
                image_size(img).1,
                region,
                id,
            ),
    {
        let rgb = to_rgb8(&img);
        Image::create_shm_from_rgb(rgb.data.as_slice(), rgb.width, rgb.height, region, id)
    }

    /// An image that goes through shared memory, from its bytes.
    pub fn create_shm_from_rgb(
        data: &[u8],
        width: u32,
        height: u32,
        region: Result<String, String>,
        id: ImageId,
    ) -> (r: Result<(Image, usize), ImageError>)
        ensures
            shm_result(r, data@.len(), width, height, region, id),
    {
        let size = match rgb_size(data.len(), width, height) {
            Ok(n) => n,
            Err(e) => {
                return Err(e);
            },
        };
        match region {
            Ok(path) => {
                let image = Image {
                    id,
                    dimensions: Dimensions { width, height },
                    transmission: Transmission::SharedMemory { shm: Some(ShmLease::new(path, size)) },
                };
                Ok((image, size))
            },
            Err(cause) => Err(ImageError::Region { cause }),
        }
    }

    /// The size of the image.
    pub fn dimensions(&self) -> (r: Dimensions)
        ensures
            r == self.dimensions,
    {
        self.dimensions
    }
}

/// What comes of an image that is to go through shared memory.
pub open spec fn shm_result(
    r: Result<(Image, usize), ImageError>,
    len: nat,
    width: u32,
    height: u32,
    region: Result<String, String>,
    id: ImageId,
) -> bool {
    if rgb_bytes(width, height) > u32::MAX {
        r matches Err(e) && e is SizeOverflow
    } else if len != rgb_bytes(width, height) {
        r matches Err(e) && e is SizeMismatch
    } else {
        match region {
            Ok(path) => r matches Ok((image, size)) && size == len && is_shared(
                image,
                id,
                width,
                height,
                path@,
                size,
            ),
            Err(why) => r matches Err(ImageError::Region { cause }) && cause@ == why@,
        }
    }
}

/// Where an image is on its way.
#[derive(Debug)]
pub enum ImageState {
    /// At the terminal.
    Uploaded(ImageId),
    /// Not sent yet.
    Queued(Image),
}

impl ImageState {
    /// Whether the image is at the terminal.
    pub fn is_uploaded(&self) -> (r: bool)
        ensures
            r == (self is Uploaded),
    {
        match self {
            ImageState::Uploaded(_) => true,
            ImageState::Queued(_) => false,
        }
    }

    /// The path to remove when an image is dropped before it was sent.
    pub fn released(self) -> (r: Option<String>)
        ensures
            text::option_view(r) == released_path(self),
    {
        match self {
            ImageState::Uploaded(_) => None,
            ImageState::Queued(image) => match image.transmission {
                Transmission::SharedMemory { shm } => match shm {
                    Some(lease) => lease.released(),
                    None => None,
                },
                Transmission::Direct { .. } => None,
            },
        }
    }
}

/// The path that a dropped image leaves behind: that of a region that was not handed over.
pub open spec fn released_path(state: ImageState) -> Option<Seq<char>> {
    match state {
        ImageState::Uploaded(_) => None,
        ImageState::Queued(image) => match image.transmission {
            Transmission::SharedMemory { shm } => match shm {
                Some(lease) => if lease@.owned && lease@.path.len() > 0 {
                    Some(lease@.path)
                } else {
                    None
                },
                None => None,
            },
            Transmission::Direct { .. } => None,
        },
    }
}

/// An image that waits with its region gives the region back when it is dropped; one whose region was
/// handed over does not.
pub proof fn law_queued_image_answers_for_its_region(
    image: Image,
    id: ImageId,
    width: u32,
    height: u32,
    path: Seq<char>,
    size: usize,
)
    requires
        is_shared(image, id, width, height, path, size),
        path.len() > 0,
    ensures
        released_path(ImageState::Queued(image)) == Some(path),
        released_path(
            ImageState::Queued(
                Image { transmission: Transmission::SharedMemory { shm: None }, ..image },
            ),
        ) is None,
{
}

} // verus!
