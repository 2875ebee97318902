use vstd::prelude::*;
use crate::error::EngineError;

verus! {

/// The renderer's handle of an asset; `None` until the asset is sent to it.
pub type GlId = Option<u32>;

/// An image in memory: RGBA bytes, row after row, and its size in pixels.
#[derive(Debug)]
pub struct Texture {
    pub raw: Vec<u8>,
    pub width: i32,
    pub height: i32,
}

/// A compiled shader program, by the renderer's identifier for it.
#[derive(Debug)]
pub struct Shader {
    pub id: u32,
    pub vert_name: String,
    pub frag_name: String,
}

/// What one slot of the asset storage holds.
#[derive(Debug)]
pub enum Payload {
    Texture(Texture),
    Shader(Shader),
}

/// A kind of value that a storage slot can hold.
pub trait Ressource: Sized {
    /// The value of this kind in `payload`, where the payload is of this kind.
    spec fn pick(payload: Payload) -> Option<Self>;

    /// The value of this kind in `payload`, where the payload is of this kind.
    fn downcast(payload: &Payload) -> (r: Option<&Self>)
        ensures
            match r {
                Some(v) => Self::pick(*payload) == Some(*v),
                None => Self::pick(*payload) is None,
            },
    ;
}

impl Ressource for Texture {
    open spec fn pick(payload: Payload) -> Option<Texture> {
        match payload {
            Payload::Texture(texture) => Some(texture),
            Payload::Shader(_) => None,
        }
    }

    fn downcast(payload: &Payload) -> (r: Option<&Texture>) {
        match payload {
            Payload::Texture(texture) => Some(texture),
            Payload::Shader(_) => None,
        }
    }
}

impl Ressource for Shader {
    open spec fn pick(payload: Payload) -> Option<Shader> {
        match payload {
            Payload::Shader(shader) => Some(shader),
            Payload::Texture(_) => None,
        }
    }

    fn downcast(payload: &Payload) -> (r: Option<&Shader>) {
        match payload {
            Payload::Shader(shader) => Some(shader),
            Payload::Texture(_) => None,
        }
    }
}

/// The values of kind `T` among `payloads`, in their order.
pub open spec fn picks<T: Ressource>(payloads: Seq<Payload>) -> Seq<T>
    decreases payloads.len(),
{
    if payloads.len() == 0 {
        Seq::empty()
    } else {
        match T::pick(payloads.last()) {
            Some(value) => picks::<T>(payloads.drop_last()).push(value),
            None => picks::<T>(payloads.drop_last()),
        }
    }
}

/// `image::ImageError`, the error of the image decoder. Nothing is said of
/// what it holds.
#[verifier::external_type_specification]
#[verifier::external_body]
pub struct ExImageError(image::ImageError);

/// `image::ImageFormat`, the file format of an image. Nothing is said of
/// what it holds.
#[verifier::external_type_specification]
#[verifier::external_body]
pub struct ExImageFormat(image::ImageFormat);

/// Calls `image::ImageFormat::from_path`: the format that the extension of
/// the path stands for. Nothing is claimed of the result.
#[verifier::external_body]
fn format_of(path: &str) -> Result<image::ImageFormat, image::ImageError> {
    image::ImageFormat::from_path(path)
}

/// Calls `image::load_from_memory_with_format`, then `DynamicImage::to_rgba8`,
/// `ImageBuffer::dimensions` and `ImageBuffer::into_raw`.
///
/// Taken on trust: that the buffer of an RGBA image holds four bytes for
/// each pixel. Which pixels come out is not claimed: a decoder may round
/// differently from one machine to the next.
#[verifier::external_body]
fn decode_rgba(bytes: &[u8], format: image::ImageFormat) -> (r: Result<
    (Vec<u8>, u32, u32),
    image::ImageError,
>)
    ensures
        match r {
            Ok((raw, width, height)) => raw@.len() == 4 * width * height,
            Err(_) => true,
        },
{
    let rgba = image::load_from_memory_with_format(bytes, format)?.to_rgba8();
    let (width, height) = rgba.dimensions();
    Ok((rgba.into_raw(), width, height))
}

/// Whether decoded pixels of this size make a texture: the renderer takes
/// both sides as `i32`.
pub open spec fn fits_texture(width: u32, height: u32) -> bool {
    width <= i32::MAX && height <= i32::MAX
}

impl Texture {
    /// Whether the texture is an RGBA image: its sides are not negative and
    /// it holds four bytes for each pixel.
    pub open spec fn is_rgba(self) -> bool {
        &&& self.width >= 0
        &&& self.height >= 0
        &&& self.raw@.len() == 4 * self.width * self.height
    }

    /// The texture of decoded pixels; `DecodeFailure` where a side is beyond
    /// what the renderer can take.
    pub fn from_rgba(raw: Vec<u8>, width: u32, height: u32) -> (r: Result<Texture, EngineError>)
        ensures
            match r {
                Ok(texture) => fits_texture(width, height) && texture.raw == raw && texture.width
                    == width && texture.height == height,
                Err(e) => e == EngineError::DecodeFailure && !fits_texture(width, height),
            },
    {
        if width <= 0x7fff_ffff && height <= 0x7fff_ffff {
            Ok(Texture { raw, width: width as i32, height: height as i32 })
        } else {
            Err(EngineError::DecodeFailure)
        }
    }

    /// Decodes the bytes of an image file into a texture of RGBA pixels. The
    /// format is the one that the extension of `path` names. `DecodeFailure`
    /// where the extension names no format, the bytes cannot be decoded in
    /// that format, or the image is beyond what the renderer can take.
    ///
    /// Whether the decoder succeeds, and with which pixels, is its own
    /// matter; what is proved holds of whatever it gives.
    pub fn decode(path: &str, bytes: &[u8]) -> (r: Result<Texture, EngineError>)
        ensures
            match r {
                Ok(texture) => texture.is_rgba(),
                Err(e) => e == EngineError::DecodeFailure,
            },
    {
        match format_of(path) {
            Ok(format) => match decode_rgba(bytes, format) {
                Ok((raw, width, height)) => Texture::from_rgba(raw, width, height),
                Err(_) => Err(EngineError::DecodeFailure),
            },
            Err(_) => Err(EngineError::DecodeFailure),
        }
    }
}

impl Shader {
    /// A shader program that the renderer knows as `id`.
    pub fn new(id: u32) -> (shader: Shader)
        ensures
            shader.id == id,
            shader.vert_name@ == Seq::<char>::empty(),
            shader.frag_name@ == Seq::<char>::empty(),
    {
        Shader { id, vert_name: String::new(), frag_name: String::new() }
    }
}

} // verus!
