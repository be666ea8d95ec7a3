//! Pictures that came with a message, put into the message itself.

use vstd::prelude::*;

use crate::codec::{base64_encode, base64_text};
use crate::error::{ErrorV, GatewayError};
use crate::json::{field, text_field_or, Json, JsonV};
use crate::platforms::wechat::login::{as_text, text_in};
use crate::types::{ChannelPart, PartKind, PartV};

verus! {

/// The formats of pictures that are passed on.
#[derive(Debug, Clone, Copy, PartialEq, Eq, Structural)]
pub enum PictureFormat {
    Jpeg,
    Png,
    WebP,
}

/// How many pictures a message may bring.
pub const MAX_IMAGES: usize = 3;

/// How wide and how high a picture may be.
pub const MAX_SIDE: u32 = 8192;

/// How many pixels a picture may have.
pub const MAX_PIXELS: u64 = 16_000_000;

/// How many bytes may be set aside to read a picture.
pub const MAX_PICTURE_BYTES: u64 = 83_886_080;

/// Whether bytes start with other bytes.
pub open spec fn opens_with(s: Seq<u8>, p: Seq<u8>) -> bool {
    s.len() >= p.len() && s.take(p.len() as int) == p
}

/// The format that the first bytes of a picture tell.
pub open spec fn format_of(s: Seq<u8>) -> Option<PictureFormat> {
    if opens_with(s, seq![0x89u8, 0x50, 0x4e, 0x47, 0x0d, 0x0a, 0x1a, 0x0a]) {
        Some(PictureFormat::Png)
    } else if opens_with(s, seq![0xffu8, 0xd8, 0xff]) {
        Some(PictureFormat::Jpeg)
    } else if opens_with(s, seq![0x52u8, 0x49, 0x46, 0x46]) && s.len() >= 12 && s.subrange(8, 12)
        == seq![0x57u8, 0x45, 0x42, 0x50] {
        Some(PictureFormat::WebP)
    } else {
        None
    }
}

/// `image::guess_format`: the format that the first bytes tell. A picture is PNG, JPEG or WebP where
/// it opens with the signature of that format (in WebP, four bytes may be anything); any other
/// format, and none, is `None`.
#[verifier::external_body]
fn guess_format(bytes: &[u8]) -> (r: Option<PictureFormat>)
    ensures
        r == format_of(bytes@),
{
    match image::guess_format(bytes) {
        Ok(image::ImageFormat::Jpeg) => Some(PictureFormat::Jpeg),
        Ok(image::ImageFormat::Png) => Some(PictureFormat::Png),
        Ok(image::ImageFormat::WebP) => Some(PictureFormat::WebP),
        _ => None,
    }
}

/// How wide and how high `image` says that a picture of this format is; `None` where it cannot tell.
pub uninterp spec fn picture_size(bytes: Seq<u8>, format: PictureFormat) -> Option<(u32, u32)>;

/// `image::ImageReader::into_dimensions`, on bytes read as this format: how wide and how high the
/// picture is, or `None` where its header cannot be read.
#[verifier::external_body]
fn measure_picture(bytes: &[u8], format: PictureFormat) -> (r: Option<(u32, u32)>)
    ensures
        r == picture_size(bytes@, format),
{
    let format = match format {
        PictureFormat::Jpeg => image::ImageFormat::Jpeg,
        PictureFormat::Png => image::ImageFormat::Png,
        PictureFormat::WebP => image::ImageFormat::WebP,
    };
    image::ImageReader::with_format(std::io::Cursor::new(bytes), format).into_dimensions().ok()
}

/// Whether `image` can read a picture of this format when it may set aside so many bytes.
pub uninterp spec fn picture_is_readable(bytes: Seq<u8>, format: PictureFormat, max_alloc: u64) -> bool;

/// `image::ImageReader::decode`, on bytes read as this format, with a limit on the bytes that may be
/// set aside: whether the whole picture can be read.
#[verifier::external_body]
fn can_read_picture(bytes: &[u8], format: PictureFormat, max_alloc: u64) -> (r: bool)
    ensures
        r == picture_is_readable(bytes@, format, max_alloc),
{
    let format = match format {
        PictureFormat::Jpeg => image::ImageFormat::Jpeg,
        PictureFormat::Png => image::ImageFormat::Png,
        PictureFormat::WebP => image::ImageFormat::WebP,
    };
    let mut reader = image::ImageReader::with_format(std::io::Cursor::new(bytes), format);
    let mut limits = image::Limits::default();
    limits.max_alloc = Some(max_alloc);
    reader.limits(limits);
    reader.decode().is_ok()
}

fn invalid() -> (r: GatewayError)
    ensures
        r@ == invalid_image(),
{
    GatewayError::other("invalid or oversized image")
}

/// The error of a picture that is not passed on.
pub open spec fn invalid_image() -> ErrorV {
    ErrorV::Other("invalid or oversized image"@)
}

/// Where the bytes of a picture are, and how to read them.
#[derive(Debug)]
pub struct ImageSource {
    pub url: String,
    pub aes_key: String,
    pub encrypt_query_param: String,
}

/// Where the bytes of a picture are, as texts.
#[verifier::ext_equal]
pub struct SourceV {
    pub url: Seq<char>,
    pub aes_key: Seq<char>,
    pub encrypt_query_param: Seq<char>,
}

impl View for ImageSource {
    type V = SourceV;

    open spec fn view(&self) -> SourceV {
        SourceV {
            url: self.url@,
            aes_key: self.aes_key@,
            encrypt_query_param: self.encrypt_query_param@,
        }
    }
}

/// Where the bytes of a picture are, as the item that it came as says.
pub open spec fn source_of(data: Option<JsonV>) -> Option<SourceV> {
    match data {
        None => None,
        Some(d) => match field(d, "image_item"@) {
            None => None,
            Some(item) => {
                let media = match field(item, "media"@) {
                    Some(m) => m,
                    None => item,
                };
                let key = match field(media, "aes_key"@) {
                    Some(k) => Some(k),
                    None => field(item, "aeskey"@),
                };
                match text_in(key) {
                    None => None,
                    Some(k) => Some(
                        SourceV {
                            url: text_field_or(media, "url"@, Seq::empty()),
                            aes_key: k,
                            encrypt_query_param: text_field_or(
                                media,
                                "encrypt_query_param"@,
                                Seq::empty(),
                            ),
                        },
                    ),
                }
            },
        },
    }
}

/// Where the bytes of a picture are.
pub fn image_source(part: &ChannelPart) -> (r: Result<ImageSource, GatewayError>)
    ensures
        match source_of(part@.data) {
            Some(s) => r matches Ok(x) && x@ == s,
            None => r matches Err(e) && e@ == invalid_image(),
        },
{
    let data: &Json = match &part.data {
        Some(d) => d,
        None => {
            return Err(invalid());
        },
    };
    let item: &Json = match data.get("image_item") {
        Some(i) => i,
        None => {
            return Err(invalid());
        },
    };
    let media: &Json = match item.get("media") {
        Some(m) => m,
        None => item,
    };
    let key: Option<&Json> = match media.get("aes_key") {
        Some(k) => Some(k),
        None => item.get("aeskey"),
    };
    match as_text(key) {
        Some(k) => Ok(
            ImageSource {
                url: media.get_string("url"),
                aes_key: k.to_owned(),
                encrypt_query_param: media.get_string("encrypt_query_param"),
            },
        ),
        None => Err(invalid()),
    }
}

/// How many of the parts are pictures.
pub open spec fn images_in(parts: Seq<PartV>) -> nat
    decreases parts.len(),
{
    if parts.len() == 0 {
        0
    } else {
        images_in(parts.drop_last()) + if parts.last().kind == PartKind::Image {
            1nat
        } else {
            0nat
        }
    }
}

/// Whether a message brings too many pictures.
pub fn too_many_images(parts: &Vec<ChannelPart>) -> (r: bool)
    ensures
        r == (images_in(parts.deep_view()) > MAX_IMAGES),
{
    let ghost all = parts.deep_view();
    let mut n: usize = 0;
    let mut i: usize = 0;
    assert(all.take(0) == Seq::<PartV>::empty());
    while i < parts.len()
        invariant
            i <= parts@.len(),
            all == parts.deep_view(),
            n <= i,
            n == images_in(all.take(i as int)),
        decreases parts@.len() - i,
    {
        proof {
            assert(all.take(i + 1).drop_last() == all.take(i as int));
            assert(all.take(i + 1).last() == parts@[i as int]@);
        }
        if parts[i].kind == PartKind::Image {
            n = n + 1;
        }
        i = i + 1;
    }
    assert(all.take(all.len() as int) == all);
    n > MAX_IMAGES
}

/// What comes next in reading the pictures of a message.
#[derive(Debug)]
pub enum ImageStep {
    /// Get the bytes of this part.
    Fetch(usize, ImageSource),
    /// All pictures are read.
    Done,
}

/// The first of the parts from `i` on that is a picture, or how many parts there are.
pub open spec fn next_image(parts: Seq<PartV>, i: int) -> int
    decreases parts.len() - i,
{
    if i < 0 || i >= parts.len() || parts[i].kind == PartKind::Image {
        i
    } else {
        next_image(parts, i + 1)
    }
}

/// What comes next in reading the pictures of a message, where the parts before `from` are done.
/// A message with too many pictures, or with one that cannot be got, is refused.
pub fn inline_images(parts: &Vec<ChannelPart>, from: usize) -> (r: Result<ImageStep, GatewayError>)
    requires
        from <= parts@.len(),
    ensures
        ({
            let all = parts.deep_view();
            let i = next_image(all, from as int);
            if images_in(all) > MAX_IMAGES {
                r matches Err(e) && e@ == invalid_image()
            } else if i >= all.len() {
                r matches Ok(ImageStep::Done)
            } else {
                match source_of(all[i].data) {
                    Some(s) => r matches Ok(ImageStep::Fetch(k, x)) && k == i && x@ == s,
                    None => r matches Err(e) && e@ == invalid_image(),
                }
            }
        }),
{
    if too_many_images(parts) {
        return Err(invalid());
    }
    let ghost all = parts.deep_view();
    let mut i: usize = from;
    while i < parts.len()
        invariant
            i <= parts@.len(),
            all == parts.deep_view(),
            images_in(all) <= MAX_IMAGES,
            next_image(all, from as int) == next_image(all, i as int),
        decreases parts@.len() - i,
    {
        assert(all[i as int] == parts@[i as int]@);
        if parts[i].kind == PartKind::Image {
            return match image_source(&parts[i]) {
                Ok(s) => Ok(ImageStep::Fetch(i, s)),
                Err(e) => Err(e),
            };
        }
        i = i + 1;
    }
    Ok(ImageStep::Done)
}

/// The media type of a format.
pub open spec fn mime_of(f: PictureFormat) -> Seq<char> {
    match f {
        PictureFormat::Jpeg => "image/jpeg"@,
        PictureFormat::Png => "image/png"@,
        PictureFormat::WebP => "image/webp"@,
    }
}

/// The media type of a format.
pub fn mime(f: PictureFormat) -> (r: &'static str)
    ensures
        r@ == mime_of(f),
{
    match f {
        PictureFormat::Jpeg => "image/jpeg",
        PictureFormat::Png => "image/png",
        PictureFormat::WebP => "image/webp",
    }
}

/// Whether a picture is small enough.
pub open spec fn fits(w: u32, h: u32) -> bool {
    w <= MAX_SIDE && h <= MAX_SIDE && w * h <= MAX_PIXELS
}

/// Whether a picture is small enough.
pub fn size_fits(w: u32, h: u32) -> (r: bool)
    ensures
        r == fits(w, h),
{
    if w > MAX_SIDE || h > MAX_SIDE {
        return false;
    }
    assert(0 <= w * h <= 8192 * 8192) by (nonlinear_arith)
        requires
            w <= 8192,
            h <= 8192,
    ;
    w as u64 * h as u64 <= MAX_PIXELS
}

/// The part that a picture becomes: all of it stands in the URL.
pub open spec fn inlined(p: PartV, url: Seq<char>) -> PartV {
    PartV { url: url, text: Seq::empty(), data: None, extra: Seq::empty(), ..p }
}

/// The bytes of a picture as a URL, where `encoded` is what they are in base64.
pub open spec fn data_url(f: PictureFormat, encoded: Seq<char>) -> Seq<char> {
    "data:"@ + mime_of(f) + ";base64,"@ + encoded
}

/// The bytes of a picture as a URL. Of a picture, `size` is how wide and how high it is, and `readable`
/// whether all of it can be read.
pub fn check_picture(
    format: Option<PictureFormat>,
    size: Option<(u32, u32)>,
    readable: bool,
    encoded: &str,
) -> (r: Result<String, GatewayError>)
    ensures
        ({
            let good = format is Some && size is Some && fits((size->0).0, (size->0).1) && readable;
            if good {
                r matches Ok(u) && u@ == data_url(format->0, encoded@)
            } else {
                r matches Err(e) && e@ == invalid_image()
            }
        }),
{
    let f: PictureFormat = match format {
        Some(f) => f,
        None => {
            return Err(invalid());
        },
    };
    match size {
        Some((w, h)) => {
            if !size_fits(w, h) {
                return Err(invalid());
            }
        },
        None => {
            return Err(invalid());
        },
    }
    if !readable {
        return Err(invalid());
    }
    let mut url: String = "data:".to_owned();
    url.append(mime(f));
    url.append(";base64,");
    url.append(encoded);
    Ok(url)
}

/// The picture that these bytes hold as a URL, as `image` reads them.
pub open spec fn picture_url(bytes: Seq<u8>) -> Option<Seq<char>> {
    match format_of(bytes) {
        None => None,
        Some(f) => match picture_size(bytes, f) {
            None => None,
            Some((w, h)) => if fits(w, h) && picture_is_readable(bytes, f, MAX_PICTURE_BYTES) {
                Some(data_url(f, base64_text(bytes)))
            } else {
                None
            },
        },
    }
}

/// Puts the bytes of a picture into its part. Bytes that are no picture, or too large a one, are
/// refused, and the part stays as it was.
pub fn inline_image(part: &mut ChannelPart, bytes: &Vec<u8>) -> (r: Result<(), GatewayError>)
    ensures
        match picture_url(bytes@) {
            Some(u) => r is Ok && final(part)@ == inlined(old(part)@, u),
            None => r matches Err(e) && e@ == invalid_image() && final(part)@ == old(part)@,
        },
{
    let f: PictureFormat = match guess_format(bytes.as_slice()) {
        Some(f) => f,
        None => {
            return Err(invalid());
        },
    };
    let size: Option<(u32, u32)> = measure_picture(bytes.as_slice(), f);
    match size {
        Some((w, h)) => {
            if !size_fits(w, h) {
                return Err(invalid());
            }
        },
        None => {
            return Err(invalid());
        },
    }
    let readable: bool = can_read_picture(bytes.as_slice(), f, MAX_PICTURE_BYTES);
    let encoded: String = base64_encode(bytes.as_slice());
    match check_picture(Some(f), size, readable, encoded.as_str()) {
        Ok(url) => {
            part.url = url;
            part.text = String::new();
            part.data = None;
            part.extra = Vec::new();
            assert(part@ =~= inlined(old(part)@, url@));
            Ok(())
        },
        Err(e) => Err(e),
    }
}

/// Going on from one picture to the next leaves none out: between where it starts and the part that
/// comes next there is no picture, and the part that comes next is one, or the end.
pub proof fn no_image_is_left_out(parts: Seq<PartV>, i: int)
    requires
        0 <= i <= parts.len(),
    ensures
        i <= next_image(parts, i) <= parts.len(),
        next_image(parts, i) < parts.len() ==> parts[next_image(parts, i)].kind == PartKind::Image,
        forall|k: int| i <= k < next_image(parts, i) ==> (#[trigger] parts[k]).kind != PartKind::Image,
    decreases parts.len() - i,
{
    if i < parts.len() && parts[i].kind != PartKind::Image {
        no_image_is_left_out(parts, i + 1);
    }
}

} // verus!
