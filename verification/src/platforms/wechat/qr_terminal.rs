//! The QR code of a login: what it leads to, and how it is shown.

use vstd::prelude::*;

use crate::codec::{base64_bytes, base64_decode, query_text, url_encode};
use crate::config::DEFAULT_WECHAT_BOT_TYPE;
use crate::error::{ErrorV, GatewayError};
use crate::strs::{begins, concat2, split_at_first, split_once, starts_with, trim, trimmed};

verus! {

/// The page that a login leads to.
pub const LITEAPP_QR_PATH: &'static str = "https://liteapp.weixin.qq.com/q/7GiQu1";

// ---------------------------------------------------------------------------------------------
// URLs
// ---------------------------------------------------------------------------------------------

/// Whether a text is a URL of the web.
pub open spec fn is_web_url(s: Seq<char>) -> bool {
    begins(s, "http://"@) || begins(s, "https://"@)
}

/// Whether a text is a URL of the web.
pub fn looks_like_web_url(s: &str) -> (r: bool)
    ensures
        r == is_web_url(s@),
{
    starts_with(s, "http://") || starts_with(s, "https://")
}

/// The type of a bot, or the usual one where it is blank.
pub open spec fn bot_type_or_default(t: Seq<char>) -> Seq<char> {
    if trimmed(t).len() == 0 {
        DEFAULT_WECHAT_BOT_TYPE@
    } else {
        trimmed(t)
    }
}

/// The type of a bot, or the usual one where it is blank.
pub fn usual_bot_type(bot_type: &str) -> (r: String)
    ensures
        r@ == bot_type_or_default(bot_type@),
{
    let t: &str = trim(bot_type);
    if t.is_empty() {
        DEFAULT_WECHAT_BOT_TYPE.to_owned()
    } else {
        t.to_owned()
    }
}

/// The URL that a login leads to: the content of its image, where that is a URL, else one made of
/// its token. Empty where there is neither.
pub open spec fn scan_url(token: Seq<char>, img: Seq<char>, bot_type: Seq<char>) -> Seq<char> {
    if is_web_url(trimmed(img)) {
        trimmed(img)
    } else if token.len() > 0 {
        LITEAPP_QR_PATH@ + "?qrcode="@ + query_text(token) + "&bot_type="@ + query_text(
            bot_type_or_default(bot_type),
        )
    } else {
        Seq::empty()
    }
}

/// The URL that a login leads to; empty where there is none.
pub fn resolve_scan_url(qrcode_token: &str, img_content: &str, bot_type: &str) -> (r: String)
    ensures
        r@ == scan_url(qrcode_token@, img_content@, bot_type@),
{
    let t: &str = trim(img_content);
    if looks_like_web_url(t) {
        return t.to_owned();
    }
    if !qrcode_token.is_empty() {
        let kind: String = usual_bot_type(bot_type);
        let a: String = url_encode(qrcode_token);
        let b: String = url_encode(kind.as_str());
        let mut r: String = LITEAPP_QR_PATH.to_owned();
        r.append("?qrcode=");
        r.append(a.as_str());
        r.append("&bot_type=");
        r.append(b.as_str());
        return r;
    }
    String::new()
}

// ---------------------------------------------------------------------------------------------
// Images
// ---------------------------------------------------------------------------------------------

/// The base64 of an image, without what a data URL puts before it.
pub open spec fn image_base64(input: Seq<char>) -> Seq<char> {
    match split_at_first(trimmed(input), "base64,"@) {
        Some((_, data)) => data,
        None => trimmed(input),
    }
}

/// The base64 of an image, without what a data URL puts before it.
pub fn strip_data_url_prefix<'a>(input: &'a str) -> (r: &'a str)
    ensures
        r@ == image_base64(input@),
{
    let t: &str = trim(input);
    match split_once(t, "base64,") {
        Some((_, data)) => data,
        None => t,
    }
}

/// The bytes of an image, where `decoded` is what base64 makes of it.
pub open spec fn image_bytes(input: Seq<char>, decoded: Result<Seq<u8>, Seq<char>>) -> Result<
    Seq<u8>,
    ErrorV,
> {
    if image_base64(input).len() == 0 {
        Err(ErrorV::Other("empty qrcode_img_content"@))
    } else {
        match decoded {
            Ok(b) => Ok(b),
            Err(e) => Err(ErrorV::Other("invalid qrcode base64: "@ + e)),
        }
    }
}

/// The bytes of an image.
pub fn decode_png_bytes(input: &str) -> (r: Result<Vec<u8>, GatewayError>)
    ensures
        image_bytes(input@, base64_bytes(image_base64(input@))) == (match r {
            Ok(b) => Ok::<Seq<u8>, ErrorV>(b@),
            Err(e) => Err::<Seq<u8>, ErrorV>(e@),
        }),
{
    let payload: &str = strip_data_url_prefix(input);
    if payload.is_empty() {
        return Err(GatewayError::other("empty qrcode_img_content"));
    }
    match base64_decode(payload) {
        Ok(b) => Ok(b),
        Err(e) => Err(GatewayError::Other(concat2("invalid qrcode base64: ", e.as_str()))),
    }
}

/// What the decoders of images make of bytes: the width and the height of the picture and the
/// brightness of each of its points. Otherwise the text of the error, and whether it was the format
/// that could not be told.
pub uninterp spec fn decoded_picture(bytes: Seq<u8>) -> Result<
    (u32, u32, Seq<u8>),
    (bool, Seq<char>),
>;

/// `image::ImageReader::with_guessed_format`, `decode` and `to_luma8`: the picture, with one byte
/// for each point.
#[verifier::external_body]
fn decode_picture(bytes: &[u8]) -> (r: Result<(u32, u32, Vec<u8>), (bool, String)>)
    ensures
        match r {
            Ok(p) => decoded_picture(bytes@) == Ok::<(u32, u32, Seq<u8>), (bool, Seq<char>)>(
                (p.0, p.1, p.2@),
            ) && p.2@.len() == p.0 * p.1,
            Err(e) => decoded_picture(bytes@) == Err::<(u32, u32, Seq<u8>), (bool, Seq<char>)>(
                (e.0, e.1@),
            ),
        },
{
    let cursor = std::io::Cursor::new(bytes);
    match image::ImageReader::new(cursor).with_guessed_format() {
        Err(e) => Err((true, e.to_string())),
        Ok(reader) => match reader.decode() {
            Err(e) => Err((false, e.to_string())),
            Ok(p) => {
                let luma = p.to_luma8();
                Ok((luma.width(), luma.height(), luma.into_raw()))
            },
        },
    }
}

/// What the first QR code in a picture says, or why it cannot be read; `None` where there is no QR
/// code.
pub uninterp spec fn qr_in_picture(width: u32, height: u32, points: Seq<u8>) -> Option<
    Result<Seq<char>, Seq<char>>,
>;

/// `rqrr::PreparedImage::prepare`, `detect_grids` and `rqrr::Grid::decode`: what the first QR code
/// in a picture says. `rqrr` has assertions of its own on what it takes for a code, and panics where
/// one of them fails. So it runs as a task of `tokio::runtime::Runtime::spawn_blocking`, which a
/// panic ends without a result: there is no QR code then.
#[verifier::external_body]
fn find_qr(width: u32, height: u32, points: Vec<u8>) -> (r: Option<Result<String, String>>)
    requires
        width > 0,
        height > 0,
        points@.len() == width * height,
    ensures
        qr_in_picture(width, height, points@) == (match r {
            Some(Ok(s)) => Some(Ok::<Seq<char>, Seq<char>>(s@)),
            Some(Err(e)) => Some(Err::<Seq<char>, Seq<char>>(e@)),
            None => None,
        }),
{
    let runtime = tokio::runtime::Builder::new_current_thread().build().unwrap();
    let (sender, receiver) = std::sync::mpsc::channel();
    runtime.spawn_blocking(move || {
        let luma = image::GrayImage::from_raw(width, height, points).unwrap();
        let mut prepared = rqrr::PreparedImage::prepare(luma);
        let grids = prepared.detect_grids();
        let content = grids.first().map(|g| g.decode());
        sender.send(content.map(|c| c.map(|x| x.1).map_err(|e| e.to_string())))
    });
    let found = receiver.recv();
    runtime.shutdown_background();
    found.ok()?
}

/// What a QR code says, from what was found in a picture.
pub open spec fn qr_payload(found: Option<Result<Seq<char>, Seq<char>>>) -> Result<
    Seq<char>,
    ErrorV,
> {
    match found {
        None => Err(ErrorV::Other("no QR code found in login image"@)),
        Some(Err(e)) => Err(ErrorV::Other("QR decode failed: "@ + e)),
        Some(Ok(s)) => if s.len() == 0 {
            Err(ErrorV::Other("decoded QR payload is empty"@))
        } else {
            Ok(s)
        },
    }
}

/// What a QR code says, from what was found in a picture.
pub fn payload_found(found: Option<Result<String, String>>) -> (r: Result<String, GatewayError>)
    ensures
        qr_payload(
            match found {
                Some(Ok(s)) => Some(Ok::<Seq<char>, Seq<char>>(s@)),
                Some(Err(e)) => Some(Err::<Seq<char>, Seq<char>>(e@)),
                None => None,
            },
        ) == (match r {
            Ok(s) => Ok::<Seq<char>, ErrorV>(s@),
            Err(e) => Err::<Seq<char>, ErrorV>(e@),
        }),
{
    match found {
        None => Err(GatewayError::other("no QR code found in login image")),
        Some(Err(e)) => Err(GatewayError::Other(concat2("QR decode failed: ", e.as_str()))),
        Some(Ok(s)) => {
            if s.as_str().is_empty() {
                Err(GatewayError::other("decoded QR payload is empty"))
            } else {
                Ok(s)
            }
        },
    }
}

/// What the QR code in an image says.
pub open spec fn png_payload(bytes: Seq<u8>) -> Result<Seq<char>, ErrorV> {
    match decoded_picture(bytes) {
        Err((format, e)) => Err(
            ErrorV::Other(
                (if format {
                    "PNG read failed: "@
                } else {
                    "PNG decode failed: "@
                }) + e,
            ),
        ),
        Ok((w, h, points)) => if w == 0 || h == 0 {
            qr_payload(None)
        } else {
            qr_payload(qr_in_picture(w, h, points))
        },
    }
}

/// What the QR code in an image says.
pub fn decode_payload_from_png_bytes(png: &[u8]) -> (r: Result<String, GatewayError>)
    ensures
        png_payload(png@) == (match r {
            Ok(s) => Ok::<Seq<char>, ErrorV>(s@),
            Err(e) => Err::<Seq<char>, ErrorV>(e@),
        }),
{
    let picture: (u32, u32, Vec<u8>) = match decode_picture(png) {
        Ok(p) => p,
        Err((format, e)) => {
            if format {
                return Err(GatewayError::Other(concat2("PNG read failed: ", e.as_str())));
            }
            return Err(GatewayError::Other(concat2("PNG decode failed: ", e.as_str())));
        },
    };
    if picture.0 == 0 || picture.1 == 0 {
        return payload_found(None);
    }
    let found: Option<Result<String, String>> = find_qr(picture.0, picture.1, picture.2);
    payload_found(found)
}

/// What the QR code in an image in base64 says.
pub open spec fn base64_payload(input: Seq<char>) -> Result<Seq<char>, ErrorV> {
    match image_bytes(input, base64_bytes(image_base64(input))) {
        Ok(b) => png_payload(b),
        Err(e) => Err(e),
    }
}

/// What the QR code in an image in base64 says.
pub fn decode_payload_from_png_b64(b64: &str) -> (r: Result<String, GatewayError>)
    ensures
        base64_payload(b64@) == (match r {
            Ok(s) => Ok::<Seq<char>, ErrorV>(s@),
            Err(e) => Err::<Seq<char>, ErrorV>(e@),
        }),
{
    match decode_png_bytes(b64) {
        Ok(b) => decode_payload_from_png_bytes(b.as_slice()),
        Err(e) => Err(e),
    }
}

// ---------------------------------------------------------------------------------------------
// Showing a QR code
// ---------------------------------------------------------------------------------------------

/// How much of a QR code may be damaged.
#[derive(Debug, Clone, Copy, PartialEq, Eq, Structural)]
pub enum QrLevel {
    Low,
    Medium,
    Quartile,
    High,
}

/// A QR code as text, with or without a margin, and so many columns and lines for each module; or
/// why there is none.
pub uninterp spec fn qr_art(
    payload: Seq<char>,
    level: QrLevel,
    margin: bool,
    columns: u32,
    lines: u32,
) -> Result<Seq<char>, Seq<char>>;

/// `qrcode::QrCode::with_error_correction_level` and `render`: the code as text.
#[verifier::external_body]
fn draw_qr(payload: &str, level: QrLevel, margin: bool, columns: u32, lines: u32) -> (r: Result<
    String,
    String,
>)
    requires
        0 < columns <= 16,
        0 < lines <= 16,
    ensures
        match r {
            Ok(a) => qr_art(payload@, level, margin, columns, lines) == Ok::<Seq<char>, Seq<char>>(
                a@,
            ),
            Err(e) => qr_art(payload@, level, margin, columns, lines) == Err::<
                Seq<char>,
                Seq<char>,
            >(e@),
        },
{
    let level = match level {
        QrLevel::Low => qrcode::EcLevel::L,
        QrLevel::Medium => qrcode::EcLevel::M,
        QrLevel::Quartile => qrcode::EcLevel::Q,
        QrLevel::High => qrcode::EcLevel::H,
    };
    match qrcode::QrCode::with_error_correction_level(payload.as_bytes(), level) {
        Ok(c) => Ok(c.render::<char>().quiet_zone(margin).module_dimensions(columns, lines).build()),
        Err(e) => Err(e.to_string()),
    }
}

/// A QR code as it is printed: two columns and one line for each module, with a margin.
pub open spec fn printed_qr(payload: Seq<char>) -> Result<Seq<char>, Seq<char>> {
    qr_art(payload, QrLevel::Medium, true, 2, 1)
}

/// A QR code as a PNG image. Otherwise the text of the error, and whether it was the code that could
/// not be made.
pub uninterp spec fn qr_png(payload: Seq<char>, level: QrLevel) -> Result<
    Seq<u8>,
    (bool, Seq<char>),
>;

/// `qrcode::QrCode::with_error_correction_level`, `render` and `image::DynamicImage::write_to`: the
/// code as a PNG image.
#[verifier::external_body]
pub(crate) fn paint_qr(payload: &str, level: QrLevel) -> (r: Result<Vec<u8>, (bool, String)>)
    ensures
        match r {
            Ok(b) => qr_png(payload@, level) == Ok::<Seq<u8>, (bool, Seq<char>)>(b@),
            Err(e) => qr_png(payload@, level) == Err::<Seq<u8>, (bool, Seq<char>)>((e.0, e.1@)),
        },
{
    let level = match level {
        QrLevel::Low => qrcode::EcLevel::L,
        QrLevel::Medium => qrcode::EcLevel::M,
        QrLevel::Quartile => qrcode::EcLevel::Q,
        QrLevel::High => qrcode::EcLevel::H,
    };
    let code = qrcode::QrCode::with_error_correction_level(payload.as_bytes(), level);
    let code = code.map_err(|e| (true, e.to_string()))?;
    let picture = image::DynamicImage::ImageLuma8(code.render::<image::Luma<u8>>().build());
    let mut out = std::io::Cursor::new(Vec::new());
    let written = picture.write_to(&mut out, image::ImageFormat::Png);
    written.map_err(|e| (false, e.to_string()))?;
    Ok(out.into_inner())
}

/// A QR code as the image that is shown.
pub open spec fn painted_qr(payload: Seq<char>) -> Result<Seq<u8>, (bool, Seq<char>)> {
    qr_png(payload, QrLevel::Medium)
}

/// A QR code to be printed.
#[derive(Debug)]
pub struct ShownQr {
    /// What the code says.
    pub payload: String,
    /// The code as text.
    pub art: String,
}

/// What a QR code says, and the code, where `art` is what the code is as text.
pub open spec fn shown(payload: Seq<char>, art: Result<Seq<char>, Seq<char>>) -> Result<
    (Seq<char>, Seq<char>),
    ErrorV,
> {
    match art {
        Ok(a) => Ok((payload, a)),
        Err(e) => Err(ErrorV::Other("terminal QR encode failed: "@ + e)),
    }
}

/// What a text comes to as a QR code to be printed.
pub open spec fn result_view(r: Result<ShownQr, GatewayError>) -> Result<
    (Seq<char>, Seq<char>),
    ErrorV,
> {
    match r {
        Ok(s) => Ok((s.payload@, s.art@)),
        Err(e) => Err(e@),
    }
}

/// The QR code for a text, to be printed.
pub fn print_payload_to_stdout(payload: &str) -> (r: Result<ShownQr, GatewayError>)
    ensures
        result_view(r) == shown(payload@, printed_qr(payload@)),
{
    match draw_qr(payload, QrLevel::Medium, true, 2, 1) {
        Ok(a) => Ok(ShownQr { payload: payload.to_owned(), art: a }),
        Err(e) => Err(GatewayError::Other(concat2("terminal QR encode failed: ", e.as_str()))),
    }
}

/// What the QR code of a login says, where `decoded` is what the code in its image says, if it can be
/// read: the content of the image where that is a URL, else what the code in it says, else the URL
/// that the login leads to.
pub open spec fn login_payload(
    token: Seq<char>,
    img: Seq<char>,
    bot_type: Seq<char>,
    decoded: Option<Seq<char>>,
) -> Result<Seq<char>, ErrorV> {
    let t = trimmed(img);
    if is_web_url(t) {
        Ok(t)
    } else if t.len() > 0 && decoded is Some {
        Ok(decoded->0)
    } else if scan_url(token, img, bot_type).len() == 0 {
        Err(ErrorV::Other("no WeChat scan URL available"@))
    } else {
        Ok(scan_url(token, img, bot_type))
    }
}

/// What the QR code of a login says, where `decoded` is what the code in its image says, if it can
/// be read.
pub fn choose_payload(
    qrcode_token: &str,
    img_content: &str,
    bot_type: &str,
    decoded: Option<String>,
) -> (r: Result<String, GatewayError>)
    ensures
        login_payload(qrcode_token@, img_content@, bot_type@, decoded.deep_view()) == (match r {
            Ok(s) => Ok::<Seq<char>, ErrorV>(s@),
            Err(e) => Err::<Seq<char>, ErrorV>(e@),
        }),
{
    let t: &str = trim(img_content);
    if looks_like_web_url(t) {
        return Ok(t.to_owned());
    }
    if !t.is_empty() {
        if let Some(p) = decoded {
            return Ok(p);
        }
    }
    let url: String = resolve_scan_url(qrcode_token, img_content, bot_type);
    if url.as_str().is_empty() {
        return Err(GatewayError::other("no WeChat scan URL available"));
    }
    Ok(url)
}

/// The QR code of a login, to be printed, with what it says.
pub fn print_login_qr(qrcode_token: &str, img_content: &str, bot_type: &str) -> (r: Result<
    ShownQr,
    GatewayError,
>)
    ensures
        ({
            let payload = login_payload(
                qrcode_token@,
                img_content@,
                bot_type@,
                (match base64_payload(trimmed(img_content@)) {
                    Ok(p) => Some(p),
                    Err(_) => None,
                }),
            );
            result_view(r) == match payload {
                Ok(p) => shown(p, printed_qr(p)),
                Err(e) => Err(e),
            }
        }),
{
    let t: &str = trim(img_content);
    let decoded: Option<String> = if t.is_empty() || looks_like_web_url(t) {
        None
    } else {
        match decode_payload_from_png_b64(t) {
            Ok(p) => Some(p),
            Err(_) => None,
        }
    };
    match choose_payload(qrcode_token, img_content, bot_type, decoded) {
        Ok(p) => print_payload_to_stdout(p.as_str()),
        Err(e) => Err(e),
    }
}

/// The QR code in an image in base64, to be printed, with what it says.
pub fn print_from_png_b64(b64: &str) -> (r: Result<ShownQr, GatewayError>)
    ensures
        result_view(r) == match base64_payload(b64@) {
            Ok(p) => shown(p, printed_qr(p)),
            Err(e) => Err(e),
        },
{
    match decode_payload_from_png_b64(b64) {
        Ok(p) => print_payload_to_stdout(p.as_str()),
        Err(e) => Err(e),
    }
}

// ---------------------------------------------------------------------------------------------
// Images of a QR code
// ---------------------------------------------------------------------------------------------

/// The image of the QR code for a URL, where `png` is what the code is as an image.
pub open spec fn url_png(png: Result<Seq<u8>, (bool, Seq<char>)>) -> Result<Seq<u8>, ErrorV> {
    match png {
        Ok(b) => Ok(b),
        Err((code, e)) => Err(
            ErrorV::Other(
                (if code {
                    "QR PNG encode failed: "@
                } else {
                    "QR PNG write failed: "@
                }) + e,
            ),
        ),
    }
}

/// The image of the QR code for a URL.
pub fn png_for_scan_url(scan_url: &str) -> (r: Result<Vec<u8>, GatewayError>)
    ensures
        url_png(painted_qr(scan_url@)) == (match r {
            Ok(b) => Ok::<Seq<u8>, ErrorV>(b@),
            Err(e) => Err::<Seq<u8>, ErrorV>(e@),
        }),
{
    match paint_qr(scan_url, QrLevel::Medium) {
        Ok(b) => Ok(b),
        Err((code, e)) => {
            if code {
                Err(GatewayError::Other(concat2("QR PNG encode failed: ", e.as_str())))
            } else {
                Err(GatewayError::Other(concat2("QR PNG write failed: ", e.as_str())))
            }
        },
    }
}

/// The image of the QR code of a login: the one that came with it, where it can be read as bytes,
/// else one made for the URL. `None` where there is neither.
pub fn login_qr_png(img_content: &str, scan_url: &str) -> (r: Result<Option<Vec<u8>>, GatewayError>)
    ensures
        ({
            let own = image_bytes(img_content@, base64_bytes(image_base64(img_content@)));
            if trimmed(img_content@).len() > 0 && own is Ok {
                r matches Ok(Some(b)) && b@ == own->Ok_0
            } else if scan_url@.len() == 0 {
                r matches Ok(None)
            } else {
                match url_png(painted_qr(scan_url@)) {
                    Ok(x) => r matches Ok(Some(b)) && b@ == x,
                    Err(x) => r matches Err(e) && e@ == x,
                }
            }
        }),
{
    if !trim(img_content).is_empty() {
        if let Ok(b) = decode_png_bytes(img_content) {
            return Ok(Some(b));
        }
    }
    if scan_url.is_empty() {
        return Ok(None);
    }
    match png_for_scan_url(scan_url) {
        Ok(b) => Ok(Some(b)),
        Err(e) => Err(e),
    }
}

} // verus!
