//! URLs.

use vstd::prelude::*;

use crate::strs::begins;

verus! {

/// A URL and its parts.
#[derive(Debug)]
pub struct UrlParts {
    /// The URL in its usual form.
    pub text: String,
    pub scheme: String,
    pub host: Option<String>,
    /// The port, where it is given and not the usual one.
    pub port: Option<u16>,
    pub username: String,
    pub password: Option<String>,
}

/// A URL and its parts, as texts.
#[verifier::ext_equal]
pub struct UrlV {
    pub text: Seq<char>,
    pub scheme: Seq<char>,
    pub host: Option<Seq<char>>,
    pub port: Option<u16>,
    pub username: Seq<char>,
    pub password: Option<Seq<char>>,
}

impl View for UrlParts {
    type V = UrlV;

    open spec fn view(&self) -> UrlV {
        UrlV {
            text: self.text@,
            scheme: self.scheme@,
            host: self.host.deep_view(),
            port: self.port,
            username: self.username@,
            password: self.password.deep_view(),
        }
    }
}

/// The only host that media of WeChat come from.
pub const MEDIA_HOST: &'static str = "novac2c.cdn.weixin.qq.com";

/// Whether a URL with these parts leads to the host that media come from, and nowhere else.
pub open spec fn leads_to_media(u: UrlV) -> bool {
    &&& u.scheme == "https"@
    &&& u.host == Some(MEDIA_HOST@)
    &&& u.port is None
    &&& u.username.len() == 0
    &&& u.password is None
}

/// What `url::Url::parse` makes of a text: the URL and its parts, or what is wrong with the text.
pub uninterp spec fn parsed_url(s: Seq<char>) -> Result<UrlV, Seq<char>>;

/// `url::Url::parse`, and what `scheme`, `host_str`, `port`, `username` and `password` say of the
/// URL; or the text of the error. A text that begins as a plain URL of the host of media is one,
/// unless it is so long that the URL would not fit into 4 GB.
#[verifier::external_body]
pub(crate) fn parse_url(s: &str) -> (r: Result<UrlParts, String>)
    ensures
        match r {
            Ok(u) => parsed_url(s@) == Ok::<UrlV, Seq<char>>(u@),
            Err(e) => parsed_url(s@) == Err::<UrlV, Seq<char>>(e@),
        },
        begins(s@, "https://novac2c.cdn.weixin.qq.com/"@) && s@.len() < 0x1000_0000 ==> r is Ok
            && leads_to_media(r->Ok_0@),
{
    let u = url::Url::parse(s).map_err(|e| e.to_string())?;
    Ok(UrlParts {
        text: u.to_string(),
        scheme: u.scheme().to_owned(),
        host: u.host_str().map(|h| h.to_owned()),
        port: u.port(),
        username: u.username().to_owned(),
        password: u.password().map(|p| p.to_owned()),
    })
}

} // verus!
