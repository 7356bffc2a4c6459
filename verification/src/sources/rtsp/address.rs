//! Camera addresses.
use crate::text::same_text;
use url::Url;
use vstd::prelude::*;
use vstd::string::*;

verus! {

/// What `Url::parse` makes of a text: the serialized URL and its scheme, or
/// why the text is no URL.
pub uninterp spec fn parsed_url(s: Seq<char>) -> Result<(Seq<char>, Seq<char>), Seq<char>>;

/// A URL that was read from a text.
#[derive(Debug, Clone, PartialEq, Eq)]
pub struct ParsedUrl {
    /// The URL in its normal form.
    pub serialized: String,
    pub scheme: String,
}

/// The contents of what was read.
pub open spec fn parsed_view(parsed: Result<ParsedUrl, String>) -> Result<
    (Seq<char>, Seq<char>),
    Seq<char>,
> {
    match parsed {
        Ok(url) => Ok((url.serialized@, url.scheme@)),
        Err(reason) => Err(reason@),
    }
}

/// `Url::parse` reads an absolute URL. The serialized URL, its scheme and the
/// reason of a failure depend on the text alone.
#[verifier::external_body]
pub(crate) fn parse_url(s: &str) -> (r: Result<ParsedUrl, String>)
    ensures
        parsed_view(r) == parsed_url(s@),
{
    match Url::parse(s) {
        Ok(url) => Ok(ParsedUrl { serialized: url.to_string(), scheme: url.scheme().to_string() }),
        Err(err) => Err(err.to_string()),
    }
}

/// The longest texts, in characters, that credentials are put together from:
/// however their characters are escaped, what results has 32-bit offsets.
pub const MAX_URL_CHARS: usize = 0x1000_0000;

/// What `Url::set_username` makes of a URL; none where the text is no URL, or
/// one that cannot have a user name.
pub uninterp spec fn url_with_username(url: Seq<char>, username: Seq<char>) -> Option<Seq<char>>;

/// What `Url::set_password` makes of a URL; none where the text is no URL, or
/// one that cannot have a password.
pub uninterp spec fn url_with_password(url: Seq<char>, password: Seq<char>) -> Option<Seq<char>>;

/// The contents of an optional text.
pub open spec fn option_text(s: Option<String>) -> Option<Seq<char>> {
    match s {
        Some(s) => Some(s@),
        None => None,
    }
}

/// `Url::set_username` puts a user name into a URL and fails on one that
/// cannot have it. It does not return where the URL would grow beyond 32-bit
/// offsets. The URL that results depends on the two texts alone.
#[verifier::external_body]
fn set_username(url: &str, username: &str) -> (r: Option<String>)
    requires
        url@.len() + username@.len() <= MAX_URL_CHARS,
    ensures
        option_text(r) == url_with_username(url@, username@),
{
    let mut url = Url::parse(url).ok()?;
    url.set_username(username).ok()?;
    Some(url.to_string())
}

/// `Url::set_password` puts a password into a URL and fails on one that cannot
/// have it. It does not return where the URL would grow beyond 32-bit offsets.
/// The URL that results depends on the two texts alone.
#[verifier::external_body]
fn set_password(url: &str, password: &str) -> (r: Option<String>)
    requires
        url@.len() + password@.len() <= MAX_URL_CHARS,
    ensures
        option_text(r) == url_with_password(url@, password@),
{
    let mut url = Url::parse(url).ok()?;
    url.set_password(Some(password)).ok()?;
    Some(url.to_string())
}

/// Why an address is not one of a camera.
#[derive(Debug, Clone, PartialEq, Eq)]
pub enum RtspUrlError {
    /// The text is no URL.
    Invalid { url: String, reason: String },
    /// The URL is none of RTSP.
    Scheme { scheme: String },
    /// There is no address at all.
    NoInput,
    /// Address and credentials are too long.
    TooLong,
}

impl RtspUrlError {
    /// The error in words.
    pub open spec fn said(self) -> Seq<char> {
        match self {
            RtspUrlError::Invalid { url, reason } => "Invalid RTSP URL '"@ + url@ + "': "@
                + reason@,
            RtspUrlError::Scheme { scheme } => "Invalid URL scheme '"@ + scheme@
                + "'. Must be rtsp:// or rtsps://"@,
            RtspUrlError::NoInput => "No RTSP URL given"@,
            RtspUrlError::TooLong => "RTSP URL is too long"@,
        }
    }

    /// The error in words.
    pub fn message(&self) -> (r: String)
        ensures
            r@ == self.said(),
    {
        let mut out = String::new();
        match self {
            RtspUrlError::Invalid { url, reason } => {
                out.append("Invalid RTSP URL '");
                out.append(url.as_str());
                out.append("': ");
                out.append(reason.as_str());
            },
            RtspUrlError::Scheme { scheme } => {
                out.append("Invalid URL scheme '");
                out.append(scheme.as_str());
                out.append("'. Must be rtsp:// or rtsps://");
            },
            RtspUrlError::NoInput => {
                out.append("No RTSP URL given");
            },
            RtspUrlError::TooLong => {
                out.append("RTSP URL is too long");
            },
        }
        assert(out@ =~= self.said());
        out
    }
}

/// The schemes of RTSP.
pub open spec fn rtsp_scheme(scheme: Seq<char>) -> bool {
    scheme == "rtsp"@ || scheme == "rtsps"@
}

/// What checking a text that reads as `parsed` yields.
pub open spec fn checked_as(
    rtsp_url: Seq<char>,
    parsed: Result<(Seq<char>, Seq<char>), Seq<char>>,
    r: Result<(), RtspUrlError>,
) -> bool {
    match parsed {
        Err(why) => r matches Err(RtspUrlError::Invalid { url, reason }) && url@ == rtsp_url
            && reason@ == why,
        Ok((_, found)) => if rtsp_scheme(found) {
            r is Ok
        } else {
            r matches Err(RtspUrlError::Scheme { scheme }) && scheme@ == found
        },
    }
}

/// Checks a text by what it reads as: it must be a URL of RTSP.
pub fn check_parsed_url(rtsp_url: &str, parsed: &Result<ParsedUrl, String>) -> (r: Result<
    (),
    RtspUrlError,
>)
    ensures
        checked_as(rtsp_url@, parsed_view(*parsed), r),
{
    match parsed {
        Err(reason) => Err(
            RtspUrlError::Invalid { url: rtsp_url.to_owned(), reason: reason.clone() },
        ),
        Ok(url) => if same_text(url.scheme.as_str(), "rtsp") || same_text(
            url.scheme.as_str(),
            "rtsps",
        ) {
            Ok(())
        } else {
            Err(RtspUrlError::Scheme { scheme: url.scheme.clone() })
        },
    }
}

/// A URL in its normal form; a text that is no URL as it is.
pub open spec fn normal_form(
    url: Seq<char>,
    parsed: Result<(Seq<char>, Seq<char>), Seq<char>>,
) -> Seq<char> {
    match parsed {
        Ok((serialized, _)) => serialized,
        Err(_) => url,
    }
}

/// A URL in its normal form, by what its text reads as.
pub fn normalized(url: &str, parsed: &Result<ParsedUrl, String>) -> (r: String)
    ensures
        r@ == normal_form(url@, parsed_view(*parsed)),
{
    match parsed {
        Ok(parsed) => parsed.serialized.clone(),
        Err(_) => url.to_owned(),
    }
}

/// A URL as it was changed, or as it was where it could not be.
pub open spec fn changed_or(changed: Option<Seq<char>>, url: Seq<char>) -> Seq<char> {
    match changed {
        Some(changed) => changed,
        None => url,
    }
}

/// A URL as it was changed, or as it was where it could not be.
pub fn unless_refused(changed: Option<String>, url: String) -> (r: String)
    ensures
        r@ == changed_or(option_text(changed), url@),
{
    match changed {
        Some(changed) => changed,
        None => url,
    }
}

/// A URL in its normal form with a user name, where it can have one.
pub open spec fn with_username(url: Seq<char>, username: Seq<char>) -> Seq<char> {
    changed_or(url_with_username(url, username), normal_form(url, parsed_url(url)))
}

/// A URL in its normal form with a user name and then a password, where it can
/// have them.
pub open spec fn with_credentials(
    url: Seq<char>,
    username: Seq<char>,
    password: Seq<char>,
) -> Seq<char> {
    let named = with_username(url, username);
    changed_or(url_with_password(named, password), named)
}

/// The address that a camera is opened at: with the credentials, where both
/// are there.
pub open spec fn opened_at(
    url: Seq<char>,
    username: Option<String>,
    password: Option<String>,
) -> Seq<char> {
    match (username, password) {
        (Some(user), Some(pass)) => with_credentials(url, user@, pass@),
        _ => normal_form(url, parsed_url(url)),
    }
}

/// The credentials, where both are there, are short enough for the URL.
pub open spec fn within_limits(
    url: Seq<char>,
    username: Option<String>,
    password: Option<String>,
) -> bool {
    match (username, password) {
        (Some(user), Some(pass)) => {
            &&& url.len() + user@.len() <= MAX_URL_CHARS
            &&& with_username(url, user@).len() + pass@.len() <= MAX_URL_CHARS
        },
        _ => true,
    }
}

/// Checks that two texts together are short enough.
fn is_short(a: &str, b: &str) -> (r: bool)
    ensures
        r == (a@.len() + b@.len() <= MAX_URL_CHARS),
{
    let first: usize = a.unicode_len();
    let second: usize = b.unicode_len();
    first <= MAX_URL_CHARS && second <= MAX_URL_CHARS - first
}

/// The address that a camera is opened at; none where the credentials are too
/// long.
pub fn build_rtsp_url(
    url: &str,
    username: &Option<String>,
    password: &Option<String>,
) -> (r: Option<String>)
    ensures
        match r {
            Some(address) => within_limits(url@, *username, *password) && address@ == opened_at(
                url@,
                *username,
                *password,
            ),
            None => !within_limits(url@, *username, *password),
        },
{
    let plain = normalized(url, &parse_url(url));
    match (username, password) {
        (Some(user), Some(pass)) => {
            if !is_short(url, user.as_str()) {
                return None;
            }
            let named = unless_refused(set_username(url, user.as_str()), plain);
            if !is_short(named.as_str(), pass.as_str()) {
                return None;
            }
            let changed = set_password(named.as_str(), pass.as_str());
            Some(unless_refused(changed, named))
        },
        _ => Some(plain),
    }
}

/// What an address is refused for: that the text is no URL, with the reason, or
/// that its scheme is neither `rtsp` nor `rtsps`, with the scheme.
pub proof fn lemma_refusals_of_an_address(
    url: Seq<char>,
    serialized: Seq<char>,
    scheme: Seq<char>,
    why: Seq<char>,
    r: Result<(), RtspUrlError>,
)
    ensures
        checked_as(url, Err(why), r) ==> (r matches Err(error) && error.said()
            == "Invalid RTSP URL '"@ + url + "': "@ + why),
        checked_as(url, Ok((serialized, scheme)), r) && scheme != "rtsp"@ && scheme != "rtsps"@ ==> (
        r matches Err(error) && error.said() == "Invalid URL scheme '"@ + scheme
            + "'. Must be rtsp:// or rtsps://"@),
        checked_as(url, Ok((serialized, scheme)), r) && (scheme == "rtsp"@ || scheme == "rtsps"@)
            ==> r is Ok,
{
}

/// Credentials are used only where both are there: otherwise a camera is opened
/// at the URL as it was read. Then the user name is put in first, and the
/// password into what results.
pub proof fn lemma_credentials_go_together(
    url: Seq<char>,
    serialized: Seq<char>,
    scheme: Seq<char>,
    username: Option<String>,
    password: Option<String>,
)
    requires
        parsed_url(url) == Ok::<(Seq<char>, Seq<char>), Seq<char>>((serialized, scheme)),
    ensures
        username is None || password is None ==> opened_at(url, username, password) == serialized
            && within_limits(url, username, password),
        username matches Some(user) ==> (password matches Some(pass) ==> (url_with_username(
            url,
            user@,
        ) matches Some(named) ==> (url_with_password(named, pass@) matches Some(full) ==> opened_at(
            url,
            username,
            password,
        ) == full))),
{
}

} // verus!
