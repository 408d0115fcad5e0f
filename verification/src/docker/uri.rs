//! The address of a request on a local socket.
//!
//! The socket's path has no place in an HTTP address, so it travels in the
//! place of the host, written in hexadecimal digits. The API version leads
//! the path, and the query follows it.

use crate::docker::errors::Error;
use crate::docker::{ClientType, ClientVersion};
use std::borrow::Cow;
use url::Url;
use vstd::prelude::*;
use vstd::string::StringExecFns;
use vstd::utf8::encode_utf8;

verus! {

/// `url::Url`, a parsed URL.
#[verifier::external_type_specification]
#[verifier::external_body]
pub struct ExUrl(Url);

/// `url::ParseError`, the reason why a text is no URL.
#[verifier::external_type_specification]
#[verifier::external_body]
pub struct ExUrlParseError(url::ParseError);

/// The text that a URL is written as.
pub uninterp spec fn url_text(url: Url) -> Seq<char>;

/// The text of the URL that `Url::parse` reads out of `input`, if it reads
/// one.
pub uninterp spec fn parsed_url(input: Seq<char>) -> Option<Seq<char>>;

/// The text of the URL of text `url` once `Url::set_query` has given it the
/// query `query`.
pub uninterp spec fn url_with_query(url: Seq<char>, query: Seq<char>) -> Seq<char>;

/// The form encoding that `serde_urlencoded` gives a list of pairs, if it
/// gives one.
pub uninterp spec fn form_urlencoded(pairs: Seq<(Seq<char>, Seq<char>)>) -> Option<Seq<char>>;

/// The reason for which the `http` crate refuses a text as a URI, if it does.
pub uninterp spec fn http_uri_refusal(text: Seq<char>) -> Option<Seq<char>>;

/// The longest URL, in bytes, that `url::Url` can hold a position in.
pub const MAX_URL_LENGTH: usize = 0xffff_ffff;

/// `Url::parse` reads a text as an absolute URL. What it reads depends on the
/// text alone.
pub assume_specification[ Url::parse ](input: &str) -> (res: Result<Url, url::ParseError>)
    ensures
        match res {
            Ok(url) => parsed_url(input@) == Some(url_text(url)),
            Err(_) => parsed_url(input@) is None,
        },
;

/// `Url::as_str` is the text of the URL.
pub assume_specification<'a>[ Url::as_str ](url: &'a Url) -> (text: &'a str)
    ensures
        text@ == url_text(*url),
;

/// `Url::set_query` with a query puts it in the place of the URL's query,
/// before the fragment. The new text depends on the old one and the query
/// alone. The call records positions in the text as 32-bit numbers and
/// panics on one that does not fit; encoding makes a query three times as
/// long at most.
pub assume_specification[ Url::set_query ](url: &mut Url, query: Option<&str>)
    requires
        query matches Some(text) ==> encode_utf8(url_text(*old(url))).len() + 3 * encode_utf8(
            text@,
        ).len() < MAX_URL_LENGTH,
    ensures
        query matches Some(text) ==> url_text(*final(url)) == url_with_query(
            url_text(*old(url)),
            text@,
        ),
;

/// The pairs of a list, each text as its characters.
pub open spec fn pair_texts(pairs: Seq<(String, String)>) -> Seq<(Seq<char>, Seq<char>)> {
    pairs.map_values(|pair: (String, String)| (pair.0@, pair.1@))
}

/// `serde_urlencoded::to_string` on a list of pairs of strings. What it
/// gives depends on the pairs alone. A failure is handed on by its message.
#[verifier::external_body]
fn urlencode(pairs: &Vec<(String, String)>) -> (res: Result<String, String>)
    ensures
        match res {
            Ok(text) => form_urlencoded(pair_texts(pairs@)) == Some(text@),
            Err(_) => form_urlencoded(pair_texts(pairs@)) is None,
        },
{
    match serde_urlencoded::to_string(pairs) {
        Ok(text) => Ok(text),
        Err(e) => Err(e.to_string()),
    }
}

/// The `FromStr` of `http::Uri`: whether HTTP takes a text as a URI, and the
/// message of the refusal where it does not. The answer depends on the text
/// alone.
#[verifier::external_body]
pub(crate) fn http_uri_check(text: &str) -> (res: Option<String>)
    ensures
        match res {
            Some(message) => http_uri_refusal(text@) == Some(message@),
            None => http_uri_refusal(text@) is None,
        },
{
    match text.parse::<http::Uri>() {
        Ok(_) => None,
        Err(e) => Some(e.to_string()),
    }
}

/// The hexadecimal digit of a number below sixteen, in lower case.
pub open spec fn hex_digit(n: nat) -> char {
    if n < 10 {
        crate::docker::utils::digit(n)
    } else if n == 10 {
        'a'
    } else if n == 11 {
        'b'
    } else if n == 12 {
        'c'
    } else if n == 13 {
        'd'
    } else if n == 14 {
        'e'
    } else {
        'f'
    }
}

/// Bytes in hexadecimal digits: two lower-case digits for each byte, the high
/// half first.
pub open spec fn hex_lower(bytes: Seq<u8>) -> Seq<char>
    decreases bytes.len(),
{
    if bytes.len() == 0 {
        Seq::empty()
    } else {
        hex_lower(bytes.drop_last()) + seq![
            hex_digit(bytes.last() as nat / 16),
            hex_digit(bytes.last() as nat % 16),
        ]
    }
}

/// `hex::encode` writes each byte as two lower-case hexadecimal digits.
#[verifier::external_body]
fn hex_encode(data: &[u8]) -> (res: String)
    ensures
        res@ == hex_lower(data@),
{
    hex::encode(data)
}

/// The scheme of an address on a local socket.
pub open spec fn unix_scheme() -> Seq<char> {
    "unix"@
}

/// The address of `path` on the socket at `socket` before it is read as a
/// URL: the scheme, the socket's path in hexadecimal digits in the place of
/// the host, the version as the first part of the path, and the path.
pub open spec fn address_text(socket: Seq<char>, path: Seq<char>, version: ClientVersion) -> Seq<
    char,
> {
    unix_scheme() + "://"@ + hex_lower(encode_utf8(socket)) + "/v"@
        + version.text() + path
}

/// Why an address cannot be built.
pub enum UriFailure {
    /// The address is no URL.
    NoUrl,
    /// The query has no form encoding.
    NoQuery,
    /// The URL with its query would be longer than a URL can be.
    TooLong,
}

/// The text of the address of a request: the address read as a URL, with the
/// form encoding of the query set as its query where there is one.
pub open spec fn request_uri(
    socket: Seq<char>,
    path: Seq<char>,
    query: Option<Seq<(Seq<char>, Seq<char>)>>,
    version: ClientVersion,
) -> Result<Seq<char>, UriFailure> {
    match parsed_url(address_text(socket, path, version)) {
        None => Err(UriFailure::NoUrl),
        Some(url) => match query {
            None => Ok(url),
            Some(pairs) => match form_urlencoded(pairs) {
                None => Err(UriFailure::NoQuery),
                Some(encoded) => if encode_utf8(url).len() + 3 * encode_utf8(encoded).len()
                    < MAX_URL_LENGTH {
                    Ok(url_with_query(url, encoded))
                } else {
                    Err(UriFailure::TooLong)
                },
            },
        },
    }
}

/// The text of a request's address.
#[derive(Debug)]
pub struct Uri<'a> {
    encoded: Cow<'a, str>,
}

impl<'a> View for Uri<'a> {
    type V = Seq<char>;

    closed spec fn view(&self) -> Seq<char> {
        self.encoded@
    }
}

impl<'a> Uri<'a> {
    /// The address of `path` on the socket at `socket`, for the given API
    /// version and query. It is the text of `request_uri`; where that has
    /// none, the error tells why.
    pub fn parse(
        socket: &'a str,
        client_type: &ClientType,
        path: &'a str,
        query: Option<Vec<(String, String)>>,
        client_version: &ClientVersion,
    ) -> (res: Result<Uri<'a>, Error>)
        ensures
            match request_uri(
                socket@,
                path@,
                match query {
                    Some(pairs) => Some(pair_texts(pairs@)),
                    None => None,
                },
                *client_version,
            ) {
                Ok(text) => res matches Ok(uri) && uri@ == text,
                Err(UriFailure::NoUrl) => res matches Err(Error::URLParseError { .. }),
                Err(UriFailure::NoQuery) => res matches Err(Error::URLEncodedError { .. }),
                Err(UriFailure::TooLong) => res matches Err(Error::URLParseError { .. }),
            },
    {
        let mut host_str = String::from_str(Uri::socket_scheme(client_type));
        host_str.append("://");
        host_str.append(Uri::socket_host(socket, client_type).as_str());
        host_str.append("/v");
        host_str.append(client_version.to_string().as_str());
        host_str.append(path);
        assert(host_str@ =~= address_text(socket@, path@, *client_version));
        let mut url = match Url::parse(host_str.as_str()) {
            Ok(url) => url,
            Err(e) => {
                return Err(Error::URLParseError { message: e.to_string() });
            },
        };
        if let Some(pairs) = query {
            let qs = match urlencode(&pairs) {
                Ok(qs) => qs,
                Err(message) => {
                    return Err(Error::URLEncodedError { message });
                },
            };
            let url_length = url.as_str().as_bytes().len();
            let query_length = qs.as_str().as_bytes().len();
            if url_length >= MAX_URL_LENGTH || query_length > (MAX_URL_LENGTH - url_length - 1)
                / 3 {
                return Err(
                    Error::URLParseError {
                        message: String::from_str("URLs more than 4 GB are not supported"),
                    },
                );
            }
            url.set_query(Some(qs.as_str()));
        }
        Ok(Uri { encoded: Cow::Owned(url.as_str().to_owned()) })
    }

    /// The text of the address.
    pub fn as_str(&self) -> (res: &str)
        ensures
            res@ == self@,
    {
        match &self.encoded {
            Cow::Borrowed(text) => text,
            Cow::Owned(text) => text.as_str(),
        }
    }

    /// The socket's path as it stands in the place of the host: the bytes of
    /// the path in hexadecimal digits.
    pub fn socket_host(socket: &str, client_type: &ClientType) -> (res: String)
        ensures
            res@ == hex_lower(encode_utf8(socket@)),
    {
        match client_type {
            ClientType::Unix => hex_encode(socket.as_bytes()),
        }
    }

    /// The scheme that addresses a transport of the given kind.
    pub fn socket_scheme(client_type: &ClientType) -> (res: &'a str)
        ensures
            res@ == unix_scheme(),
    {
        match client_type {
            ClientType::Unix => "unix",
        }
    }
}

} // verus!
