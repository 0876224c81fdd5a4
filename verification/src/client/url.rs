//! The addresses that a client sends its requests to.

use vstd::prelude::*;
use vstd::string::*;
use vstd::utf8::encode_utf8;

use crate::client::error::{ClientErrorView, Error};
use crate::path::{is_absolute, starts_at_root};
use crate::proto::job::JobAttachRequest;
use crate::text::{byte_len, concat_text, decimal, decimal_text, finishes_with, has_suffix, same_text};

verus! {

/// The URL type that `reqwest` hands on from the `url` crate.
#[verifier::external_type_specification]
#[verifier::external_body]
pub struct ExUrl(reqwest::Url);

/// The URL that a text writes, or the message with which `Url::parse` refuses it.
pub uninterp spec fn url_parsed(text: Seq<char>) -> Result<reqwest::Url, Seq<char>>;

/// The text of a URL, as `Url::as_str` gives it.
pub uninterp spec fn url_text(url: reqwest::Url) -> Seq<char>;

/// The scheme of a URL, as `Url::scheme` gives it.
pub uninterp spec fn url_scheme(url: reqwest::Url) -> Seq<char>;

/// The host of a URL, as `Url::host_str` gives it.
pub uninterp spec fn url_host(url: reqwest::Url) -> Option<Seq<char>>;

/// The path of a URL, as `Url::path` gives it.
pub uninterp spec fn url_path(url: reqwest::Url) -> Seq<char>;

/// A URL with another path, as `Url::set_path` makes it.
pub uninterp spec fn url_with_path(url: reqwest::Url, path: Seq<char>) -> reqwest::Url;

/// The URL that a reference means relative to a URL, or the message with which
/// `Url::join` refuses it.
pub uninterp spec fn url_joined(url: reqwest::Url, reference: Seq<char>) -> Result<
    reqwest::Url,
    Seq<char>,
>;

/// A URL with one more query pair, as `Url::query_pairs_mut` and `append_pair`
/// make it.
pub uninterp spec fn url_with_pair(
    url: reqwest::Url,
    name: Seq<char>,
    value: Seq<char>,
) -> reqwest::Url;

/// `Clone` of `Url`: the same URL.
pub assume_specification[ <reqwest::Url as Clone>::clone ](url: &reqwest::Url) -> (r: reqwest::Url)
    ensures
        r == *url,
;

/// `Url::parse`.
#[verifier::external_body]
fn parse_url(text: &str) -> (r: Result<reqwest::Url, String>)
    ensures
        match r {
            Ok(url) => url_parsed(text@) == Ok::<reqwest::Url, Seq<char>>(url),
            Err(message) => url_parsed(text@) == Err::<reqwest::Url, Seq<char>>(message@),
        },
{
    reqwest::Url::parse(text).map_err(|e| e.to_string())
}

/// `Url::as_str`.
#[verifier::external_body]
fn text_of_url(url: &reqwest::Url) -> (r: &str)
    ensures
        r@ == url_text(*url),
{
    url.as_str()
}

/// `Url::scheme`.
#[verifier::external_body]
fn scheme_of_url(url: &reqwest::Url) -> (r: &str)
    ensures
        r@ == url_scheme(*url),
{
    url.scheme()
}

/// `Url::host_str`.
#[verifier::external_body]
fn host_of_url(url: &reqwest::Url) -> (r: Option<String>)
    ensures
        match r {
            Some(host) => url_host(*url) == Some(host@),
            None => url_host(*url) is None,
        },
{
    url.host_str().map(str::to_owned)
}

/// `Url::path`.
#[verifier::external_body]
fn path_of_url(url: &reqwest::Url) -> (r: &str)
    ensures
        r@ == url_path(*url),
{
    url.path()
}

/// `Url::set_path`. The `url` crate counts the bytes of a URL in 32 bits and
/// panics on a path that ends beyond that, so such paths are left out. How a path
/// is written differs between schemes; only `http` is taken.
#[verifier::external_body]
fn set_url_path(url: &mut reqwest::Url, path: &str)
    requires
        url_scheme(*old(url)) == "http"@,
        path_fits(*old(url), path@),
    ensures
        *final(url) == url_with_path(*old(url), path@),
{
    url.set_path(path)
}

/// `Url::join`.
#[verifier::external_body]
fn join_url(url: &reqwest::Url, reference: &str) -> (r: Result<reqwest::Url, String>)
    ensures
        match r {
            Ok(joined) => url_joined(*url, reference@) == Ok::<reqwest::Url, Seq<char>>(joined),
            Err(message) => url_joined(*url, reference@) == Err::<reqwest::Url, Seq<char>>(
                message@,
            ),
        },
{
    url.join(reference).map_err(|e| e.to_string())
}

/// `Url::query_pairs_mut` with one `append_pair`. It panics on a query that starts
/// or ends beyond 32 bits, so texts that are too long are left out.
#[verifier::external_body]
fn append_url_pair(url: &mut reqwest::Url, name: &str, value: &str)
    requires
        pair_fits(*old(url), name@, value@),
    ensures
        *final(url) == url_with_pair(*old(url), name@, value@),
{
    url.query_pairs_mut().append_pair(name, value);
}

/// The bytes that a byte of a query pair is written with: letters, digits and
/// four marks as they are, a space as a plus, any other byte escaped.
pub open spec fn form_cost(byte: u8) -> nat {
    if 0x30 <= byte <= 0x39 || 0x41 <= byte <= 0x5a || 0x61 <= byte <= 0x7a || byte == 0x2a || byte
        == 0x2d || byte == 0x2e || byte == 0x5f || byte == 0x20 {
        1
    } else {
        3
    }
}

/// The bytes that a byte of a path is written with: tabs and line breaks are left
/// out, the other control bytes, a space, bytes beyond ASCII and eight marks
/// escaped, any other byte as it is.
pub open spec fn path_cost(byte: u8) -> nat {
    if byte == 0x09 || byte == 0x0a || byte == 0x0d {
        0
    } else if byte <= 0x20 || byte >= 0x7f || byte == 0x22 || byte == 0x23 || byte == 0x3c || byte
        == 0x3e || byte == 0x3f || byte == 0x60 || byte == 0x7b || byte == 0x7d {
        3
    } else {
        1
    }
}

/// The length of bytes as they are written in a query pair.
pub open spec fn form_len(bytes: Seq<u8>) -> nat
    decreases bytes.len(),
{
    if bytes.len() == 0 {
        0
    } else {
        form_len(bytes.drop_last()) + form_cost(bytes.last())
    }
}

/// The length of bytes as they are written in a path, before dot segments are
/// taken out.
pub open spec fn path_len(bytes: Seq<u8>) -> nat
    decreases bytes.len(),
{
    if bytes.len() == 0 {
        0
    } else {
        path_len(bytes.drop_last()) + path_cost(bytes.last())
    }
}

/// Whether a URL stays within 32-bit length with this query pair, which takes two
/// marks beside its texts.
pub open spec fn pair_fits(url: reqwest::Url, name: Seq<char>, value: Seq<char>) -> bool {
    encode_utf8(url_text(url)).len() + form_len(encode_utf8(name)) + form_len(encode_utf8(value))
        + 2 <= 0xffff_ffff
}

/// Whether a URL is within 32-bit length, and stays so with this path in place of
/// its own. A path that does not start with a slash gets one.
pub open spec fn path_fits(url: reqwest::Url, path: Seq<char>) -> bool {
    let rest = encode_utf8(url_text(url)).len() - encode_utf8(url_path(url)).len();
    let slash: int = if is_absolute(path) {
        0
    } else {
        1
    };
    &&& encode_utf8(url_text(url)).len() <= 0xffff_ffff
    &&& rest + slash + path_len(encode_utf8(path)) <= 0xffff_ffff
}

/// The length of a text as it is written in a query pair.
pub fn form_length(text: &str) -> (r: u128)
    ensures
        r == form_len(encode_utf8(text@)),
        r <= 3 * usize::MAX,
{
    let bytes = text.as_bytes();
    let count: usize = bytes.len();
    let mut total: u128 = 0;
    let mut i: usize = 0;
    while i < count
        invariant
            i <= count,
            count == bytes@.len(),
            total == form_len(bytes@.take(i as int)),
            total <= 3 * i,
        decreases count - i,
    {
        let byte: u8 = bytes[i];
        assert(bytes@.take(i + 1).drop_last() =~= bytes@.take(i as int));
        let kept = (0x30 <= byte && byte <= 0x39) || (0x41 <= byte && byte <= 0x5a) || (0x61 <= byte
            && byte <= 0x7a) || byte == 0x2a || byte == 0x2d || byte == 0x2e || byte == 0x5f || byte
            == 0x20;
        total = total + if kept {
            1
        } else {
            3
        };
        i = i + 1;
    }
    assert(bytes@.take(i as int) =~= bytes@);
    total
}

/// The length of a text as it is written in a path, before dot segments are taken
/// out.
pub fn path_length(text: &str) -> (r: u128)
    ensures
        r == path_len(encode_utf8(text@)),
        r <= 3 * usize::MAX,
{
    let bytes = text.as_bytes();
    let count: usize = bytes.len();
    let mut total: u128 = 0;
    let mut i: usize = 0;
    while i < count
        invariant
            i <= count,
            count == bytes@.len(),
            total == path_len(bytes@.take(i as int)),
            total <= 3 * i,
        decreases count - i,
    {
        let byte: u8 = bytes[i];
        assert(bytes@.take(i + 1).drop_last() =~= bytes@.take(i as int));
        let dropped = byte == 0x09 || byte == 0x0a || byte == 0x0d;
        let escaped = byte <= 0x20 || byte >= 0x7f || byte == 0x22 || byte == 0x23 || byte == 0x3c
            || byte == 0x3e || byte == 0x3f || byte == 0x60 || byte == 0x7b || byte == 0x7d;
        total = total + if dropped {
            0
        } else if escaped {
            3
        } else {
            1
        };
        i = i + 1;
    }
    assert(bytes@.take(i as int) =~= bytes@);
    total
}

fn has_room_for_pair(url: &reqwest::Url, name: &str, value: &str) -> (r: bool)
    ensures
        r == pair_fits(*url, name@, value@),
{
    let length: u128 = byte_len(text_of_url(url)) as u128;
    length + form_length(name) + form_length(value) + 2 <= 0xffff_ffff
}

fn has_room_for_path(url: &reqwest::Url, path: &str) -> (r: bool)
    ensures
        r == path_fits(*url, path@),
{
    let length: u128 = byte_len(text_of_url(url)) as u128;
    let replaced: u128 = byte_len(path_of_url(url)) as u128;
    let slash: u128 = if starts_at_root(path) {
        0
    } else {
        1
    };
    length <= 0xffff_ffff && length + slash + path_length(path) <= 0xffff_ffff + replaced
}

/// The failure of a URL that would become too long.
pub open spec fn too_long() -> ClientErrorView {
    ClientErrorView::Url("URLs more than 4 GB are not supported"@)
}

fn too_long_error() -> (r: Error)
    ensures
        r@ == too_long(),
{
    Error::Url("URLs more than 4 GB are not supported".to_owned())
}

/// The path of a base URL: one that ends in a slash.
pub open spec fn base_path(path: Seq<char>) -> Seq<char> {
    if finishes_with(path, "/"@) {
        path
    } else {
        path + "/"@
    }
}

/// What is wrong with the parts of a base URL, where something is.
pub open spec fn base_fault(scheme: Seq<char>, has_host: bool) -> Option<ClientErrorView> {
    if scheme != "http"@ {
        Some(ClientErrorView::InvalidBaseUrl("unsupported scheme "@ + scheme))
    } else if !has_host {
        Some(ClientErrorView::InvalidBaseUrl("missing host"@))
    } else {
        None
    }
}

/// Judge the parts of a base URL: the path that it needs to get, where it needs
/// another.
pub fn judge_base(scheme: &str, has_host: bool, path: &str) -> (r: Result<Option<String>, Error>)
    ensures
        match base_fault(scheme@, has_host) {
            Some(fault) => r matches Err(e) && e@ == fault,
            None => match r {
                Ok(Some(other)) => other@ == base_path(path@) && other@ != path@,
                Ok(None) => base_path(path@) == path@,
                Err(_) => false,
            },
        },
{
    if !same_text(scheme, "http") {
        return Err(Error::InvalidBaseUrl(concat_text("unsupported scheme ", scheme)));
    }
    if !has_host {
        return Err(Error::InvalidBaseUrl("missing host".to_owned()));
    }
    if has_suffix(path, "/") {
        Ok(None)
    } else {
        let other = concat_text(path, "/");
        proof {
            reveal_strlit("/");
            assert(other@.len() == path@.len() + 1);
        }
        Ok(Some(other))
    }
}

/// A client of a server, which it knows by its base URL: absolute, over `http`, with a host, and with a path
/// that ends in a slash.
#[derive(Debug)]
pub struct Client {
    url: reqwest::Url,
}

impl Clone for Client {
    fn clone(&self) -> (r: Self)
        ensures
            r.url() == self.url(),
    {
        Client { url: self.url.clone() }
    }
}

impl Client {
    /// The URL.
    pub closed spec fn url(&self) -> reqwest::Url {
        self.url
    }

    /// Make a base URL of a text.
    pub fn new(text: &str) -> (r: Result<Self, Error>)
        ensures
            match url_parsed(text@) {
                Err(message) => r matches Err(e) && e@ == ClientErrorView::Url(message),
                Ok(url) => match base_fault(url_scheme(url), url_host(url) is Some) {
                    Some(fault) => r matches Err(e) && e@ == fault,
                    None => {
                        let path = base_path(url_path(url));
                        if path == url_path(url) {
                            r matches Ok(base) && base.url() == url
                        } else if path_fits(url, path) {
                            r matches Ok(base) && base.url() == url_with_path(url, path)
                        } else {
                            r matches Err(e) && e@ == too_long()
                        }
                    },
                },
            },
    {
        let mut url = match parse_url(text) {
            Ok(url) => url,
            Err(message) => return Err(Error::Url(message)),
        };
        let has_host = host_of_url(&url).is_some();
        let path = match judge_base(scheme_of_url(&url), has_host, path_of_url(&url)) {
            Ok(path) => path,
            Err(e) => return Err(e),
        };
        match path {
            None => {},
            Some(path) => {
                if !has_room_for_path(&url, path.as_str()) {
                    return Err(too_long_error());
                }
                set_url_path(&mut url, path.as_str());
            },
        }
        Ok(Client { url })
    }

    /// The URL of the calls.
    pub fn rpc_url(&self) -> (r: &reqwest::Url)
        ensures
            *r == self.url(),
    {
        &self.url
    }

    /// The URL that attaches to a job's log.
    pub fn attach_url(&self, req: &JobAttachRequest) -> (r: Result<reqwest::Url, Error>)
        ensures
            match attach_target(self.url(), *req) {
                Ok(url) => r == Ok::<reqwest::Url, Error>(url),
                Err(fault) => r matches Err(e) && e@ == fault,
            },
    {
        let url = match join_url(&self.url, "job/attach") {
            Ok(url) => url,
            Err(message) => return Err(Error::Url(message)),
        };
        let url = match with_pair(url, "session_id", req.session_id.as_str()) {
            Ok(url) => url,
            Err(e) => return Err(e),
        };
        let url = match with_pair(url, "cap_token", req.cap_token.as_str()) {
            Ok(url) => url,
            Err(e) => return Err(e),
        };
        let url = match with_pair(url, "job_id", req.job_id.as_str()) {
            Ok(url) => url,
            Err(e) => return Err(e),
        };
        let offset = decimal_text(req.from_offset);
        with_pair(url, "from_offset", offset.as_str())
    }
}

/// A URL with one more query pair, where that is not too long.
pub open spec fn paired(
    url: Result<reqwest::Url, ClientErrorView>,
    name: Seq<char>,
    value: Seq<char>,
) -> Result<reqwest::Url, ClientErrorView> {
    match url {
        Err(e) => Err(e),
        Ok(u) => if pair_fits(u, name, value) {
            Ok(url_with_pair(u, name, value))
        } else {
            Err(too_long())
        },
    }
}

/// The URL that attaches to a job's log: below the base, with the session, the
/// token, the job and the offset as query pairs.
pub open spec fn attach_target(base: reqwest::Url, req: JobAttachRequest) -> Result<
    reqwest::Url,
    ClientErrorView,
> {
    let target = match url_joined(base, "job/attach"@) {
        Ok(url) => Ok(url),
        Err(message) => Err(ClientErrorView::Url(message)),
    };
    paired(
        paired(
            paired(
                paired(target, "session_id"@, req.session_id@),
                "cap_token"@,
                req.cap_token@,
            ),
            "job_id"@,
            req.job_id@,
        ),
        "from_offset"@,
        decimal(req.from_offset as nat),
    )
}

fn with_pair(url: reqwest::Url, name: &str, value: &str) -> (r: Result<reqwest::Url, Error>)
    ensures
        match paired(Ok(url), name@, value@) {
            Ok(u) => r == Ok::<reqwest::Url, Error>(u),
            Err(fault) => r matches Err(e) && e@ == fault,
        },
{
    if !has_room_for_pair(&url, name, value) {
        return Err(too_long_error());
    }
    let mut more = url;
    append_url_pair(&mut more, name, value);
    Ok(more)
}

/// A base URL has a path that ends in a slash; one that does keeps its path, and
/// any other gets the slash and nothing else.
pub proof fn base_paths_end_in_a_slash(path: Seq<char>)
    ensures
        base_path(path).len() > 0,
        base_path(path).last() == '/',
        path.is_prefix_of(base_path(path)),
        base_path(path).len() <= path.len() + 1,
        path.len() > 0 && path.last() == '/' ==> base_path(path) == path,
        base_path(base_path(path)) == base_path(path),
{
    reveal_strlit("/");
    let slash = "/"@;
    if path.len() > 0 && path.last() == '/' {
        assert(path.subrange(path.len() - 1, path.len() as int) =~= slash);
        assert(finishes_with(path, slash));
    }
    if finishes_with(path, slash) {
        assert(path.subrange(path.len() - 1, path.len() as int)[0] == slash[0]);
    } else {
        let longer = path + slash;
        assert(longer.subrange(longer.len() - 1, longer.len() as int) =~= slash);
    }
    assert(base_path(path).take(path.len() as int) =~= path);
}

/// A base URL is accepted where it goes over `http` to a host, and only there.
pub proof fn base_urls_go_over_http_to_a_host(scheme: Seq<char>, has_host: bool)
    ensures
        base_fault(scheme, has_host) is None <==> has_host && scheme == seq!['h', 't', 't', 'p'],
        base_fault(scheme, has_host) matches Some(e) ==> e is InvalidBaseUrl,
{
    reveal_strlit("http");
    assert("http"@ =~= seq!['h', 't', 't', 'p']);
}

/// The URL that attaches to a job's log names the session, the token, the job
/// and the offset, each once and under its own name, behind the path below the
/// base; it is refused where the base cannot be joined or it grows too long.
pub proof fn attach_urls_name_the_job(base: reqwest::Url, req: JobAttachRequest)
    ensures
        attach_target(base, req) matches Ok(url) ==> (url_joined(base, "job/attach"@) matches Ok(
            joined,
        ) && {
            let session = url_with_pair(joined, "session_id"@, req.session_id@);
            let token = url_with_pair(session, "cap_token"@, req.cap_token@);
            let job = url_with_pair(token, "job_id"@, req.job_id@);
            url == url_with_pair(job, "from_offset"@, decimal(req.from_offset as nat))
        }),
        url_joined(base, "job/attach"@) matches Err(message) ==> attach_target(base, req) == Err::<
            reqwest::Url,
            ClientErrorView,
        >(ClientErrorView::Url(message)),
        url_joined(base, "job/attach"@) is Ok && attach_target(base, req) is Err ==> attach_target(
            base,
            req,
        ) == Err::<reqwest::Url, ClientErrorView>(too_long()),
{
}

} // verus!
