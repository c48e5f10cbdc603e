//! Requests that reach the program from outside: `brtx:` links and the
//! argument it is started with.

use vstd::prelude::*;
use crate::text::{
    chars_of, contains_text, ends_with, first_index_of, has_prefix, has_suffix, leading_count,
    lemma_first_index_of, lemma_leading_count, starts_with, text_of, to_unicode_lower,
    unicode_lowercase,
};

verus! {

/// The two parts of a URL that a link is read from.
#[derive(Debug, PartialEq, Eq)]
pub struct UrlParts {
    /// The scheme, lower-cased, without the `:`.
    pub scheme: String,
    /// The path, percent-encoded.
    pub path: String,
}

/// What the `url` crate makes of `input`: the scheme and the path of the
/// URL it parses to, or the text of its parse error.
pub uninterp spec fn url_parts_of(input: Seq<char>) -> Result<(Seq<char>, Seq<char>), Seq<char>>;

/// Parses `input` with `url::Url::parse` and takes from the result what
/// `Url::scheme` and `Url::path` give; a parse error is handed on as the
/// text that it prints. The contract only names the outcome: it is the
/// same for the same input.
#[verifier::external_body]
fn parse_url(input: &str) -> (r: Result<UrlParts, String>)
    ensures
        match r {
            Ok(parts) => url_parts_of(input@) == Ok::<(Seq<char>, Seq<char>), Seq<char>>(
                (parts.scheme@, parts.path@),
            ),
            Err(detail) => url_parts_of(input@) == Err::<(Seq<char>, Seq<char>), Seq<char>>(
                detail@,
            ),
        },
{
    match url::Url::parse(input) {
        Ok(u) => Ok(UrlParts { scheme: u.scheme().to_string(), path: u.path().to_string() }),
        Err(e) => Err(e.to_string()),
    }
}

/// What a link asks for: a catalog preset or a creator build, and which.
#[derive(Debug, PartialEq, Eq)]
pub struct ProtocolData {
    /// `preset` or `creator`.
    pub protocol_type: String,
    pub id: String,
}

/// What a [`ProtocolData`] holds, as text.
pub struct ProtocolDataView {
    pub protocol_type: Seq<char>,
    pub id: Seq<char>,
}

impl View for ProtocolData {
    type V = ProtocolDataView;

    open spec fn view(&self) -> ProtocolDataView {
        ProtocolDataView { protocol_type: self.protocol_type@, id: self.id@ }
    }
}

/// Why a link was turned down.
#[derive(Debug, PartialEq, Eq)]
pub enum DeepLinkError {
    /// The text is no URL; `detail` says why.
    InvalidUrl { detail: String },
    /// The scheme is not `brtx`.
    InvalidScheme,
    /// The path does not have exactly two segments.
    InvalidFormat,
    /// The first segment is neither `preset` nor `creator`.
    InvalidType,
}

/// What a [`DeepLinkError`] holds, as text.
pub enum DeepLinkErrorView {
    InvalidUrl { detail: Seq<char> },
    InvalidScheme,
    InvalidFormat,
    InvalidType,
}

impl View for DeepLinkError {
    type V = DeepLinkErrorView;

    open spec fn view(&self) -> DeepLinkErrorView {
        match self {
            DeepLinkError::InvalidUrl { detail } => DeepLinkErrorView::InvalidUrl {
                detail: detail@,
            },
            DeepLinkError::InvalidScheme => DeepLinkErrorView::InvalidScheme,
            DeepLinkError::InvalidFormat => DeepLinkErrorView::InvalidFormat,
            DeepLinkError::InvalidType => DeepLinkErrorView::InvalidType,
        }
    }
}

impl DeepLinkError {
    /// The error in words.
    pub fn message(&self) -> (out: String)
        ensures
            out@ == match self@ {
                DeepLinkErrorView::InvalidUrl { detail } => "Invalid URL: "@ + detail,
                DeepLinkErrorView::InvalidScheme => "Invalid protocol scheme"@,
                DeepLinkErrorView::InvalidFormat => "Invalid URL format. Expected brtx://preset/[uuid] or brtx://creator/[hash]"@,
                DeepLinkErrorView::InvalidType => "Invalid protocol type. Expected 'preset' or 'creator'"@,
            },
    {
        match self {
            DeepLinkError::InvalidUrl { detail } => {
                let mut out = "Invalid URL: ".to_owned();
                out.append(detail.as_str());
                out
            },
            DeepLinkError::InvalidScheme => "Invalid protocol scheme".to_owned(),
            DeepLinkError::InvalidFormat => "Invalid URL format. Expected brtx://preset/[uuid] or brtx://creator/[hash]".to_owned(),
            DeepLinkError::InvalidType => "Invalid protocol type. Expected 'preset' or 'creator'".to_owned(),
        }
    }
}

/// What a URL with this scheme and path asks for. The scheme must be
/// `brtx`. The path, without the slashes it begins with, must be two
/// segments with one slash between them: the kind, which must be `preset`
/// or `creator`, and the identity.
pub open spec fn link_of(scheme: Seq<char>, path: Seq<char>) -> Result<
    ProtocolDataView,
    DeepLinkErrorView,
> {
    let rest = path.skip(leading_count(path, '/') as int);
    let cut = first_index_of(rest, '/') as int;
    if scheme != "brtx"@ {
        Err(DeepLinkErrorView::InvalidScheme)
    } else if cut == rest.len() || rest.skip(cut + 1).contains('/') {
        Err(DeepLinkErrorView::InvalidFormat)
    } else if rest.take(cut) != "preset"@ && rest.take(cut) != "creator"@ {
        Err(DeepLinkErrorView::InvalidType)
    } else {
        Ok(ProtocolDataView { protocol_type: rest.take(cut), id: rest.skip(cut + 1) })
    }
}

/// What the outcome of parsing a URL asks for: a parse error is handed on
/// as `InvalidUrl`, and a URL is judged by [`link_of`].
pub open spec fn request_of(parsed: Result<(Seq<char>, Seq<char>), Seq<char>>) -> Result<
    ProtocolDataView,
    DeepLinkErrorView,
> {
    match parsed {
        Ok((scheme, path)) => link_of(scheme, path),
        Err(detail) => Err(DeepLinkErrorView::InvalidUrl { detail }),
    }
}

/// Whether the result `r` is what `want` says.
pub open spec fn is_request(
    r: Result<ProtocolData, DeepLinkError>,
    want: Result<ProtocolDataView, DeepLinkErrorView>,
) -> bool {
    match r {
        Ok(data) => want == Ok::<ProtocolDataView, DeepLinkErrorView>(data@),
        Err(e) => want == Err::<ProtocolDataView, DeepLinkErrorView>(e@),
    }
}

/// Judges a URL that was taken apart into scheme and path: computes
/// [`link_of`].
#[verifier::loop_isolation(false)]
pub fn read_link(parts: &UrlParts) -> (r: Result<ProtocolData, DeepLinkError>)
    ensures
        is_request(r, link_of(parts.scheme@, parts.path@)),
{
    let brtx = "brtx".to_owned();
    if parts.scheme != brtx {
        return Err(DeepLinkError::InvalidScheme);
    }
    let p = chars_of(parts.path.as_str());
    let mut start: usize = 0;
    while start < p.len() && p[start] == '/'
        invariant
            start <= p.len(),
            forall|j: int| 0 <= j < start ==> p@[j] == '/',
        decreases p.len() - start,
    {
        start = start + 1;
    }
    proof {
        lemma_leading_count(p@, '/', start as int);
    }
    let ghost rest = p@.skip(start as int);
    let mut cut: usize = start;
    while cut < p.len() && p[cut] != '/'
        invariant
            start <= cut <= p.len(),
            forall|j: int| start <= j < cut ==> p@[j] != '/',
        decreases p.len() - cut,
    {
        cut = cut + 1;
    }
    proof {
        assert forall|j: int| 0 <= j < cut - start implies rest[j] != '/' by {
            assert(rest[j] == p@[start + j]);
        }
        lemma_first_index_of(rest, '/', cut - start);
    }
    if cut == p.len() {
        return Err(DeepLinkError::InvalidFormat);
    }
    let mut kind: Vec<char> = Vec::new();
    let mut i: usize = start;
    while i < cut
        invariant
            start <= i <= cut < p.len(),
            kind@ == p@.subrange(start as int, i as int),
        decreases cut - i,
    {
        kind.push(p[i]);
        i = i + 1;
    }
    assert(kind@ =~= rest.take(cut - start));
    let mut id: Vec<char> = Vec::new();
    let mut k: usize = cut + 1;
    while k < p.len()
        invariant
            cut + 1 <= k <= p.len(),
            id@ == p@.subrange(cut + 1, k as int),
            forall|j: int| 0 <= j < id@.len() ==> id@[j] != '/',
        decreases p.len() - k,
    {
        if p[k] == '/' {
            proof {
                let tail = rest.skip(cut - start + 1);
                assert(tail[k - cut - 1] == '/');
            }
            return Err(DeepLinkError::InvalidFormat);
        }
        id.push(p[k]);
        k = k + 1;
    }
    assert(id@ =~= rest.skip(cut - start + 1));
    let kind_text = text_of(&kind);
    let preset = "preset".to_owned();
    let creator = "creator".to_owned();
    if kind_text != preset && kind_text != creator {
        return Err(DeepLinkError::InvalidType);
    }
    Ok(ProtocolData { protocol_type: kind_text, id: text_of(&id) })
}

/// Judges the outcome of parsing a URL: computes [`request_of`].
pub fn read_parsed_link(parsed: Result<UrlParts, String>) -> (r: Result<
    ProtocolData,
    DeepLinkError,
>)
    ensures
        is_request(
            r,
            request_of(
                match parsed {
                    Ok(parts) => Ok((parts.scheme@, parts.path@)),
                    Err(detail) => Err(detail@),
                },
            ),
        ),
{
    match parsed {
        Ok(parts) => read_link(&parts),
        Err(detail) => Err(DeepLinkError::InvalidUrl { detail }),
    }
}

/// Reads a `brtx:` link: parses the text as a URL and judges the result by
/// [`request_of`].
pub fn handle_deep_link(url: &str) -> (r: Result<ProtocolData, DeepLinkError>)
    ensures
        is_request(r, request_of(url_parts_of(url@))),
{
    read_parsed_link(parse_url(url))
}

/// What the argument that the program was started with asks for.
#[derive(Clone, Copy, Debug, PartialEq, Eq, Structural)]
pub enum LaunchRequest {
    /// Open the package file that the argument names.
    OpenPackage,
    /// Follow the link that the argument is.
    FollowLink,
    /// Nothing.
    Nothing,
}

/// What an argument asks for, given its lower-case form and whether it
/// names an existing file: a package to open where the lower-case form
/// ends in `.rtpack` and the file exists; else a link to follow where the
/// argument begins with `brtx://`; else nothing.
pub open spec fn launch_request_of(arg: Seq<char>, lowered: Seq<char>, exists: bool)
    -> LaunchRequest {
    if has_suffix(lowered, ".rtpack"@) && exists {
        LaunchRequest::OpenPackage
    } else if has_prefix(arg, "brtx://"@) {
        LaunchRequest::FollowLink
    } else {
        LaunchRequest::Nothing
    }
}

/// Computes [`launch_request_of`].
pub fn judge_launch_argument(arg: &str, lowered: &str, exists: bool) -> (r: LaunchRequest)
    ensures
        r == launch_request_of(arg@, lowered@, exists),
{
    if ends_with(lowered, ".rtpack") && exists {
        LaunchRequest::OpenPackage
    } else if starts_with(arg, "brtx://") {
        LaunchRequest::FollowLink
    } else {
        LaunchRequest::Nothing
    }
}

/// What the argument that the program was started with asks for, where
/// `exists` says whether it names an existing file.
pub fn launch_request(arg: &str, exists: bool) -> (r: LaunchRequest)
    ensures
        r == launch_request_of(arg@, unicode_lowercase(arg@), exists),
{
    let lowered = to_unicode_lower(arg);
    judge_launch_argument(arg, lowered.as_str(), exists)
}

/// Whether a file with this lower-case name may be configured as the
/// privileged tool: the name holds `iobitunlocker`, or it is a shortcut.
pub open spec fn accepts_tool_name(lowered: Seq<char>) -> bool {
    contains_text(lowered, "iobitunlocker"@) || has_suffix(lowered, ".lnk"@)
}

/// Decides [`accepts_tool_name`].
pub fn judge_tool_name(lowered: &str) -> (r: bool)
    ensures
        r == accepts_tool_name(lowered@),
{
    crate::text::contains(lowered, "iobitunlocker") || ends_with(lowered, ".lnk")
}

/// Whether the file at `path` may be configured as the privileged tool,
/// judged by its file name in lower case; a path without a file name is
/// judged by the empty name.
pub fn accepts_tool_choice(path: &str) -> (r: bool)
    ensures
        r == accepts_tool_name(
            unicode_lowercase(
                match crate::path::file_name_of(path@) {
                    Some(name) => name,
                    None => Seq::empty(),
                },
            ),
        ),
{
    let name = match crate::path::file_name(path) {
        Some(name) => name,
        None => String::new(),
    };
    let lowered = to_unicode_lower(name.as_str());
    judge_tool_name(lowered.as_str())
}

} // verus!
