//! The media type of a resolved module. The type of the file at a URL is
//! told by the `deno_media_type` crate; what it answers is taken on trust.

use vstd::prelude::*;
use crate::model::{NodeResolution, NodeResolutionView};
use crate::text::{chars_of, has_prefix, joined, starts_with, string_of};
use crate::urls::{url_normal_form, url_parse};

verus! {

/// What kind of source or data a module is.
#[derive(Debug, Clone, Copy, PartialEq, Eq, Structural)]
pub enum MediaType {
    JavaScript,
    Jsx,
    Mjs,
    Cjs,
    TypeScript,
    Mts,
    Cts,
    Dts,
    Dmts,
    Dcts,
    Tsx,
    Json,
    Wasm,
    TsBuildInfo,
    SourceMap,
    Unknown,
}

/// The number, from 0 for `JavaScript` to 15 for `Unknown` in the order
/// of the variants of `MediaType`, of the media type that
/// `deno_media_type::MediaType::from_specifier` gives for the URL parsed
/// from `text`; none where the text is no URL.
pub uninterp spec fn url_media_type_code(text: Seq<char>) -> Option<u8>;

/// Tells the media type of a URL by `deno_media_type::MediaType::from_specifier`
/// and hands back the number of the variant. Claims only that the answer
/// is a function of the text.
#[verifier::external_body]
fn media_type_code(text: &str) -> (r: Option<u8>)
    ensures
        r == url_media_type_code(text@),
{
    let Ok(u) = url::Url::parse(text) else { return None };
    Some(match deno_media_type::MediaType::from_specifier(&u) {
        deno_media_type::MediaType::JavaScript => 0, deno_media_type::MediaType::Jsx => 1,
        deno_media_type::MediaType::Mjs => 2, deno_media_type::MediaType::Cjs => 3,
        deno_media_type::MediaType::TypeScript => 4, deno_media_type::MediaType::Mts => 5,
        deno_media_type::MediaType::Cts => 6, deno_media_type::MediaType::Dts => 7,
        deno_media_type::MediaType::Dmts => 8, deno_media_type::MediaType::Dcts => 9,
        deno_media_type::MediaType::Tsx => 10, deno_media_type::MediaType::Json => 11,
        deno_media_type::MediaType::Wasm => 12, deno_media_type::MediaType::TsBuildInfo => 13,
        deno_media_type::MediaType::SourceMap => 14, deno_media_type::MediaType::Unknown => 15,
    })
}

/// The media type with the given number; `Unknown` for any number past 14.
pub open spec fn media_type_at(code: u8) -> MediaType {
    if code == 0 {
        MediaType::JavaScript
    } else if code == 1 {
        MediaType::Jsx
    } else if code == 2 {
        MediaType::Mjs
    } else if code == 3 {
        MediaType::Cjs
    } else if code == 4 {
        MediaType::TypeScript
    } else if code == 5 {
        MediaType::Mts
    } else if code == 6 {
        MediaType::Cts
    } else if code == 7 {
        MediaType::Dts
    } else if code == 8 {
        MediaType::Dmts
    } else if code == 9 {
        MediaType::Dcts
    } else if code == 10 {
        MediaType::Tsx
    } else if code == 11 {
        MediaType::Json
    } else if code == 12 {
        MediaType::Wasm
    } else if code == 13 {
        MediaType::TsBuildInfo
    } else if code == 14 {
        MediaType::SourceMap
    } else {
        MediaType::Unknown
    }
}

/// The media type with the given number.
pub fn media_type_from_code(code: u8) -> (m: MediaType)
    ensures
        m == media_type_at(code),
{
    if code == 0 {
        MediaType::JavaScript
    } else if code == 1 {
        MediaType::Jsx
    } else if code == 2 {
        MediaType::Mjs
    } else if code == 3 {
        MediaType::Cjs
    } else if code == 4 {
        MediaType::TypeScript
    } else if code == 5 {
        MediaType::Mts
    } else if code == 6 {
        MediaType::Cts
    } else if code == 7 {
        MediaType::Dts
    } else if code == 8 {
        MediaType::Dmts
    } else if code == 9 {
        MediaType::Dcts
    } else if code == 10 {
        MediaType::Tsx
    } else if code == 11 {
        MediaType::Json
    } else if code == 12 {
        MediaType::Wasm
    } else if code == 13 {
        MediaType::TsBuildInfo
    } else if code == 14 {
        MediaType::SourceMap
    } else {
        MediaType::Unknown
    }
}

/// The number under which a media type is stored.
pub open spec fn media_type_number(m: MediaType) -> i64 {
    match m {
        MediaType::JavaScript => 1,
        MediaType::Jsx => 2,
        MediaType::Mjs => 3,
        MediaType::Cjs => 4,
        MediaType::TypeScript => 5,
        MediaType::Mts => 6,
        MediaType::Cts => 7,
        MediaType::Dts => 8,
        MediaType::Dmts => 9,
        MediaType::Dcts => 10,
        MediaType::Tsx => 11,
        MediaType::Json => 12,
        MediaType::Wasm => 13,
        MediaType::TsBuildInfo => 14,
        MediaType::SourceMap => 15,
        MediaType::Unknown => 16,
    }
}

/// The number under which a media type is stored.
pub fn serialize_media_type(media_type: MediaType) -> (n: i64)
    ensures
        n == media_type_number(media_type),
        1 <= n <= 16,
{
    match media_type {
        MediaType::JavaScript => 1,
        MediaType::Jsx => 2,
        MediaType::Mjs => 3,
        MediaType::Cjs => 4,
        MediaType::TypeScript => 5,
        MediaType::Mts => 6,
        MediaType::Cts => 7,
        MediaType::Dts => 8,
        MediaType::Dmts => 9,
        MediaType::Dcts => 10,
        MediaType::Tsx => 11,
        MediaType::Json => 12,
        MediaType::Wasm => 13,
        MediaType::TsBuildInfo => 14,
        MediaType::SourceMap => 15,
        MediaType::Unknown => 16,
    }
}

/// The media type of a CommonJS module whose file has the given type.
pub open spec fn as_common_js(m: MediaType) -> MediaType {
    match m {
        MediaType::JavaScript | MediaType::Jsx => MediaType::Cjs,
        MediaType::TypeScript | MediaType::Tsx => MediaType::Cts,
        MediaType::Dts => MediaType::Dcts,
        _ => m,
    }
}

/// The media type of an ES module whose file has the given type.
pub open spec fn as_es_module(m: MediaType) -> MediaType {
    match m {
        MediaType::JavaScript | MediaType::Jsx => MediaType::Mjs,
        MediaType::TypeScript | MediaType::Tsx => MediaType::Mts,
        MediaType::Dts => MediaType::Dmts,
        _ => m,
    }
}

/// The URL of a built-in module: its name with the scheme `node:` put
/// before it unless it is there already.
pub open spec fn builtin_url_text(name: Seq<char>) -> Seq<char> {
    if has_prefix(name, "node:"@) {
        name
    } else {
        "node:"@ + name
    }
}

/// The URL that a resolution stands for; none where a built-in module's name makes no URL.
pub open spec fn url_of_resolution(r: NodeResolutionView) -> Option<Seq<char>> {
    match r {
        NodeResolutionView::Esm(u) => Some(u),
        NodeResolutionView::CommonJs(u) => Some(u),
        NodeResolutionView::BuiltIn(name) => url_normal_form(builtin_url_text(name)),
    }
}

/// The URL and the media type that stand for a resolution, given the
/// number `code` of the media type of its file. No resolution at all
/// stands for a declaration file that is missing.
pub open spec fn specifier_and_media_type_of(r: Option<NodeResolutionView>, code: Option<u8>)
    -> Option<(Seq<char>, MediaType)> {
    match r {
        Some(NodeResolutionView::CommonJs(u)) => match code {
            Some(c) => Some((u, as_common_js(media_type_at(c)))),
            None => None,
        },
        Some(NodeResolutionView::Esm(u)) => match code {
            Some(c) => Some((u, as_es_module(media_type_at(c)))),
            None => None,
        },
        Some(NodeResolutionView::BuiltIn(name)) => match url_normal_form(builtin_url_text(name)) {
            Some(u) => Some((u, MediaType::Dts)),
            None => None,
        },
        None => match url_normal_form("internal:///missing_dependency.d.ts"@) {
            Some(u) => Some((u, MediaType::Dts)),
            None => None,
        },
    }
}

/// The number of the media type of the file of a resolution, where the
/// resolution names a file.
pub open spec fn media_code_of(r: Option<NodeResolutionView>) -> Option<u8> {
    match r {
        Some(NodeResolutionView::CommonJs(u)) => url_media_type_code(u),
        Some(NodeResolutionView::Esm(u)) => url_media_type_code(u),
        _ => None,
    }
}

/// The content of an optional resolution.
pub open spec fn opt_resolution_view(r: Option<NodeResolution>) -> Option<NodeResolutionView> {
    match r {
        Some(x) => Some(x@),
        None => None,
    }
}

/// The content of an optional pair of URL and media type.
pub open spec fn opt_pair_view(r: Option<(String, MediaType)>) -> Option<(Seq<char>, MediaType)> {
    match r {
        Some(p) => Some((p.0@, p.1)),
        None => None,
    }
}

/// The URL and the media type that stand for a resolution whose file has
/// the media type of number `code`.
pub fn specifier_and_media_type(resolution: Option<NodeResolution>, code: Option<u8>) -> (r: Option<
    (String, MediaType),
>)
    ensures
        opt_pair_view(r) == specifier_and_media_type_of(opt_resolution_view(resolution), code),
{
    match resolution {
        Some(NodeResolution::CommonJs(u)) => match code {
            Some(c) => {
                let m = media_type_from_code(c);
                let adjusted = match m {
                    MediaType::JavaScript | MediaType::Jsx => MediaType::Cjs,
                    MediaType::TypeScript | MediaType::Tsx => MediaType::Cts,
                    MediaType::Dts => MediaType::Dcts,
                    _ => m,
                };
                Some((u, adjusted))
            },
            None => None,
        },
        Some(NodeResolution::Esm(u)) => match code {
            Some(c) => {
                let m = media_type_from_code(c);
                let adjusted = match m {
                    MediaType::JavaScript | MediaType::Jsx => MediaType::Mjs,
                    MediaType::TypeScript | MediaType::Tsx => MediaType::Mts,
                    MediaType::Dts => MediaType::Dmts,
                    _ => m,
                };
                Some((u, adjusted))
            },
            None => None,
        },
        Some(NodeResolution::BuiltIn(name)) => {
            match NodeResolution::BuiltIn(name).into_url() {
                Some(u) => Some((u, MediaType::Dts)),
                None => None,
            }
        },
        None => match url_parse("internal:///missing_dependency.d.ts") {
            Some(u) => Some((u, MediaType::Dts)),
            None => None,
        },
    }
}

impl NodeResolution {
    /// The URL that the resolution stands for.
    pub fn into_url(self) -> (r: Option<String>)
        ensures
            crate::errors::opt_text(r) == url_of_resolution(self@),
    {
        match self {
            NodeResolution::Esm(u) => Some(u),
            NodeResolution::CommonJs(u) => Some(u),
            NodeResolution::BuiltIn(name) => {
                let n = chars_of(name.as_str());
                let node = chars_of("node:");
                if starts_with(n.as_slice(), node.as_slice()) {
                    url_parse(name.as_str())
                } else {
                    let full = joined(node.as_slice(), n.as_slice());
                    let text = string_of(full.as_slice());
                    url_parse(text.as_str())
                }
            },
        }
    }

    /// The URL and the media type that stand for a resolution, the media
    /// type being that of the module's file adjusted to the kind of module.
    pub fn into_specifier_and_media_type(resolution: Option<NodeResolution>) -> (r: Option<
        (String, MediaType),
    >)
        ensures
            opt_pair_view(r) == specifier_and_media_type_of(
                opt_resolution_view(resolution),
                media_code_of(opt_resolution_view(resolution)),
            ),
    {
        let code: Option<u8> = match &resolution {
            Some(NodeResolution::CommonJs(u)) => media_type_code(u.as_str()),
            Some(NodeResolution::Esm(u)) => media_type_code(u.as_str()),
            _ => None,
        };
        specifier_and_media_type(resolution, code)
    }
}

} // verus!
