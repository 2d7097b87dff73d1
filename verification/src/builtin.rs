//! The modules that the runtime itself provides.

use vstd::prelude::*;
use crate::text::{chars_of, find_char, first_index, str_is, tail_after};

verus! {

/// Whether `name` is one of the modules built into the runtime.
pub open spec fn is_builtin_name(name: Seq<char>) -> bool {
    ||| name == "_http_agent"@
    ||| name == "_http_common"@
    ||| name == "_http_outgoing"@
    ||| name == "_http_server"@
    ||| name == "_stream_duplex"@
    ||| name == "_stream_passthrough"@
    ||| name == "_stream_readable"@
    ||| name == "_stream_transform"@
    ||| name == "_stream_writable"@
    ||| name == "_tls_common"@
    ||| name == "_tls_wrap"@
    ||| name == "assert"@
    ||| name == "assert/strict"@
    ||| name == "async_hooks"@
    ||| name == "buffer"@
    ||| name == "child_process"@
    ||| name == "cluster"@
    ||| name == "console"@
    ||| name == "constants"@
    ||| name == "crypto"@
    ||| name == "dgram"@
    ||| name == "diagnostics_channel"@
    ||| name == "dns"@
    ||| name == "dns/promises"@
    ||| name == "domain"@
    ||| name == "events"@
    ||| name == "fs"@
    ||| name == "fs/promises"@
    ||| name == "http"@
    ||| name == "http2"@
    ||| name == "https"@
    ||| name == "module"@
    ||| name == "net"@
    ||| name == "os"@
    ||| name == "path"@
    ||| name == "path/posix"@
    ||| name == "path/win32"@
    ||| name == "perf_hooks"@
    ||| name == "process"@
    ||| name == "punycode"@
    ||| name == "querystring"@
    ||| name == "readline"@
    ||| name == "readline/promises"@
    ||| name == "repl"@
    ||| name == "stream"@
    ||| name == "stream/consumers"@
    ||| name == "stream/promises"@
    ||| name == "stream/web"@
    ||| name == "string_decoder"@
    ||| name == "sys"@
    ||| name == "test"@
    ||| name == "timers"@
    ||| name == "timers/promises"@
    ||| name == "tls"@
    ||| name == "tty"@
    ||| name == "url"@
    ||| name == "util"@
    ||| name == "util/types"@
    ||| name == "v8"@
    ||| name == "vm"@
    ||| name == "worker_threads"@
    ||| name == "zlib"@
}

/// Whether `name` is one of the modules built into the runtime.
pub fn is_builtin_chars(name: &[char]) -> (b: bool)
    ensures
        b == is_builtin_name(name@),
{
    str_is("_http_agent", name) || str_is("_http_common", name) || str_is("_http_outgoing", name)
        || str_is("_http_server", name) || str_is("_stream_duplex", name) || str_is(
        "_stream_passthrough",
        name,
    ) || str_is("_stream_readable", name) || str_is("_stream_transform", name) || str_is(
        "_stream_writable",
        name,
    ) || str_is("_tls_common", name) || str_is("_tls_wrap", name) || str_is("assert", name)
        || str_is("assert/strict", name) || str_is("async_hooks", name) || str_is("buffer", name)
        || str_is("child_process", name) || str_is("cluster", name) || str_is("console", name)
        || str_is("constants", name) || str_is("crypto", name) || str_is("dgram", name) || str_is(
        "diagnostics_channel",
        name,
    ) || str_is("dns", name) || str_is("dns/promises", name) || str_is("domain", name) || str_is(
        "events",
        name,
    ) || str_is("fs", name) || str_is("fs/promises", name) || str_is("http", name) || str_is(
        "http2",
        name,
    ) || str_is("https", name) || str_is("module", name) || str_is("net", name) || str_is(
        "os",
        name,
    ) || str_is("path", name) || str_is("path/posix", name) || str_is("path/win32", name)
        || str_is("perf_hooks", name) || str_is("process", name) || str_is("punycode", name)
        || str_is("querystring", name) || str_is("readline", name) || str_is(
        "readline/promises",
        name,
    ) || str_is("repl", name) || str_is("stream", name) || str_is("stream/consumers", name)
        || str_is("stream/promises", name) || str_is("stream/web", name) || str_is(
        "string_decoder",
        name,
    ) || str_is("sys", name) || str_is("test", name) || str_is("timers", name) || str_is(
        "timers/promises",
        name,
    ) || str_is("tls", name) || str_is("tty", name) || str_is("url", name) || str_is("util", name)
        || str_is("util/types", name) || str_is("v8", name) || str_is("vm", name) || str_is(
        "worker_threads",
        name,
    ) || str_is("zlib", name)
}

/// Whether `name` is one of the modules built into the runtime.
pub fn is_builtin_node_module(name: &str) -> (b: bool)
    ensures
        b == is_builtin_name(name@),
{
    let chars = chars_of(name);
    is_builtin_chars(chars.as_slice())
}

/// The built-in module that a URL of scheme `node` names: what follows the
/// first `:` of the URL, where that is a built-in module's name.
pub open spec fn builtin_of_url(url: Seq<char>, scheme: Seq<char>) -> Option<Seq<char>> {
    if scheme != "node"@ {
        None
    } else {
        match first_index(url, ':') {
            Some(i) => if is_builtin_name(url.skip(i + 1)) {
                Some(url.skip(i + 1))
            } else {
                None
            },
            None => None,
        }
    }
}

/// The built-in module that the URL `url`, whose scheme is `scheme`, names.
pub fn builtin_module_of_url(url: &[char], scheme: &[char]) -> (r: Option<Vec<char>>)
    ensures
        match r {
            Some(v) => builtin_of_url(url@, scheme@) == Some(v@),
            None => builtin_of_url(url@, scheme@) is None,
        },
{
    if !str_is("node", scheme) {
        return None;
    }
    let colon = find_char(url, ':');
    match colon {
        Some(i) => {
            let name = tail_after(url, i);
            if is_builtin_chars(name.as_slice()) {
                Some(name)
            } else {
                None
            }
        },
        None => None,
    }
}

} // verus!
