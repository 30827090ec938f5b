//! The modules that Node.js itself provides.

use vstd::prelude::*;
use vstd::string::*;
use crate::text::str_eq;

verus! {

/// The names of the modules that Node.js provides, in ascending order.
pub open spec fn core_module_names() -> Seq<Seq<char>> {
    seq![
        "assert"@,
        "assert/strict"@,
        "async_hooks"@,
        "buffer"@,
        "child_process"@,
        "cluster"@,
        "console"@,
        "constants"@,
        "crypto"@,
        "dgram"@,
        "diagnostics_channel"@,
        "dns"@,
        "dns/promises"@,
        "domain"@,
        "events"@,
        "fs"@,
        "fs/promises"@,
        "http"@,
        "http2"@,
        "https"@,
        "inspector"@,
        "module"@,
        "net"@,
        "os"@,
        "path"@,
        "path/posix"@,
        "path/win32"@,
        "perf_hooks"@,
        "process"@,
        "punycode"@,
        "querystring"@,
        "readline"@,
        "repl"@,
        "stream"@,
        "stream/consumers"@,
        "stream/promises"@,
        "stream/web"@,
        "string_decoder"@,
        "sys"@,
        "timers"@,
        "timers/promises"@,
        "tls"@,
        "trace_events"@,
        "tty"@,
        "url"@,
        "util"@,
        "util/types"@,
        "v8"@,
        "vm"@,
        "wasi"@,
        "worker_threads"@,
        "zlib"@,
    ]
}

/// Whether `name` is the name of a module that Node.js provides.
pub open spec fn is_core_module(name: Seq<char>) -> bool {
    exists|i: int| 0 <= i < core_module_names().len() && #[trigger] core_module_names()[i] == name
}

/// No name of a core module begins with a dot or a slash: a specifier that
/// names a path names no core module.
pub proof fn lemma_core_module_is_no_path(name: Seq<char>)
    requires
        is_core_module(name),
    ensures
        name.len() > 0,
        name[0] != '.',
        name[0] != '/',
{
    reveal_strlit("assert");
    reveal_strlit("assert/strict");
    reveal_strlit("async_hooks");
    reveal_strlit("buffer");
    reveal_strlit("child_process");
    reveal_strlit("cluster");
    reveal_strlit("console");
    reveal_strlit("constants");
    reveal_strlit("crypto");
    reveal_strlit("dgram");
    reveal_strlit("diagnostics_channel");
    reveal_strlit("dns");
    reveal_strlit("dns/promises");
    reveal_strlit("domain");
    reveal_strlit("events");
    reveal_strlit("fs");
    reveal_strlit("fs/promises");
    reveal_strlit("http");
    reveal_strlit("http2");
    reveal_strlit("https");
    reveal_strlit("inspector");
    reveal_strlit("module");
    reveal_strlit("net");
    reveal_strlit("os");
    reveal_strlit("path");
    reveal_strlit("path/posix");
    reveal_strlit("path/win32");
    reveal_strlit("perf_hooks");
    reveal_strlit("process");
    reveal_strlit("punycode");
    reveal_strlit("querystring");
    reveal_strlit("readline");
    reveal_strlit("repl");
    reveal_strlit("stream");
    reveal_strlit("stream/consumers");
    reveal_strlit("stream/promises");
    reveal_strlit("stream/web");
    reveal_strlit("string_decoder");
    reveal_strlit("sys");
    reveal_strlit("timers");
    reveal_strlit("timers/promises");
    reveal_strlit("tls");
    reveal_strlit("trace_events");
    reveal_strlit("tty");
    reveal_strlit("url");
    reveal_strlit("util");
    reveal_strlit("util/types");
    reveal_strlit("v8");
    reveal_strlit("vm");
    reveal_strlit("wasi");
    reveal_strlit("worker_threads");
    reveal_strlit("zlib");
    let i = choose|i: int|
        0 <= i < core_module_names().len() && #[trigger] core_module_names()[i] == name;
    assert(core_module_names()[i].len() > 0 && core_module_names()[i][0] != '.'
        && core_module_names()[i][0] != '/');
}

/// Whether `name` is the name of a module that Node.js provides.
pub fn is_node_core_module(name: &str) -> (r: bool)
    ensures
        r == is_core_module(name@),
{
    let names: [&'static str; 52] = [
        "assert",
        "assert/strict",
        "async_hooks",
        "buffer",
        "child_process",
        "cluster",
        "console",
        "constants",
        "crypto",
        "dgram",
        "diagnostics_channel",
        "dns",
        "dns/promises",
        "domain",
        "events",
        "fs",
        "fs/promises",
        "http",
        "http2",
        "https",
        "inspector",
        "module",
        "net",
        "os",
        "path",
        "path/posix",
        "path/win32",
        "perf_hooks",
        "process",
        "punycode",
        "querystring",
        "readline",
        "repl",
        "stream",
        "stream/consumers",
        "stream/promises",
        "stream/web",
        "string_decoder",
        "sys",
        "timers",
        "timers/promises",
        "tls",
        "trace_events",
        "tty",
        "url",
        "util",
        "util/types",
        "v8",
        "vm",
        "wasi",
        "worker_threads",
        "zlib",
    ];
    let mut i: usize = 0;
    while i < 52
        invariant
            i <= 52,
            names@.len() == 52,
            names@.len() == core_module_names().len(),
            forall|k: int|
                0 <= k < names@.len() ==> (#[trigger] names@[k])@ == core_module_names()[k],
            forall|k: int| 0 <= k < i ==> #[trigger] core_module_names()[k] != name@,
        decreases 52 - i,
    {
        if str_eq(names[i], name) {
            return true;
        }
        i += 1;
    }
    false
}

} // verus!
