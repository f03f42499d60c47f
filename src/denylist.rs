//! The packages known to be risky to move.

use vstd::prelude::*;
use crate::package::texts;

verus! {

/// The names known to cause trouble when moved: libraries that many other
/// packages link against, language runtimes, and deeply integrated build
/// tools.
pub open spec fn known_problematic() -> Seq<Seq<char>> {
    seq![
        "openssl@3"@,
        "openssl@1.1"@,
        "openssl"@,
        "libressl"@,
        "gnutls"@,
        "libssh2"@,
        "libssh"@,
        "python@3.11"@,
        "python@3.12"@,
        "python@3.10"@,
        "python@3.9"@,
        "python@3.13"@,
        "libevent"@,
        "libuv"@,
        "libev"@,
        "nghttp2"@,
        "curl"@,
        "wget"@,
        "gobject-introspection"@,
        "glib"@,
        "gdk-pixbuf"@,
        "gtk+3"@,
        "cairo"@,
        "pango"@,
        "node@20"@,
        "node@18"@,
        "node@16"@,
        "node"@,
        "postgresql@14"@,
        "postgresql@15"@,
        "postgresql@16"@,
        "mysql-client"@,
        "libpq"@,
        "zlib"@,
        "xz"@,
        "lz4"@,
        "zstd"@,
        "brotli"@,
        "libpng"@,
        "libjpeg"@,
        "libtiff"@,
        "webp"@,
        "icu4c"@,
        "pkg-config"@,
        "cmake"@,
        "autoconf"@,
        "automake"@,
        "libtool"@,
        "ruby@3.0"@,
        "ruby@3.1"@,
        "ruby@3.2"@,
        "ruby@3.3"@,
        "gettext"@,
        "readline"@,
        "ncurses"@,
        "pcre"@,
        "pcre2"@,
    ]
}

/// The names known to cause trouble when moved, in the order of
/// `known_problematic`.
pub fn known_problematic_packages() -> (r: Vec<String>)
    ensures
        texts(r@) == known_problematic(),
{
    let mut r: Vec<String> = Vec::new();
    r.push(String::from_str("openssl@3"));
    r.push(String::from_str("openssl@1.1"));
    r.push(String::from_str("openssl"));
    r.push(String::from_str("libressl"));
    r.push(String::from_str("gnutls"));
    r.push(String::from_str("libssh2"));
    r.push(String::from_str("libssh"));
    r.push(String::from_str("python@3.11"));
    r.push(String::from_str("python@3.12"));
    r.push(String::from_str("python@3.10"));
    r.push(String::from_str("python@3.9"));
    r.push(String::from_str("python@3.13"));
    r.push(String::from_str("libevent"));
    r.push(String::from_str("libuv"));
    r.push(String::from_str("libev"));
    r.push(String::from_str("nghttp2"));
    r.push(String::from_str("curl"));
    r.push(String::from_str("wget"));
    r.push(String::from_str("gobject-introspection"));
    r.push(String::from_str("glib"));
    r.push(String::from_str("gdk-pixbuf"));
    r.push(String::from_str("gtk+3"));
    r.push(String::from_str("cairo"));
    r.push(String::from_str("pango"));
    r.push(String::from_str("node@20"));
    r.push(String::from_str("node@18"));
    r.push(String::from_str("node@16"));
    r.push(String::from_str("node"));
    r.push(String::from_str("postgresql@14"));
    r.push(String::from_str("postgresql@15"));
    r.push(String::from_str("postgresql@16"));
    r.push(String::from_str("mysql-client"));
    r.push(String::from_str("libpq"));
    r.push(String::from_str("zlib"));
    r.push(String::from_str("xz"));
    r.push(String::from_str("lz4"));
    r.push(String::from_str("zstd"));
    r.push(String::from_str("brotli"));
    r.push(String::from_str("libpng"));
    r.push(String::from_str("libjpeg"));
    r.push(String::from_str("libtiff"));
    r.push(String::from_str("webp"));
    r.push(String::from_str("icu4c"));
    r.push(String::from_str("pkg-config"));
    r.push(String::from_str("cmake"));
    r.push(String::from_str("autoconf"));
    r.push(String::from_str("automake"));
    r.push(String::from_str("libtool"));
    r.push(String::from_str("ruby@3.0"));
    r.push(String::from_str("ruby@3.1"));
    r.push(String::from_str("ruby@3.2"));
    r.push(String::from_str("ruby@3.3"));
    r.push(String::from_str("gettext"));
    r.push(String::from_str("readline"));
    r.push(String::from_str("ncurses"));
    r.push(String::from_str("pcre"));
    r.push(String::from_str("pcre2"));
    assert(texts(r@) =~= known_problematic());
    r
}

} // verus!
