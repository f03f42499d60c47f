//! The human-readable texts of the analysis: why a package is kept back,
//! and the counts in the texts of risky packages.

use vstd::prelude::*;
use crate::text::{is_prefix, text_eq, text_starts_with};

verus! {

/// The decimal digit for `d`.
pub open spec fn digit(d: nat) -> char {
    seq!['0', '1', '2', '3', '4', '5', '6', '7', '8', '9'][d as int]
}

/// `n` written in decimal, without sign or leading zeros.
pub open spec fn decimal(n: nat) -> Seq<char>
    decreases n,
{
    if n < 10 {
        seq![digit(n)]
    } else {
        decimal(n / 10).push(digit(n % 10))
    }
}

fn digit_text(d: usize) -> (r: &'static str)
    requires
        d < 10,
    ensures
        r@ == seq![digit(d as nat)],
{
    proof {
        reveal_strlit("0");
        reveal_strlit("1");
        reveal_strlit("2");
        reveal_strlit("3");
        reveal_strlit("4");
        reveal_strlit("5");
        reveal_strlit("6");
        reveal_strlit("7");
        reveal_strlit("8");
        reveal_strlit("9");
    }
    let r = if d == 0 {
        "0"
    } else if d == 1 {
        "1"
    } else if d == 2 {
        "2"
    } else if d == 3 {
        "3"
    } else if d == 4 {
        "4"
    } else if d == 5 {
        "5"
    } else if d == 6 {
        "6"
    } else if d == 7 {
        "7"
    } else if d == 8 {
        "8"
    } else {
        "9"
    };
    assert(r@ =~= seq![digit(d as nat)]);
    r
}

/// `n` in decimal.
pub fn decimal_text(n: usize) -> (r: String)
    ensures
        r@ == decimal(n as nat),
    decreases n,
{
    if n < 10 {
        String::from_str(digit_text(n))
    } else {
        let mut s = decimal_text(n / 10);
        s.append(digit_text(n % 10));
        assert(s@ =~= decimal(n as nat));
        s
    }
}

/// `head`, the count in decimal, then " problematic package(s)".
pub open spec fn count_reason(head: Seq<char>, count: nat) -> Seq<char> {
    head + decimal(count) + " problematic package(s)"@
}

/// Builds `head`, the count in decimal, then " problematic package(s)".
pub fn count_reason_text(head: &str, count: usize) -> (r: String)
    ensures
        r@ == count_reason(head@, count as nat),
{
    let mut s = String::from_str(head);
    let d = decimal_text(count);
    s.append(d.as_str());
    s.append(" problematic package(s)");
    s
}

/// Why a package on the deny list should stay where it is, looked up by
/// its name: the first entry of the table whose name or family prefix
/// matches, else a generic text.
pub open spec fn problematic_reason(n: Seq<char>) -> Seq<char> {
    if is_prefix("openssl"@, n) {
        "Core SSL/TLS library - many packages link against it"@
    } else if n == "gnutls"@ {
        "GNU TLS library - system-level security dependency"@
    } else if n == "libressl"@ {
        "LibreSSL - alternative SSL library with wide usage"@
    } else if is_prefix("libssh"@, n) {
        "SSH library - security-critical dependency"@
    } else if is_prefix("python@"@, n) || n == "python"@ {
        "Python runtime - complex virtual environment and pip dependencies"@
    } else if n == "libevent"@ {
        "Event notification library - used by many network tools"@
    } else if n == "libuv"@ {
        "Async I/O library - core dependency for Node.js ecosystem"@
    } else if n == "libev"@ {
        "Event loop library - embedded in many applications"@
    } else if n == "nghttp2"@ {
        "HTTP/2 library - used by curl and many HTTP clients"@
    } else if n == "curl"@ {
        "URL transfer library - fundamental networking tool"@
    } else if n == "wget"@ {
        "Network downloader - may have complex SSL dependencies"@
    } else if n == "gobject-introspection"@ {
        "GObject introspection - required for many GTK/GNOME tools"@
    } else if n == "glib"@ {
        "GLib core library - foundation for GTK ecosystem"@
    } else if is_prefix("gtk"@, n) || n == "cairo"@ || n == "pango"@ {
        "GTK/graphics library - complex native rendering dependencies"@
    } else if n == "gdk-pixbuf"@ {
        "Image loading library - part of GTK stack"@
    } else if is_prefix("node"@, n) {
        "Node.js runtime - native modules require specific linking"@
    } else if is_prefix("postgresql"@, n) || n == "libpq"@ {
        "PostgreSQL client - complex library dependencies"@
    } else if n == "mysql-client"@ {
        "MySQL client - database connectivity library"@
    } else if n == "zlib"@ {
        "Core compression library - nearly universal dependency"@
    } else if n == "xz"@ || n == "lz4"@ || n == "zstd"@ || n == "brotli"@ {
        "Compression library - widely linked by other packages"@
    } else if n == "libpng"@ || n == "libjpeg"@ || n == "libtiff"@ || n == "webp"@ {
        "Image format library - many graphics tools depend on it"@
    } else if n == "icu4c"@ {
        "Unicode library - heavily depended upon for internationalization"@
    } else if n == "pkg-config"@ {
        "Build configuration tool - used during compilation"@
    } else if n == "cmake"@ {
        "Build system - required for building many packages"@
    } else if n == "autoconf"@ || n == "automake"@ || n == "libtool"@ {
        "GNU build tools - required for package compilation"@
    } else if is_prefix("ruby@"@, n) || n == "ruby"@ {
        "Ruby runtime - gem native extensions require specific linking"@
    } else if n == "gettext"@ {
        "Internationalization library - widely used for translations"@
    } else if n == "readline"@ {
        "Command-line editing library - used by many CLI tools"@
    } else if n == "ncurses"@ {
        "Terminal UI library - fundamental for terminal apps"@
    } else if n == "pcre"@ || n == "pcre2"@ {
        "Regular expression library - used by many text processing tools"@
    } else {
        "Known to cause migration issues"@
    }
}

/// The text that says why the named package should stay where it is.
pub fn get_problematic_reason(name: &str) -> (r: String)
    ensures
        r@ == problematic_reason(name@),
{
    if text_starts_with(name, "openssl") {
        String::from_str("Core SSL/TLS library - many packages link against it")
    } else if text_eq(name, "gnutls") {
        String::from_str("GNU TLS library - system-level security dependency")
    } else if text_eq(name, "libressl") {
        String::from_str("LibreSSL - alternative SSL library with wide usage")
    } else if text_starts_with(name, "libssh") {
        String::from_str("SSH library - security-critical dependency")
    } else if text_starts_with(name, "python@") || text_eq(name, "python") {
        String::from_str("Python runtime - complex virtual environment and pip dependencies")
    } else if text_eq(name, "libevent") {
        String::from_str("Event notification library - used by many network tools")
    } else if text_eq(name, "libuv") {
        String::from_str("Async I/O library - core dependency for Node.js ecosystem")
    } else if text_eq(name, "libev") {
        String::from_str("Event loop library - embedded in many applications")
    } else if text_eq(name, "nghttp2") {
        String::from_str("HTTP/2 library - used by curl and many HTTP clients")
    } else if text_eq(name, "curl") {
        String::from_str("URL transfer library - fundamental networking tool")
    } else if text_eq(name, "wget") {
        String::from_str("Network downloader - may have complex SSL dependencies")
    } else if text_eq(name, "gobject-introspection") {
        String::from_str("GObject introspection - required for many GTK/GNOME tools")
    } else if text_eq(name, "glib") {
        String::from_str("GLib core library - foundation for GTK ecosystem")
    } else if text_starts_with(name, "gtk") || text_eq(name, "cairo") || text_eq(name, "pango") {
        String::from_str("GTK/graphics library - complex native rendering dependencies")
    } else if text_eq(name, "gdk-pixbuf") {
        String::from_str("Image loading library - part of GTK stack")
    } else if text_starts_with(name, "node") {
        String::from_str("Node.js runtime - native modules require specific linking")
    } else if text_starts_with(name, "postgresql") || text_eq(name, "libpq") {
        String::from_str("PostgreSQL client - complex library dependencies")
    } else if text_eq(name, "mysql-client") {
        String::from_str("MySQL client - database connectivity library")
    } else if text_eq(name, "zlib") {
        String::from_str("Core compression library - nearly universal dependency")
    } else if text_eq(name, "xz") || text_eq(name, "lz4") || text_eq(name, "zstd") || text_eq(name, "brotli") {
        String::from_str("Compression library - widely linked by other packages")
    } else if text_eq(name, "libpng") || text_eq(name, "libjpeg") || text_eq(name, "libtiff") || text_eq(name, "webp") {
        String::from_str("Image format library - many graphics tools depend on it")
    } else if text_eq(name, "icu4c") {
        String::from_str("Unicode library - heavily depended upon for internationalization")
    } else if text_eq(name, "pkg-config") {
        String::from_str("Build configuration tool - used during compilation")
    } else if text_eq(name, "cmake") {
        String::from_str("Build system - required for building many packages")
    } else if text_eq(name, "autoconf") || text_eq(name, "automake") || text_eq(name, "libtool") {
        String::from_str("GNU build tools - required for package compilation")
    } else if text_starts_with(name, "ruby@") || text_eq(name, "ruby") {
        String::from_str("Ruby runtime - gem native extensions require specific linking")
    } else if text_eq(name, "gettext") {
        String::from_str("Internationalization library - widely used for translations")
    } else if text_eq(name, "readline") {
        String::from_str("Command-line editing library - used by many CLI tools")
    } else if text_eq(name, "ncurses") {
        String::from_str("Terminal UI library - fundamental for terminal apps")
    } else if text_eq(name, "pcre") || text_eq(name, "pcre2") {
        String::from_str("Regular expression library - used by many text processing tools")
    } else {
        String::from_str("Known to cause migration issues")
    }
}

} // verus!
