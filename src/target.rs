//! Where documents come from and where they go, told apart by the scheme and path of
//! the address the user gave.
use vstd::prelude::*;

verus! {

/// Where documents are sent.
#[derive(Clone, Debug, PartialEq, Eq)]
pub enum OutputKind {
    /// A store reached over HTTP at the address itself.
    Elasticsearch,
    /// A store known by the name `alias` in the hosts file.
    KnownHost { alias: String },
    /// A file at `path`.
    File { path: String },
    /// Standard output.
    Stdout,
}

/// Where documents are read from.
#[derive(Clone, Debug, PartialEq, Eq)]
pub enum InputKind {
    /// An HTTP address.
    Url,
    /// A file at `path`.
    File { path: String },
    /// Standard input.
    Stdin,
}

/// Why an input address is refused.
#[derive(Clone, Debug, PartialEq, Eq)]
pub enum InputError {
    /// The address has a scheme other than `http`, `https` or `file`.
    UnsupportedScheme { scheme: String },
}

/// The text of an optional string.
pub open spec fn text_of(s: Option<String>) -> Option<Seq<char>> {
    match s {
        Some(t) => Some(t@),
        None => None,
    }
}

/// Whether `s` is a scheme that reaches a store over HTTP.
pub open spec fn is_http(s: Seq<char>) -> bool {
    s == "http"@ || s == "https"@
}

/// Whether `o` is where an address with `scheme` and `path` sends documents: over HTTP
/// for `http` and `https`, to a file for `file`, to a known host for any other scheme;
/// with no scheme, to standard output for `-` and to a file otherwise.
pub open spec fn output_matches(o: OutputKind, scheme: Option<Seq<char>>, path: Seq<char>) -> bool {
    match scheme {
        Some(s) => if is_http(s) {
            o is Elasticsearch
        } else if s == "file"@ {
            o matches OutputKind::File { path: p } && p@ == path
        } else {
            o matches OutputKind::KnownHost { alias } && alias@ == s
        },
        None => if path == "-"@ {
            o is Stdout
        } else {
            o matches OutputKind::File { path: p } && p@ == path
        },
    }
}

/// Whether `r` is where an address with `scheme` and `path` reads documents from: an
/// HTTP address for `http` and `https`, a file for `file`, an error naming any other
/// scheme; with no scheme, standard input for `-` and a file otherwise.
pub open spec fn input_matches(
    r: Result<InputKind, InputError>,
    scheme: Option<Seq<char>>,
    path: Seq<char>,
) -> bool {
    match scheme {
        Some(s) => if is_http(s) {
            r matches Ok(InputKind::Url)
        } else if s == "file"@ {
            r matches Ok(InputKind::File { path: p }) && p@ == path
        } else {
            r matches Err(InputError::UnsupportedScheme { scheme: t }) && t@ == s
        },
        None => if path == "-"@ {
            r matches Ok(InputKind::Stdin)
        } else {
            r matches Ok(InputKind::File { path: p }) && p@ == path
        },
    }
}

fn is_one_of_http(s: &String) -> (r: bool)
    ensures
        r == is_http(s@),
{
    let http = String::from_str("http");
    let https = String::from_str("https");
    *s == http || *s == https
}

fn is_text(s: &String, t: &str) -> (r: bool)
    ensures
        r == (s@ == t@),
{
    let t = String::from_str(t);
    *s == t
}

/// Where the address with `scheme` and `path` sends documents.
pub fn classify_output(scheme: Option<String>, path: String) -> (r: OutputKind)
    ensures
        output_matches(r, text_of(scheme), path@),
{
    match scheme {
        Some(s) => {
            if is_one_of_http(&s) {
                OutputKind::Elasticsearch
            } else if is_text(&s, "file") {
                OutputKind::File { path }
            } else {
                OutputKind::KnownHost { alias: s }
            }
        },
        None => {
            if is_text(&path, "-") {
                OutputKind::Stdout
            } else {
                OutputKind::File { path }
            }
        },
    }
}

/// Where the address with `scheme` and `path` reads documents from: an HTTP address for
/// `http` and `https`, a file for `file`; with no scheme, standard input for `-` and a
/// file otherwise. Any other scheme is refused.
pub fn classify_input(scheme: Option<String>, path: String) -> (r: Result<InputKind, InputError>)
    ensures
        input_matches(r, text_of(scheme), path@),
{
    match scheme {
        Some(s) => {
            if is_one_of_http(&s) {
                Ok(InputKind::Url)
            } else if is_text(&s, "file") {
                Ok(InputKind::File { path })
            } else {
                Err(InputError::UnsupportedScheme { scheme: s })
            }
        },
        None => {
            if is_text(&path, "-") {
                Ok(InputKind::Stdin)
            } else {
                Ok(InputKind::File { path })
            }
        },
    }
}

} // verus!
