//! Parsing of container image references into registry host, port, name
//! components and tag.
//!
//! The reference grammar followed here: pieces are separated by `/`; when
//! there are at least two pieces and the first one contains an alphanumeric
//! character, it names the registry host, optionally with a `:port`; the tag,
//! if any, follows the last `:` of the last piece.  A single-piece reference
//! is resolved against the default public registry.

use vstd::prelude::*;

use crate::text::{is_u16_string, dec_value, number_body, parse_u16, spec_split, split_char};

verus! {

/// An image reference that could not be parsed.
#[derive(Debug)]
pub struct ImageNameError {
    pub msg: String,
}

impl ImageNameError {
    /// The full message, with its context prefix.
    pub fn message(&self) -> (r: String)
        ensures
            r@ == self.msg@,
    {
        self.msg.clone()
    }
}

/// A parsed image reference.
#[derive(Debug)]
pub struct DockerImageName<T> {
    pub host: Option<T>,

    pub port: Option<u16>,

    pub name_components: Vec<T>,

    pub tag: Option<T>,
}

/// Whether a name piece could be a registry hostname.  Following the
/// a searching, unanchored hostname pattern, this holds exactly
/// when the piece contains at least one ASCII alphanumeric character.
pub open spec fn could_be_hostname_spec(s: Seq<char>) -> bool {
    exists|i: int|
        0 <= i < s.len() && (('a' <= #[trigger] s[i] && s[i] <= 'z') || ('A' <= s[i] && s[i]
            <= 'Z') || ('0' <= s[i] && s[i] <= '9'))
}

/// Decides `could_be_hostname_spec`.
pub fn could_be_hostname(name_component: &str) -> (r: bool)
    ensures
        r == could_be_hostname_spec(name_component@),
{
    let len = name_component.unicode_len();
    let mut i: usize = 0;
    while i < len
        invariant
            0 <= i <= len,
            len == name_component@.len(),
            forall|j: int|
                0 <= j < i ==> !(('a' <= #[trigger] name_component@[j] && name_component@[j] <= 'z')
                    || ('A' <= name_component@[j] && name_component@[j] <= 'Z') || ('0'
                    <= name_component@[j] && name_component@[j] <= '9')),
        decreases len - i,
    {
        let c = name_component.get_char(i);
        if ('a' <= c && c <= 'z') || ('A' <= c && c <= 'Z') || ('0' <= c && c <= '9') {
            return true;
        }
        i = i + 1;
    }
    false
}

/// The name part of a piece: what precedes its first `:`, or all of it.
pub open spec fn name_of_piece(piece: Seq<char>) -> Seq<char> {
    spec_split(piece, ':')[0]
}

/// The tag of a piece with exactly one `:`: what follows the `:`.
pub open spec fn tag_of_piece(piece: Seq<char>) -> Option<Seq<char>> {
    let parts = spec_split(piece, ':');
    if parts.len() == 1 {
        None
    } else {
        Some(parts[1])
    }
}

/// A piece splits into a name and at most one tag: it holds at most one `:`.
pub open spec fn piece_well_formed(piece: Seq<char>) -> bool {
    spec_split(piece, ':').len() <= 2
}

/// Splits a name piece at `:` into the name and an optional tag; more than
/// one `:` in the piece is an error.
pub fn extract_name_and_tag(name_component: &str) -> (r: Result<
    (String, Option<String>),
    ImageNameError,
>)
    ensures
        r is Ok <==> piece_well_formed(name_component@),
        r matches Ok(p) ==> p.0@ == name_of_piece(name_component@),
        r matches Ok(p) ==> match tag_of_piece(name_component@) {
            Some(t) => p.1 matches Some(tag) && tag@ == t,
            None => p.1 is None,
        },
{
    let mut name_and_maybe_tag = split_char(name_component, ':');
    let n = name_and_maybe_tag.len();
    if n == 1 {
        let name = name_and_maybe_tag.remove(0);
        Ok((name, None))
    } else if n == 2 {
        let tag = name_and_maybe_tag.remove(1);
        let name = name_and_maybe_tag.remove(0);
        Ok((name, Some(tag)))
    } else {
        Err(ImageNameError { msg: "Too many colons in the last name component".to_owned() })
    }
}

/// Whether the whole reference parses: its last piece is well formed, and,
/// when a multi-piece reference starts with a host piece holding exactly one
/// `:`, what follows that `:` is a decimal port within `u16` range.
pub open spec fn image_name_parses(s: Seq<char>) -> bool {
    let pieces = spec_split(s, '/');
    if pieces.len() == 1 {
        piece_well_formed(pieces[0])
    } else {
        piece_well_formed(pieces.last()) && (could_be_hostname_spec(pieces[0]) ==> {
            let parts = spec_split(pieces[0], ':');
            parts.len() == 2 ==> is_u16_string(parts[1])
        })
    }
}

/// The registry host of a parsed multi-piece reference.
pub open spec fn host_of_multi(first: Seq<char>) -> Option<Seq<char>> {
    if could_be_hostname_spec(first) {
        if spec_split(first, ':').len() == 2 {
            Some(spec_split(first, ':')[0])
        } else {
            Some(first)
        }
    } else {
        None
    }
}

/// The registry port of a parsed multi-piece reference.
pub open spec fn port_of_multi(first: Seq<char>) -> Option<int> {
    if could_be_hostname_spec(first) && spec_split(first, ':').len() == 2 {
        Some(dec_value(number_body(spec_split(first, ':')[1])))
    } else {
        None
    }
}

impl DockerImageName<String> {
    /// Parses an image reference.  A reference whose host piece carries a
    /// malformed port is excluded up front: there is no answer for it, only
    /// a torn-down process.
    pub fn try_from(image_name: String) -> (r: Result<Self, ImageNameError>)
        requires
            ({
                let pieces = spec_split(image_name@, '/');
                pieces.len() >= 2 && could_be_hostname_spec(pieces[0]) && spec_split(
                    pieces[0],
                    ':',
                ).len() == 2 ==> is_u16_string(spec_split(pieces[0], ':')[1])
            }),
        ensures
            r is Ok <==> image_name_parses(image_name@),
            r matches Ok(d) ==> ({
                let pieces = spec_split(image_name@, '/');
                if pieces.len() == 1 {
                    &&& d.host matches Some(h) && h@ == "registry-1.docker.io"@
                    &&& d.port is None
                    &&& d.name_components@.len() == 1
                    &&& d.name_components@[0]@ == name_of_piece(pieces[0])
                    &&& match tag_of_piece(pieces[0]) {
                        Some(t) => d.tag matches Some(tag) && tag@ == t,
                        None => d.tag is None,
                    }
                } else {
                    &&& match host_of_multi(pieces[0]) {
                        Some(h) => d.host matches Some(host) && host@ == h,
                        None => d.host is None,
                    }
                    &&& match port_of_multi(pieces[0]) {
                        Some(p) => d.port matches Some(port) && port as int == p,
                        None => d.port is None,
                    }
                    &&& d.name_components@.len() == pieces.len()
                    &&& (forall|i: int|
                        0 <= i < pieces.len() ==> (#[trigger] d.name_components@[i])@ == pieces[i])
                    &&& match tag_of_piece(pieces.last()) {
                        Some(t) => d.tag matches Some(tag) && tag@ == t,
                        None => d.tag is None,
                    }
                }
            }),
    {
        let components = split_char(image_name.as_str(), '/');
        let n = components.len();
        if n == 1 {
            match extract_name_and_tag(components[0].as_str()) {
                Ok(x) => {
                    let mut name_components: Vec<String> = Vec::new();
                    name_components.push(x.0);
                    Ok(
                        DockerImageName {
                            host: Some("registry-1.docker.io".to_owned()),
                            port: None,
                            name_components,
                            tag: x.1,
                        },
                    )
                },
                Err(e) => Err(e),
            }
        } else {
            let first = &components[0];
            let mut host: Option<String> = None;
            let mut port: Option<u16> = None;
            if could_be_hostname(first.as_str()) {
                let mut parts = split_char(first.as_str(), ':');
                let np = parts.len();
                if np == 2 {
                    let port_str = parts.remove(1);
                    let host_str = parts.remove(0);
                    match parse_u16(port_str.as_str()) {
                        Some(p) => {
                            host = Some(host_str);
                            port = Some(p);
                        },
                        None => {
                            // Excluded by the precondition: a host piece with
                            // exactly one `:` always carries a valid port.
                            proof {
                                assert(false);
                            }
                        },
                    }
                } else {
                    host = Some(first.clone());
                }
            }
            match extract_name_and_tag(components[n - 1].as_str()) {
                Ok(x) => Ok(
                    DockerImageName { host, port, name_components: components, tag: x.1 },
                ),
                Err(e) => Err(e),
            }
        }
    }
}

} // verus!
