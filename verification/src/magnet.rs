//! Magnet-URI handling: parsing a raw magnet string into the parts this
//! library reads, and building the emitted link in either of its two forms.
//!
//! Parsing and serialization are done by the `magnet_url` crate behind
//! trusted wrappers; the choice between the full link and the minimal
//! hash-and-name link, and the guard against a magnet that carries no hash,
//! are verified here.

use vstd::prelude::*;

verus! {

/// A record emitted for one successfully converted file.
pub struct TorrentInfo {
    pub name: String,
    pub path: String,
    pub link: String,
}

/// The parts of a parsed magnet URI that this library reads.
pub(crate) struct MagnetParts {
    pub display_name: Option<String>,
    pub hash_type: Option<String>,
    pub hash: Option<String>,
    pub full: String,
}

/// Whether a string begins with the `magnet:?` scheme prefix: exactly the
/// strings the magnet parser accepts.
pub open spec fn is_magnet_str(s: Seq<char>) -> bool {
    "magnet:?"@.len() <= s.len() && s.subrange(0, "magnet:?"@.len() as int) == "magnet:?"@
}

/// The display-name parameter the magnet parser reads from a magnet string;
/// a function of the string alone.
pub uninterp spec fn magnet_dn_of(s: Seq<char>) -> Option<Seq<char>>;

/// The hash-type part of the exact-topic parameter the magnet parser reads
/// from a magnet string; a function of the string alone.
pub uninterp spec fn magnet_ht_of(s: Seq<char>) -> Option<Seq<char>>;

/// The hash part of the exact-topic parameter the magnet parser reads from a
/// magnet string; a function of the string alone.
pub uninterp spec fn magnet_hash_of(s: Seq<char>) -> Option<Seq<char>>;

/// The serialization of the parsed magnet with all its parameters kept; a
/// function of the string alone.
pub uninterp spec fn magnet_full_of(s: Seq<char>) -> Seq<char>;

/// The view of an optional owned string.
pub open spec fn opt_str_view(o: Option<String>) -> Option<Seq<char>> {
    match o {
        Some(s) => Some(s@),
        None => None,
    }
}

/// Relies on magnet_url::Magnet::new, which returns Err exactly when the
/// string does not start with `magnet:?`, and on its accessors
/// display_name, hash_type and hash and its Display implementation, each of
/// which reads only the parsed string.
#[verifier::external_body]
fn parse_magnet(s: &str) -> (r: Option<MagnetParts>)
    ensures
        r is Some <==> is_magnet_str(s@),
        r matches Some(p) ==> {
            &&& opt_str_view(p.display_name) == magnet_dn_of(s@)
            &&& opt_str_view(p.hash_type) == magnet_ht_of(s@)
            &&& opt_str_view(p.hash) == magnet_hash_of(s@)
            &&& p.full@ == magnet_full_of(s@)
        },
{
    match magnet_url::Magnet::new(s) {
        Ok(m) => Some(MagnetParts {
            display_name: m.display_name().map(|x| x.to_string()),
            hash_type: m.hash_type().map(|x| x.to_string()),
            hash: m.hash().map(|x| x.to_string()),
            full: m.to_string(),
        }),
        Err(_) => None,
    }
}

/// The minimal magnet link over a hash type, a hash, and an optional display
/// name, with no other parameters.
pub open spec fn short_link_spec(dn: Option<Seq<char>>, ht: Seq<char>, h: Seq<char>) -> Seq<char> {
    let base = "magnet:?xt=urn:"@ + ht + ":"@ + h;
    match dn {
        Some(d) => base + "&dn="@ + d,
        None => base,
    }
}

/// Relies on magnet_url::MagnetBuilder (new, hash_type, hash, display_name,
/// build) and Magnet's Display implementation: with only these fields set
/// the serialization is `magnet:?xt=urn:` + hash type + `:` + hash, followed
/// by `&dn=` + display name when one is given, and nothing else.
#[verifier::external_body]
fn build_short_link(dn: Option<&String>, ht: &str, h: &str) -> (r: String)
    ensures
        r@ == short_link_spec(
            match dn {
                Some(d) => Some(d@),
                None => None,
            },
            ht@,
            h@,
        ),
{
    let b = magnet_url::MagnetBuilder::new().hash_type(ht).hash(h);
    let b = match dn {
        Some(d) => b.display_name(d.as_str()),
        None => b,
    };
    b.build().to_string()
}

/// The link emitted for a raw magnet string, by formatting flag: the full
/// serialization, or the minimal hash-and-name link.
pub open spec fn link_spec(s: Seq<char>, full_link: bool) -> Seq<char> {
    if full_link {
        magnet_full_of(s)
    } else {
        short_link_spec(magnet_dn_of(s), magnet_ht_of(s)->0, magnet_hash_of(s)->0)
    }
}

/// Whether a raw magnet string yields a record: it must parse, and the
/// minimal form additionally needs a hash type and a hash to build from.
pub open spec fn magnet_converts(s: Seq<char>, full_link: bool) -> bool {
    is_magnet_str(s) && (full_link || (magnet_ht_of(s) is Some && magnet_hash_of(s) is Some))
}

/// Builds the record for one file from its raw magnet string: the full
/// serialization when `full_link` is set, otherwise the minimal link of hash
/// type, hash and display name. Returns `None` when the string does not
/// parse as a magnet URI, or when the minimal form is requested of a magnet
/// that carries no hash.
pub fn record_from_magnet_str(name: String, path: String, raw: &str, full_link: bool) -> (r: Option<
    TorrentInfo,
>)
    ensures
        r is Some <==> magnet_converts(raw@, full_link),
        r matches Some(rec) ==> {
            &&& rec.name == name
            &&& rec.path == path
            &&& rec.link@ == link_spec(raw@, full_link)
        },
{
    let parts = match parse_magnet(raw) {
        Some(p) => p,
        None => {
            return None;
        },
    };
    let MagnetParts { display_name, hash_type, hash, full } = parts;
    if full_link {
        Some(TorrentInfo { name, path, link: full })
    } else {
        match (hash_type, hash) {
            (Some(ht), Some(h)) => {
                let link = build_short_link(display_name.as_ref(), ht.as_str(), h.as_str());
                Some(TorrentInfo { name, path, link })
            },
            _ => None,
        }
    }
}

} // verus!
