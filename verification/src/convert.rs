//! The batch converter: turns a list of candidate paths into magnet-link
//! records, one per file that classifies as a torrent and parses, in input
//! order, skipping every file that fails a stage.
//!
//! Deriving a raw magnet URI from torrent data is done by the
//! `rs_torrent_magnet` crate behind trusted wrappers; the classification,
//! the per-file skip-and-continue policy, and the record construction are
//! verified here.

use crate::magnet::{TorrentInfo, link_spec, magnet_converts, record_from_magnet_str};
use crate::paths::{file_name_of, file_name_str, is_torrent_file, is_torrent_path};
use vstd::prelude::*;

verus! {

/// Whether the torrent decoder accepts a buffer; a function of the bytes
/// alone.
pub uninterp spec fn torrent_decodes(data: Seq<u8>) -> bool;

/// The magnet URI derived from a decodable torrent buffer; a function of the
/// bytes alone.
pub uninterp spec fn torrent_magnet_of(data: Seq<u8>) -> Seq<char>;

/// Relies on rs_torrent_magnet::magnet_from_torrent: bencode-decodes the
/// buffer and derives its magnet URI, deterministically in the bytes.
#[verifier::external_body]
fn torrent_bytes_magnet(data: &Vec<u8>) -> (r: Option<String>)
    ensures
        r is Some <==> torrent_decodes(data@),
        r matches Some(s) ==> s@ == torrent_magnet_of(data@),
{
    rs_torrent_magnet::magnet_from_torrent(data.clone()).ok()
}

/// Relies on rs_torrent_magnet::magnet_from_torrent_file: reads the file at
/// the path and derives the magnet URI of the bytes it read; which bytes
/// those are depends on the file system, so only their existence is stated.
#[verifier::external_body]
fn torrent_file_magnet(path: &str) -> (r: Option<String>)
    ensures
        r matches Some(s) ==> exists|data: Seq<u8>|
            #[trigger] torrent_decodes(data) && s@ == torrent_magnet_of(data),
{
    rs_torrent_magnet::magnet_from_torrent_file(std::path::PathBuf::from(path)).ok()
}

/// Builds the record for one torrent held in memory. Returns `None` when
/// the buffer is not valid torrent data, or when the derived magnet does not
/// yield a record for the requested form.
pub fn record_from_torrent_bytes(
    name: String,
    path: String,
    data: &Vec<u8>,
    full_link: bool,
) -> (r: Option<TorrentInfo>)
    ensures
        r is Some <==> torrent_decodes(data@) && magnet_converts(
            torrent_magnet_of(data@),
            full_link,
        ),
        r matches Some(rec) ==> {
            &&& rec.name == name
            &&& rec.path == path
            &&& rec.link@ == link_spec(torrent_magnet_of(data@), full_link)
        },
{
    match torrent_bytes_magnet(data) {
        Some(raw) => record_from_magnet_str(name, path, raw.as_str(), full_link),
        None => None,
    }
}

/// Whether `rec` is a record the converter may emit for the path `p`: the
/// path classifies as a torrent, the record carries that path and its file
/// name, and its link is derived from some decodable torrent data.
pub open spec fn converted_record(rec: TorrentInfo, p: Seq<char>, full_link: bool) -> bool {
    &&& rec.path@ == p
    &&& rec.name@ == file_name_of(p)
    &&& is_torrent_path(p)
    &&& exists|data: Seq<u8>|
        {
            &&& #[trigger] torrent_decodes(data)
            &&& magnet_converts(torrent_magnet_of(data), full_link)
            &&& rec.link@ == link_spec(torrent_magnet_of(data), full_link)
        }
}

/// A strictly increasing sequence of indices into a list of `n` items.
pub open spec fn increasing_indices(ix: Seq<int>, n: nat) -> bool {
    &&& forall|k: int| 0 <= k < ix.len() ==> 0 <= #[trigger] ix[k] < n
    &&& forall|k1: int, k2: int| 0 <= k1 < k2 < ix.len() ==> #[trigger] ix[k1] < #[trigger] ix[k2]
}

/// Converts the paths in input order. Every returned record belongs to a
/// distinct input path that classifies as a torrent, the records appear in
/// the order of their paths, and each link is derived from torrent data the
/// file system supplied; paths that fail classification or any parsing stage
/// contribute nothing.
pub fn torrent_to_magnet(path_list: &Vec<String>, full_link: bool) -> (r: Vec<TorrentInfo>)
    ensures
        exists|ix: Seq<int>|
            {
                &&& #[trigger] increasing_indices(ix, path_list@.len())
                &&& ix.len() == r@.len()
                &&& forall|k: int|
                    0 <= k < r@.len() ==> #[trigger] converted_record(
                        r@[k],
                        path_list@[ix[k]]@,
                        full_link,
                    )
            },
{
    let mut out: Vec<TorrentInfo> = Vec::new();
    let ghost mut ix: Seq<int> = Seq::empty();
    let n = path_list.len();
    let mut i: usize = 0;
    while i < n
        invariant
            n == path_list@.len(),
            0 <= i <= n,
            ix.len() == out@.len(),
            forall|k: int| 0 <= k < ix.len() ==> 0 <= #[trigger] ix[k] < i,
            forall|k1: int, k2: int|
                0 <= k1 < k2 < ix.len() ==> #[trigger] ix[k1] < #[trigger] ix[k2],
            forall|k: int|
                0 <= k < out@.len() ==> #[trigger] converted_record(
                    out@[k],
                    path_list@[ix[k]]@,
                    full_link,
                ),
        decreases n - i,
    {
        let path: &String = &path_list[i];
        if is_torrent_file(path.as_str()) {
            match torrent_file_magnet(path.as_str()) {
                Some(raw) => {
                    let fname = file_name_str(path.as_str());
                    match record_from_magnet_str(fname, path.clone(), raw.as_str(), full_link) {
                        Some(rec) => {
                            proof {
                                let data = choose|data: Seq<u8>|
                                    #[trigger] torrent_decodes(data) && raw@ == torrent_magnet_of(
                                        data,
                                    );
                                assert(torrent_decodes(data) && magnet_converts(
                                    torrent_magnet_of(data),
                                    full_link,
                                ) && rec.link@ == link_spec(torrent_magnet_of(data), full_link));
                                assert(converted_record(rec, path@, full_link));
                                ix = ix.push(i as int);
                            }
                            out.push(rec);
                        },
                        None => {},
                    }
                },
                None => {},
            }
        }
        i = i + 1;
    }
    proof {
        assert(increasing_indices(ix, path_list@.len()));
    }
    out
}

} // verus!
