use magnet_url::Magnet;
use std::io::Write;
use torrent_magnet::convert::{record_from_torrent_bytes, torrent_to_magnet};
use torrent_magnet::magnet::record_from_magnet_str;

fn valid_torrent_bytes() -> Vec<u8> {
    b"d8:announce3:url4:infod4:name1:a12:piece lengthi16384e6:pieces20:aaaaaaaaaaaaaaaaaaaaee"
        .to_vec()
}

fn temp_file_with(suffix: &str, data: &[u8]) -> tempfile::NamedTempFile {
    let mut f = tempfile::Builder::new().suffix(suffix).tempfile().unwrap();
    f.write_all(data).unwrap();
    f.flush().unwrap();
    f
}

#[test]
fn bytes_full_link_carries_all_parameters() {
    let data = valid_torrent_bytes();
    let rec = record_from_torrent_bytes("a.torrent".to_string(), "/d/a.torrent".to_string(), &data, true)
        .unwrap();
    assert_eq!(rec.name, "a.torrent");
    assert_eq!(rec.path, "/d/a.torrent");
    assert!(rec.link.starts_with("magnet:?xt=urn:btih:"));
    assert!(rec.link.contains("&dn=a"));
    assert!(rec.link.contains("&tr=url"));
}

#[test]
fn bytes_short_link_is_exactly_hash_and_name() {
    let data = valid_torrent_bytes();
    let full = record_from_torrent_bytes("a".to_string(), "p".to_string(), &data, true).unwrap();
    let hash = Magnet::new(&full.link).unwrap().hash().unwrap().to_string();
    let short = record_from_torrent_bytes("a".to_string(), "p".to_string(), &data, false).unwrap();
    assert_eq!(short.link, format!("magnet:?xt=urn:btih:{}&dn=a", hash));
}

#[test]
fn invalid_bytes_yield_no_record() {
    let data = b"not torrent data".to_vec();
    assert!(record_from_torrent_bytes("n".to_string(), "p".to_string(), &data, true).is_none());
    assert!(record_from_torrent_bytes("n".to_string(), "p".to_string(), &data, false).is_none());
}

#[test]
fn batch_converts_only_the_torrent_file() {
    let tor = temp_file_with(".torrent", &valid_torrent_bytes());
    let txt = temp_file_with(".txt", &valid_torrent_bytes());
    let tor_path = tor.path().to_str().unwrap().to_string();
    let txt_path = txt.path().to_str().unwrap().to_string();

    let recs = torrent_to_magnet(&vec![txt_path.clone(), tor_path.clone()], true);
    assert_eq!(recs.len(), 1);
    assert_eq!(recs[0].path, tor_path);
    assert_eq!(recs[0].name, tor_path.rsplit('/').next().unwrap());
    assert!(recs[0].link.starts_with("magnet:?xt=urn:btih:"));

    let recs = torrent_to_magnet(&vec![tor_path.clone(), txt_path.clone()], true);
    assert_eq!(recs.len(), 1);
    assert_eq!(recs[0].path, tor_path);
}

#[test]
fn batch_skips_corrupt_torrent_file() {
    let bad = temp_file_with(".torrent", b"this is not bencoded data");
    let bad_path = bad.path().to_str().unwrap().to_string();
    let recs = torrent_to_magnet(&vec![bad_path], true);
    assert_eq!(recs.len(), 0);
}

#[test]
fn batch_skips_missing_file() {
    let recs = torrent_to_magnet(&vec!["/no/such/dir/x.torrent".to_string()], false);
    assert_eq!(recs.len(), 0);
}

#[test]
fn batch_keeps_input_order() {
    let tor1 = temp_file_with(".torrent", &valid_torrent_bytes());
    let tor2 = temp_file_with(".torrent", &valid_torrent_bytes());
    let p1 = tor1.path().to_str().unwrap().to_string();
    let p2 = tor2.path().to_str().unwrap().to_string();
    let recs = torrent_to_magnet(&vec![p1.clone(), p2.clone()], false);
    assert_eq!(recs.len(), 2);
    assert_eq!(recs[0].path, p1);
    assert_eq!(recs[1].path, p2);
}

#[test]
fn full_link_round_trips_through_the_parser() {
    let x = "magnet:?xt=urn:btih:08ada5a7a6183aae1e09d831df6748d566095a10&dn=Sintel&xl=123&tr=udp%3A%2F%2Fexplodie.org%3A6969&tr=wss%3A%2F%2Ftracker.btorrent.xyz&ws=https%3A%2F%2Fwebtorrent.io%2Ftorrents%2F";
    let rec = record_from_magnet_str("n".to_string(), "p".to_string(), x, true).unwrap();
    assert_eq!(Magnet::new(&rec.link).unwrap(), Magnet::new(x).unwrap());
}

#[test]
fn short_link_omits_absent_display_name() {
    let x = "magnet:?xt=urn:btih:08ada5a7a6183aae1e09d831df6748d566095a10&tr=udp%3A%2F%2Fexplodie.org%3A6969";
    let rec = record_from_magnet_str("n".to_string(), "p".to_string(), x, false).unwrap();
    assert_eq!(
        rec.link,
        "magnet:?xt=urn:btih:08ada5a7a6183aae1e09d831df6748d566095a10"
    );
}

#[test]
fn short_link_keeps_display_name() {
    let x = "magnet:?xt=urn:btih:08ada5a7a6183aae1e09d831df6748d566095a10&dn=Sintel&tr=udp%3A%2F%2Fexplodie.org%3A6969";
    let rec = record_from_magnet_str("n".to_string(), "p".to_string(), x, false).unwrap();
    assert_eq!(
        rec.link,
        "magnet:?xt=urn:btih:08ada5a7a6183aae1e09d831df6748d566095a10&dn=Sintel"
    );
}

#[test]
fn non_magnet_string_yields_no_record() {
    assert!(record_from_magnet_str("n".to_string(), "p".to_string(), "https://example.com", true)
        .is_none());
}

#[test]
fn magnet_without_hash_yields_no_short_record() {
    let x = "magnet:?dn=OnlyAName";
    assert!(record_from_magnet_str("n".to_string(), "p".to_string(), x, false).is_none());
    assert!(record_from_magnet_str("n".to_string(), "p".to_string(), x, true).is_some());
}
