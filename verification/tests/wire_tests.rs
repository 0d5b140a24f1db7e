use ledger_client::hextext::{from_hex, to_hex};
use ledger_client::wire::{fits, read_blob, read_compact, read_list, write_blob, write_compact, write_list};
use parity_scale_codec::{Compact, Encode};

fn compact_of(n: usize) -> Vec<u8> {
    let mut out = Vec::new();
    write_compact(&mut out, n);
    out
}

#[test]
fn compact_exact_bytes() {
    assert_eq!(compact_of(0), vec![0x00]);
    assert_eq!(compact_of(1), vec![0x04]);
    assert_eq!(compact_of(63), vec![0xfc]);
    assert_eq!(compact_of(64), vec![0x01, 0x01]);
    assert_eq!(compact_of(16383), vec![0xfd, 0xff]);
    assert_eq!(compact_of(16384), vec![0x02, 0x00, 0x01, 0x00]);
    assert_eq!(compact_of(0x3fff_ffff), vec![0xfe, 0xff, 0xff, 0xff]);
    assert_eq!(compact_of(0x4000_0000), vec![0x03, 0x00, 0x00, 0x00, 0x40]);
    assert_eq!(compact_of(0xffff_ffff), vec![0x03, 0xff, 0xff, 0xff, 0xff]);
}

#[test]
fn compact_agrees_with_scale() {
    let samples: [u32; 12] = [
        0, 1, 63, 64, 65, 255, 16383, 16384, 65536, 0x3fff_ffff, 0x4000_0000, 0xffff_ffff,
    ];
    for n in samples {
        assert_eq!(compact_of(n as usize), Compact(n).encode());
    }
}

#[test]
fn compact_appends_to_what_is_there() {
    let mut out = vec![9u8, 9];
    write_compact(&mut out, 64);
    assert_eq!(out, vec![9, 9, 0x01, 0x01]);
}

#[test]
fn compact_reads_back() {
    let samples: [usize; 9] = [0, 1, 63, 64, 16383, 16384, 0x3fff_ffff, 0x4000_0000, 0xffff_ffff];
    for n in samples {
        let mut buf = vec![7u8];
        write_compact(&mut buf, n);
        let end = buf.len();
        buf.push(0xaa);
        assert_eq!(read_compact(&buf, 1), Some((n, end)));
    }
}

#[test]
fn compact_rejects_longer_forms() {
    assert_eq!(read_compact(&[0x01, 0x00], 0), None);
    assert_eq!(read_compact(&[0xfd, 0x00], 0), None);
    assert_eq!(read_compact(&[0x02, 0x00, 0x00, 0x00], 0), None);
    assert_eq!(read_compact(&[0x03, 0xff, 0xff, 0xff, 0x3f], 0), None);
    assert_eq!(read_compact(&[0x07, 0, 0, 0, 0x40, 0], 0), None);
}

#[test]
fn compact_rejects_short_input() {
    assert_eq!(read_compact(&[], 0), None);
    assert_eq!(read_compact(&[0x04], 1), None);
    assert_eq!(read_compact(&[0x01], 0), None);
    assert_eq!(read_compact(&[0x02, 0x00, 0x01], 0), None);
    assert_eq!(read_compact(&[0x03, 0, 0, 0], 0), None);
}

#[test]
fn blob_round_trip_and_exact_bytes() {
    let mut out = Vec::new();
    write_blob(&mut out, &vec![1u8, 2, 3]);
    assert_eq!(out, vec![0x0c, 1, 2, 3]);
    assert_eq!(out, vec![1u8, 2, 3].encode());
    assert_eq!(read_blob(&out, 0), Some((vec![1u8, 2, 3], 4)));
    assert_eq!(read_blob(&out[..3], 0), None);
}

#[test]
fn list_agrees_with_scale_and_reads_back() {
    let items: Vec<Vec<u8>> = vec![vec![], vec![0xde, 0xad], vec![5u8; 70]];
    let mut out = Vec::new();
    write_list(&mut out, &items);
    assert_eq!(out, items.encode());
    assert_eq!(read_list(&out, 0), Some((items, out.len())));
}

#[test]
fn list_keeps_order() {
    let items: Vec<Vec<u8>> = vec![vec![2], vec![1], vec![2]];
    let mut out = Vec::new();
    write_list(&mut out, &items);
    assert_eq!(out, vec![0x0c, 0x04, 2, 0x04, 1, 0x04, 2]);
    let (back, _) = read_list(&out, 0).unwrap();
    assert_eq!(back, items);
}

#[test]
fn list_with_too_few_items_fails() {
    assert_eq!(read_list(&[0x08, 0x04, 1], 0), None);
    assert_eq!(read_list(&[0x08, 0x04, 1, 0x08, 2], 0), None);
    assert_eq!(read_list(&[0x00], 0), Some((vec![], 1)));
}

#[test]
fn fits_small_lists() {
    assert!(fits(&vec![vec![1u8, 2], vec![]]));
    assert!(fits(&vec![]));
}

#[test]
fn hex_text_is_lower_case() {
    assert_eq!(to_hex(&[0x00, 0xab, 0xff, 0x10]), "00abff10");
    assert_eq!(to_hex(&[]), "");
}

#[test]
fn hex_reads_either_case() {
    assert_eq!(from_hex("00ABff10"), Some(vec![0x00, 0xab, 0xff, 0x10]));
    assert_eq!(from_hex(""), Some(vec![]));
}

#[test]
fn hex_rejects_odd_length_and_other_characters() {
    assert_eq!(from_hex("abc"), None);
    assert_eq!(from_hex("zz"), None);
    assert_eq!(from_hex("0g"), None);
    assert_eq!(from_hex("é"), None);
    assert_eq!(from_hex(" 00"), None);
}

#[test]
fn hex_round_trip() {
    let bytes: Vec<u8> = (0..=255u8).collect();
    assert_eq!(from_hex(&to_hex(&bytes)), Some(bytes));
}
