use gainmap_convert::ultra_hdr::{
    find_mpf_identifier, make_xmp, mpf_entries_for, mpf_header, write_mpf_entries, GContainerTemplate,
    MpfEntries,
};

const UNSET_MPF_HEADER: [u8; 86] = [
    b'M', b'P', b'F', 0, 0x49, 0x49, 0x2A, 0, 8, 0, 0, 0, 3, 0, 0, 0xB0, 7, 0, 4, 0, 0, 0, b'0',
    b'1', b'0', b'0', 1, 0xB0, 4, 0, 1, 0, 0, 0, 2, 0, 0, 0, 2, 0xB0, 7, 0, 0x20, 0, 0, 0, 0x32,
    0, 0, 0, 0, 0, 0, 0, 0, 0, 3, 0, 0, 0, 0, 0, 0, 0, 0, 0, 0, 0, 0, 0, 0, 0, 0, 0, 0, 0, 0, 0, 0,
    0, 0, 0, 0, 0, 0, 0,
];

#[test]
fn xmp_payload_is_namespace_then_xml() {
    let r = make_xmp("<x:xmpmeta/>".to_string());
    let mut expected = b"http://ns.adobe.com/xap/1.0/\0".to_vec();
    expected.extend_from_slice(b"<x:xmpmeta/>");
    assert_eq!(r, expected);
    assert_eq!(make_xmp(String::new()), b"http://ns.adobe.com/xap/1.0/\0".to_vec());
    let r = make_xmp("é".to_string());
    assert_eq!(&r[29..], "é".as_bytes());
}

#[test]
fn mpf_header_with_unset_entries() {
    let r = mpf_header(&MpfEntries { primary_size: 0, gain_map_size: 0, gain_map_offset: 0 });
    assert_eq!(r, UNSET_MPF_HEADER.to_vec());
}

#[test]
fn mpf_header_writes_entries_little_endian() {
    let r = mpf_header(&MpfEntries { primary_size: 0x01020304, gain_map_size: 0x0A0B0C0D, gain_map_offset: 70000 });
    assert_eq!(r.len(), 86);
    assert_eq!(&r[..54], &UNSET_MPF_HEADER[..54]);
    assert_eq!(&r[54..58], &[0, 0, 3, 0]);
    assert_eq!(&r[58..62], &[4, 3, 2, 1]);
    assert_eq!(&r[62..70], &[0; 8]);
    assert_eq!(&r[70..74], &[0; 4]);
    assert_eq!(&r[74..78], &[0x0D, 0x0C, 0x0B, 0x0A]);
    assert_eq!(&r[78..82], &70000u32.to_le_bytes());
    assert_eq!(&r[82..86], &[0; 4]);
}

#[test]
fn container_template_holds_length() {
    let t = GContainerTemplate { gain_map_image_len: 1234 };
    assert_eq!(t.gain_map_image_len, 1234);
}

fn image_with_mpf() -> Vec<u8> {
    let mut image = vec![0xFF, 0xD8, 0xFF, 0xE1, 0, 4, b'M', b'P'];
    image.extend_from_slice(&[0xFF, 0xE2, 0, 88]);
    image.extend_from_slice(&UNSET_MPF_HEADER);
    image.extend_from_slice(&[0xFF, 0xD9]);
    image
}

#[test]
fn finds_mpf_segment() {
    let image = image_with_mpf();
    assert_eq!(find_mpf_identifier(&image), Some(12));
    assert_eq!(find_mpf_identifier(&vec![0xFF, 0xD8, 0xFF, 0xD9]), None);
    // The identifier alone, without an APP2 marker before it, is not a segment.
    let mut plain = vec![0u8; 4];
    plain.extend_from_slice(b"MPF\0");
    assert_eq!(find_mpf_identifier(&plain), None);
}

#[test]
fn mpf_entries_count_from_endian_marker() {
    let e = mpf_entries_for(1000, 12, 300).unwrap();
    assert_eq!(e, MpfEntries { primary_size: 1000, gain_map_size: 300, gain_map_offset: 984 });
    assert_eq!(mpf_entries_for(5_000_000_000, 12, 1), None);
    assert_eq!(mpf_entries_for(100, 12, 5_000_000_000), None);
}

#[test]
fn mpf_entries_written_in_place() {
    let mut image = image_with_mpf();
    let before = image.clone();
    let at = find_mpf_identifier(&image).unwrap();
    let entries = mpf_entries_for(image.len(), at, 300).unwrap();
    write_mpf_entries(&mut image, at, &entries);
    assert_eq!(image.len(), before.len());
    assert_eq!(&image[at..at + 86], &mpf_header(&entries)[..]);
    assert_eq!(&image[..at], &before[..at]);
    assert_eq!(&image[at + 86..], &before[at + 86..]);
    assert_eq!(&image[at + 58..at + 62], &(image.len() as u32).to_le_bytes());
}
