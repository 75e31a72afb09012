use vstd::prelude::*;

verus! {

/// Values rendered into the container directory XMP packet of the primary image.
#[derive(Clone, Copy, Debug, PartialEq, Eq, Structural)]
pub struct GContainerTemplate {
    /// Byte length of the gain map image appended after the primary image.
    pub gain_map_image_len: usize,
}

/// The XMP namespace identifier that opens an XMP metadata segment, with its
/// terminating NUL: `http://ns.adobe.com/xap/1.0/\0`.
pub open spec fn xmp_namespace() -> Seq<u8> {
    seq![
        104u8, 116, 116, 112, 58, 47, 47, 110, 115, 46, 97, 100, 111, 98, 101, 46, 99, 111, 109,
        47, 120, 97, 112, 47, 49, 46, 48, 47, 0,
    ]
}

/// The payload of an XMP metadata segment: the namespace identifier followed by the
/// UTF-8 bytes of the XML packet.
pub fn make_xmp(xml: String) -> (r: Vec<u8>)
    ensures
        r@ == xmp_namespace() + vstd::utf8::encode_utf8(xml@),
{
    let mut data: Vec<u8> = vec![
        104u8, 116, 116, 112, 58, 47, 47, 110, 115, 46, 97, 100, 111, 98, 101, 46, 99, 111, 109,
        47, 120, 97, 112, 47, 49, 46, 48, 47, 0,
    ];
    assert(data@ =~= xmp_namespace());
    let bytes = xml.as_str().as_bytes();
    let ghost start = data@;
    let mut i: usize = 0;
    while i < bytes.len()
        invariant
            i <= bytes@.len(),
            bytes@ == vstd::utf8::encode_utf8(xml@),
            data@ == start + bytes@.subrange(0, i as int),
        decreases bytes@.len() - i,
    {
        data.push(bytes[i]);
        i += 1;
        assert(data@ =~= start + bytes@.subrange(0, i as int));
    }
    assert(bytes@.subrange(0, i as int) =~= bytes@);
    data
}

/// The per-image fields of a two-image Multi-Picture Format index.
#[derive(Clone, Copy, Debug, PartialEq, Eq, Structural)]
pub struct MpfEntries {
    /// Byte size of the primary image.
    pub primary_size: u32,
    /// Byte size of the gain map image.
    pub gain_map_size: u32,
    /// Offset of the gain map image, relative to the header's endian marker.
    pub gain_map_offset: u32,
}

/// `v` as four little-endian bytes.
pub open spec fn le32(v: u32) -> Seq<u8> {
    seq![
        (v % 256) as u8,
        (v / 256 % 256) as u8,
        (v / 65536 % 256) as u8,
        (v / 16777216) as u8,
    ]
}

/// The fixed part of the header: the `MPF\0` identifier, a little-endian TIFF header,
/// and an index IFD of three tags (format version `0100`, two images, and the
/// 32-byte MP entry list at offset 50), then a zero next-IFD offset.
pub open spec fn mpf_fixed_part() -> Seq<u8> {
    seq![
        77u8, 80, 70, 0,
        0x49, 0x49, 0x2A, 0,
        8, 0, 0, 0,
        3, 0,
        0, 0xB0, 7, 0, 4, 0, 0, 0, 48, 49, 48, 48,
        1, 0xB0, 4, 0, 1, 0, 0, 0, 2, 0, 0, 0,
        2, 0xB0, 7, 0, 0x20, 0, 0, 0, 0x32, 0, 0, 0,
        0, 0, 0, 0,
    ]
}

/// The attribute of the primary image entry: a baseline primary image.
pub const PRIMARY_IMAGE_ATTRIBUTE: u32 = 0x30000;

/// One MP entry: attribute, size, offset, and two empty dependent-image entries.
pub open spec fn mp_entry(attribute: u32, size: u32, offset: u32) -> Seq<u8> {
    le32(attribute) + le32(size) + le32(offset) + seq![0u8, 0, 0, 0]
}

/// The Multi-Picture Format segment describing a primary image and its gain map.
pub open spec fn mpf_header_bytes(e: MpfEntries) -> Seq<u8> {
    mpf_fixed_part() + mp_entry(PRIMARY_IMAGE_ATTRIBUTE, e.primary_size, 0) + mp_entry(
        0,
        e.gain_map_size,
        e.gain_map_offset,
    )
}

fn push_le32(out: &mut Vec<u8>, v: u32)
    ensures
        final(out)@ == old(out)@ + le32(v),
{
    out.push((v % 256) as u8);
    out.push((v / 256 % 256) as u8);
    out.push((v / 65536 % 256) as u8);
    out.push((v / 16777216) as u8);
    assert(final(out)@ =~= old(out)@ + le32(v));
}

fn push_mp_entry(out: &mut Vec<u8>, attribute: u32, size: u32, offset: u32)
    ensures
        final(out)@ == old(out)@ + mp_entry(attribute, size, offset),
{
    let ghost start = out@;
    push_le32(out, attribute);
    push_le32(out, size);
    push_le32(out, offset);
    out.push(0);
    out.push(0);
    out.push(0);
    out.push(0);
    assert(out@ =~= start + mp_entry(attribute, size, offset));
}

/// Serialises the Multi-Picture Format segment for a primary image followed by its
/// gain map.
pub fn mpf_header(entries: &MpfEntries) -> (r: Vec<u8>)
    ensures
        r@ == mpf_header_bytes(*entries),
        r@.len() == 86,
{
    let mut out: Vec<u8> = vec![
        77u8, 80, 70, 0,
        0x49, 0x49, 0x2A, 0,
        8, 0, 0, 0,
        3, 0,
        0, 0xB0, 7, 0, 4, 0, 0, 0, 48, 49, 48, 48,
        1, 0xB0, 4, 0, 1, 0, 0, 0, 2, 0, 0, 0,
        2, 0xB0, 7, 0, 0x20, 0, 0, 0, 0x32, 0, 0, 0,
        0, 0, 0, 0,
    ];
    assert(out@ =~= mpf_fixed_part());
    push_mp_entry(&mut out, PRIMARY_IMAGE_ATTRIBUTE, entries.primary_size, 0);
    push_mp_entry(&mut out, 0, entries.gain_map_size, entries.gain_map_offset);
    assert(out@ =~= mpf_header_bytes(*entries));
    out
}

/// An APP2 marker (`FF E2`), two length bytes, then the `MPF\0` identifier, starts at `i`.
pub open spec fn mpf_segment_at(image: Seq<u8>, i: int) -> bool {
    &&& 0 <= i
    &&& i + 8 <= image.len()
    &&& image[i] == 0xFF
    &&& image[i + 1] == 0xE2
    &&& image[i + 4] == 77
    &&& image[i + 5] == 80
    &&& image[i + 6] == 70
    &&& image[i + 7] == 0
}

/// Finds the first Multi-Picture Format segment of an encoded image and returns the
/// position of its `MPF\0` identifier.
pub fn find_mpf_identifier(image: &Vec<u8>) -> (r: Option<usize>)
    ensures
        r matches Some(p) ==> p >= 4 && mpf_segment_at(image@, p - 4) && forall|q: int|
            0 <= q < p - 4 ==> !mpf_segment_at(image@, q),
        r is None ==> forall|q: int| 0 <= q < image@.len() ==> !mpf_segment_at(image@, q),
{
    if image.len() < 8 {
        return None;
    }
    let mut i: usize = 0;
    while i < image.len() - 7
        invariant
            image.len() >= 8,
            i + 7 <= image.len(),
            forall|q: int| 0 <= q < i ==> !mpf_segment_at(image@, q),
        decreases image.len() - i,
    {
        if image[i] == 0xFF && image[i + 1] == 0xE2 && image[i + 4] == 77 && image[i + 5] == 80
            && image[i + 6] == 70 && image[i + 7] == 0 {
            return Some(i + 4);
        }
        i += 1;
    }
    None
}

/// The entries for a primary image of `primary_len` bytes whose `MPF\0` identifier
/// stands at `identifier_at`, followed by a gain map of `gain_map_len` bytes. Offsets
/// count from the endian marker, four bytes after the identifier. `None` when a value
/// does not fit in 32 bits.
pub fn mpf_entries_for(primary_len: usize, identifier_at: usize, gain_map_len: usize) -> (r: Option<
    MpfEntries,
>)
    requires
        identifier_at + 4 <= primary_len,
    ensures
        r matches Some(e) ==> {
            &&& e.primary_size == primary_len
            &&& e.gain_map_size == gain_map_len
            &&& e.gain_map_offset == primary_len - (identifier_at + 4)
        },
        r is None <==> (primary_len > u32::MAX || gain_map_len > u32::MAX),
{
    if primary_len > u32::MAX as usize || gain_map_len > u32::MAX as usize {
        return None;
    }
    Some(
        MpfEntries {
            primary_size: primary_len as u32,
            gain_map_size: gain_map_len as u32,
            gain_map_offset: (primary_len - (identifier_at + 4)) as u32,
        },
    )
}

/// Writes the two MP entries of the segment whose `MPF\0` identifier stands at
/// `identifier_at`, leaving every other byte as it was.
pub fn write_mpf_entries(image: &mut Vec<u8>, identifier_at: usize, entries: &MpfEntries)
    requires
        identifier_at + 86 <= old(image)@.len(),
    ensures
        final(image)@ == old(image)@.subrange(0, identifier_at + 54) + mp_entry(
            PRIMARY_IMAGE_ATTRIBUTE,
            entries.primary_size,
            0,
        ) + mp_entry(0, entries.gain_map_size, entries.gain_map_offset) + old(image)@.subrange(
            identifier_at + 86,
            old(image)@.len() as int,
        ),
{
    let mut bytes: Vec<u8> = Vec::new();
    push_mp_entry(&mut bytes, PRIMARY_IMAGE_ATTRIBUTE, entries.primary_size, 0);
    push_mp_entry(&mut bytes, 0, entries.gain_map_size, entries.gain_map_offset);
    let ghost before = image@;
    let len = image.len();
    let start = identifier_at + 54;
    let mut i: usize = 0;
    while i < 32
        invariant
            bytes@.len() == 32,
            start + 32 <= before.len(),
            before.len() == len,
            image@.len() == before.len(),
            forall|k: int|
                0 <= k < before.len() && !(start <= k < start + i) ==> image@[k] == before[k],
            forall|k: int| start <= k < start + i ==> image@[k] == bytes@[k - start],
            i <= 32,
        decreases 32 - i,
    {
        image.set(start + i, bytes[i]);
        i += 1;
    }
    assert(image@ =~= before.subrange(0, start as int) + bytes@ + before.subrange(
        start + 32,
        before.len() as int,
    ));
}

} // verus!
