//! The signed firmware blob: a fixed header followed by four tagged images.
//!
//! Layout, all words little-endian: signature (offset 0), image count (4),
//! payload length (8), feature flags (12); then, back to back, for each image:
//! image type (0), image length (4) and that many bytes of image data (8).
use vstd::prelude::*;
use vstd::slice::slice_subrange;

use crate::memory::ProcessorType;
use crate::{Error, FirmwareParseError};

verus! {

/// The magic word that starts every firmware blob.
pub const PATCH_SIGNATURE: u32 = 0xDEAD_1EAF;
/// Number of images a blob must hold: two parts for each of the two cores.
pub const PATCH_NUM_IMAGES: u32 = 4;
/// Size of the fixed blob header.
pub const BLOB_HEADER_SIZE: usize = 16;
/// Size of the header in front of each image.
pub const IMAGE_HEADER_SIZE: usize = 8;

/// Destination of the primary UMAC image.
pub const RPU_MEM_UMAC_PATCH_BIMG: u32 = 0x8009_9400;
/// Destination of the secondary UMAC image.
pub const RPU_MEM_UMAC_PATCH_BIN: u32 = 0x8008_C000;
/// Destination of the primary LMAC image.
pub const RPU_MEM_LMAC_PATCH_BIMG: u32 = 0x8004_9000;
/// Destination of the secondary LMAC image.
pub const RPU_MEM_LMAC_PATCH_BIN: u32 = 0x8004_4000;

/// The little-endian word at byte offset `o` of `b`.
pub open spec fn le_u32(b: Seq<u8>, o: int) -> u32 {
    (b[o] as int + b[o + 1] as int * 0x100 + b[o + 2] as int * 0x1_0000 + b[o + 3] as int * 0x100_0000) as u32
}

/// Reads the little-endian word at byte offset `o` of `b`.
pub fn read_le_u32(b: &[u8], o: usize) -> (r: u32)
    requires
        o + 4 <= b@.len(),
    ensures
        r == le_u32(b@, o as int),
{
    b[o] as u32 + b[o + 1] as u32 * 0x100 + b[o + 2] as u32 * 0x1_0000 + b[o + 3] as u32 * 0x100_0000
}

/// The kind of a firmware image.
#[derive(Debug, Clone, Copy, PartialEq, Eq, Structural)]
pub enum ImageKind {
    UmacPrimary,
    UmacSecondary,
    LmacPrimary,
    LmacSecondary,
}

/// The image kind that a type word encodes.
pub open spec fn image_kind_spec(v: u32) -> Option<ImageKind> {
    if v == 0 {
        Some(ImageKind::UmacPrimary)
    } else if v == 1 {
        Some(ImageKind::UmacSecondary)
    } else if v == 2 {
        Some(ImageKind::LmacPrimary)
    } else if v == 3 {
        Some(ImageKind::LmacSecondary)
    } else {
        None
    }
}

impl ImageKind {
    /// Decodes an image type word.
    pub fn try_from_u32(v: u32) -> (r: Option<ImageKind>)
        ensures
            r == image_kind_spec(v),
    {
        match v {
            0 => Some(ImageKind::UmacPrimary),
            1 => Some(ImageKind::UmacSecondary),
            2 => Some(ImageKind::LmacPrimary),
            3 => Some(ImageKind::LmacSecondary),
            _ => None,
        }
    }
}

/// The feature set a firmware blob was built with.
#[derive(Debug, Clone, Copy, PartialEq, Eq, Structural)]
pub enum FeatureFlags {
    SystemMode,
    RadioTest,
    ScanOnly,
    SystemWithRawModes,
    OffloadedRawTx,
}

/// The feature set that a feature word encodes: exactly one known bit.
pub open spec fn feature_flags_spec(v: u32) -> Option<FeatureFlags> {
    if v == 1 {
        Some(FeatureFlags::SystemMode)
    } else if v == 2 {
        Some(FeatureFlags::RadioTest)
    } else if v == 4 {
        Some(FeatureFlags::ScanOnly)
    } else if v == 8 {
        Some(FeatureFlags::SystemWithRawModes)
    } else if v == 16 {
        Some(FeatureFlags::OffloadedRawTx)
    } else {
        None
    }
}

impl FeatureFlags {
    /// Decodes a feature word.
    pub fn try_from_u32(v: u32) -> (r: Option<FeatureFlags>)
        ensures
            r == feature_flags_spec(v),
    {
        match v {
            1 => Some(FeatureFlags::SystemMode),
            2 => Some(FeatureFlags::RadioTest),
            4 => Some(FeatureFlags::ScanOnly),
            8 => Some(FeatureFlags::SystemWithRawModes),
            16 => Some(FeatureFlags::OffloadedRawTx),
            _ => None,
        }
    }
}

/// Where an image lies in the blob.
pub struct ImageSpan {
    pub kind: ImageKind,
    /// Byte offset of the image data in the blob.
    pub start: int,
    /// Length of the image data.
    pub len: int,
}

/// The images found in the first `n` image slots, and the payload offset just
/// past the last of them.
pub open spec fn parse_images(b: Seq<u8>, n: nat) -> Result<(Seq<ImageSpan>, int), FirmwareParseError>
    decreases n,
{
    if n == 0 {
        Ok((Seq::empty(), 0))
    } else {
        match parse_images(b, (n - 1) as nat) {
            Err(e) => Err(e),
            Ok((spans, off)) => {
                let h = BLOB_HEADER_SIZE + off;
                if h + IMAGE_HEADER_SIZE > b.len() {
                    Err(FirmwareParseError::BufferTooSmall)
                } else {
                    match image_kind_spec(le_u32(b, h)) {
                        None => Err(FirmwareParseError::InvalidImageType),
                        Some(kind) => {
                            let len = le_u32(b, h + 4) as int;
                            let start = h + IMAGE_HEADER_SIZE;
                            if start + len > b.len() {
                                Err(FirmwareParseError::BufferTooSmall)
                            } else {
                                Ok((spans.push(ImageSpan { kind, start, len }), off + IMAGE_HEADER_SIZE + len))
                            }
                        },
                    }
                }
            },
        }
    }
}

/// What parsing a blob yields: the four image spans and the feature set, or
/// the first check that fails, in this order: header size, signature, feature
/// word, image count, each image in turn, total payload length.
pub open spec fn parse_spec(b: Seq<u8>) -> Result<(Seq<ImageSpan>, FeatureFlags), FirmwareParseError> {
    if b.len() < BLOB_HEADER_SIZE {
        Err(FirmwareParseError::BufferTooSmall)
    } else if le_u32(b, 0) != PATCH_SIGNATURE {
        Err(FirmwareParseError::InvalidSignature)
    } else {
        match feature_flags_spec(le_u32(b, 12)) {
            None => Err(FirmwareParseError::InvalidFeatureFlags(le_u32(b, 12))),
            Some(features) => if le_u32(b, 4) != PATCH_NUM_IMAGES {
                Err(FirmwareParseError::NotEnoughImages)
            } else {
                match parse_images(b, PATCH_NUM_IMAGES as nat) {
                    Err(e) => Err(e),
                    Ok((spans, off)) => if le_u32(b, 8) as int != off {
                        Err(FirmwareParseError::InvalidDataLength)
                    } else {
                        Ok((spans, features))
                    },
                }
            },
        }
    }
}

/// One image of a parsed blob, borrowed from it.
#[derive(Clone, Copy)]
pub struct FirmwareImage<'a> {
    pub data: &'a [u8],
    pub kind: ImageKind,
}

/// The co-processor address an image of this kind is loaded to.
pub open spec fn destination_spec(kind: ImageKind) -> u32 {
    match kind {
        ImageKind::UmacPrimary => RPU_MEM_UMAC_PATCH_BIMG,
        ImageKind::UmacSecondary => RPU_MEM_UMAC_PATCH_BIN,
        ImageKind::LmacPrimary => RPU_MEM_LMAC_PATCH_BIMG,
        ImageKind::LmacSecondary => RPU_MEM_LMAC_PATCH_BIN,
    }
}

/// The core that runs an image of this kind.
pub open spec fn processor_spec(kind: ImageKind) -> ProcessorType {
    match kind {
        ImageKind::UmacPrimary | ImageKind::UmacSecondary => ProcessorType::Umac,
        ImageKind::LmacPrimary | ImageKind::LmacSecondary => ProcessorType::Lmac,
    }
}

impl<'a> FirmwareImage<'a> {
    /// The co-processor address this image is loaded to.
    pub fn destination_address(&self) -> (r: u32)
        ensures
            r == destination_spec(self.kind),
    {
        match self.kind {
            ImageKind::UmacPrimary => RPU_MEM_UMAC_PATCH_BIMG,
            ImageKind::UmacSecondary => RPU_MEM_UMAC_PATCH_BIN,
            ImageKind::LmacPrimary => RPU_MEM_LMAC_PATCH_BIMG,
            ImageKind::LmacSecondary => RPU_MEM_LMAC_PATCH_BIN,
        }
    }

    /// The core that runs this image.
    pub fn processor(&self) -> (r: ProcessorType)
        ensures
            r == processor_spec(self.kind),
    {
        match self.kind {
            ImageKind::UmacPrimary | ImageKind::UmacSecondary => ProcessorType::Umac,
            ImageKind::LmacPrimary | ImageKind::LmacSecondary => ProcessorType::Lmac,
        }
    }
}

/// A parsed firmware blob.
pub struct FirmwareInfo<'a> {
    pub images: [Option<FirmwareImage<'a>>; 4],
    pub features: FeatureFlags,
}

/// `img` is the image that `span` describes in the blob `b`.
pub open spec fn image_matches(img: FirmwareImage, span: ImageSpan, b: Seq<u8>) -> bool {
    &&& img.kind == span.kind
    &&& img.data@ == b.subrange(span.start, span.start + span.len)
}

/// `info` holds exactly the images and features that `parsed` describes.
pub open spec fn info_matches(info: FirmwareInfo, parsed: (Seq<ImageSpan>, FeatureFlags), b: Seq<u8>) -> bool {
    &&& info.features == parsed.1
    &&& parsed.0.len() == 4
    &&& forall|k: int| 0 <= k < 4 ==> ((#[trigger] info.images@[k]) matches Some(img) && image_matches(img, parsed.0[k], b))
}

proof fn lemma_parse_images_bounds(b: Seq<u8>, n: nat)
    ensures
        match parse_images(b, n) {
            Ok((spans, off)) => {
                &&& spans.len() == n
                &&& 0 <= off
                &&& n > 0 ==> BLOB_HEADER_SIZE + off <= b.len()
                &&& forall|k: int| 0 <= k < n ==> 0 <= (#[trigger] spans[k]).start && spans[k].start + spans[k].len <= b.len()
                    && 0 <= spans[k].len
            },
            Err(_) => true,
        },
    decreases n,
{
    if n > 0 {
        lemma_parse_images_bounds(b, (n - 1) as nat);
        if let Ok((spans, off)) = parse_images(b, n) {
            let (prev, poff) = parse_images(b, (n - 1) as nat).unwrap();
            assert forall|k: int| 0 <= k < n implies 0 <= (#[trigger] spans[k]).start && spans[k].start + spans[k].len <= b.len()
                && 0 <= spans[k].len by {
                if k < n - 1 {
                    assert(spans[k] == prev[k]);
                }
            }
        }
    }
}

proof fn lemma_parse_images_err(b: Seq<u8>, m: nat, n: nat)
    requires
        m <= n,
    ensures
        parse_images(b, m) is Err ==> parse_images(b, n) == parse_images(b, m),
    decreases n - m,
{
    if m < n {
        lemma_parse_images_err(b, m, (n - 1) as nat);
    }
}

impl<'a> FirmwareInfo<'a> {
    /// Parses and validates a firmware blob. The images borrow from `blob`.
    pub fn read(blob: &'a [u8]) -> (r: Result<FirmwareInfo<'a>, Error>)
        ensures
            match (r, parse_spec(blob@)) {
                (Ok(info), Ok(parsed)) => info_matches(info, parsed, blob@),
                (Err(e), Err(pe)) => e == Error::FirmwareParseError(pe),
                _ => false,
            },
    {
        if blob.len() < BLOB_HEADER_SIZE {
            return Err(Error::FirmwareParseError(FirmwareParseError::BufferTooSmall));
        }
        let signature = read_le_u32(blob, 0);
        let number_of_images = read_le_u32(blob, 4);
        let data_length = read_le_u32(blob, 8);
        let feature_word = read_le_u32(blob, 12);
        if signature != PATCH_SIGNATURE {
            return Err(Error::FirmwareParseError(FirmwareParseError::InvalidSignature));
        }
        let features = match FeatureFlags::try_from_u32(feature_word) {
            Some(f) => f,
            None => {
                return Err(Error::FirmwareParseError(FirmwareParseError::InvalidFeatureFlags(feature_word)));
            },
        };
        if number_of_images != PATCH_NUM_IMAGES {
            return Err(Error::FirmwareParseError(FirmwareParseError::NotEnoughImages));
        }
        let mut images: Vec<FirmwareImage<'a>> = Vec::new();
        let mut data_offset: usize = 0;
        let mut i: usize = 0;
        while i < 4
            invariant
                0 <= i <= 4,
                match parse_images(blob@, i as nat) {
                    Ok((spans, off)) => {
                        &&& off == data_offset as int
                        &&& spans.len() == i
                        &&& images@.len() == i
                        &&& BLOB_HEADER_SIZE + off <= blob@.len()
                        &&& forall|k: int| 0 <= k < i ==> image_matches(#[trigger] images@[k], spans[k], blob@)
                    },
                    Err(_) => false,
                },
                parse_spec(blob@) == (match parse_images(blob@, PATCH_NUM_IMAGES as nat) {
                    Err(e) => Err(e),
                    Ok((spans, off)) => if data_length as int != off {
                        Err(FirmwareParseError::InvalidDataLength)
                    } else {
                        Ok((spans, features))
                    },
                }),
            decreases 4 - i,
        {
            proof {
                lemma_parse_images_bounds(blob@, i as nat);
                lemma_parse_images_err(blob@, (i + 1) as nat, 4);
            }
            let ghost prev = parse_images(blob@, i as nat);
            assert(blob@.len() == blob.len());
            let h = BLOB_HEADER_SIZE + data_offset;
            if blob.len() - h < IMAGE_HEADER_SIZE {
                return Err(Error::FirmwareParseError(FirmwareParseError::BufferTooSmall));
            }
            let kind = match ImageKind::try_from_u32(read_le_u32(blob, h)) {
                Some(k) => k,
                None => {
                    return Err(Error::FirmwareParseError(FirmwareParseError::InvalidImageType));
                },
            };
            let image_length = read_le_u32(blob, h + 4) as usize;
            let start = h + IMAGE_HEADER_SIZE;
            if blob.len() - start < image_length {
                return Err(Error::FirmwareParseError(FirmwareParseError::BufferTooSmall));
            }
            let data = slice_subrange(blob, start, start + image_length);
            images.push(FirmwareImage { data, kind });
            data_offset = data_offset + IMAGE_HEADER_SIZE + image_length;
            i = i + 1;
            proof {
                let (spans, off) = prev.unwrap();
                let next = parse_images(blob@, i as nat);
                assert(next == Ok::<(Seq<ImageSpan>, int), FirmwareParseError>((spans.push(ImageSpan { kind, start: start as int, len: image_length as int }), data_offset as int)));
                let (nspans, noff) = next.unwrap();
                assert forall|k: int| 0 <= k < i implies image_matches(#[trigger] images@[k], nspans[k], blob@) by {
                    if k < i - 1 {
                        assert(nspans[k] == spans[k]);
                    }
                }
            }
        }
        proof {
            lemma_parse_images_bounds(blob@, 4);
        }
        if data_length as usize != data_offset {
            return Err(Error::FirmwareParseError(FirmwareParseError::InvalidDataLength));
        }
        let info = FirmwareInfo {
            images: [Some(images[0]), Some(images[1]), Some(images[2]), Some(images[3])],
            features,
        };
        proof {
            let (spans, off) = parse_images(blob@, 4).unwrap();
            assert forall|k: int| 0 <= k < 4 implies ((#[trigger] info.images@[k]) matches Some(img) && image_matches(img, spans[k], blob@)) by {
                assert(info.images@[k] == Some(images@[k]));
            }
        }
        Ok(info)
    }
}

/// The firmware version word, one byte per field, most significant first.
#[derive(Debug, Clone, Copy, PartialEq, Eq, Structural)]
pub struct FirmwareVersion {
    pub version: u8,
    pub major: u8,
    pub minor: u8,
    pub extra: u8,
}

impl FirmwareVersion {
    /// The four bytes of a version word, most significant first.
    pub open spec fn from_u32_spec(v: u32) -> FirmwareVersion {
        FirmwareVersion {
            version: (v / 0x100_0000) as u8,
            major: ((v / 0x1_0000) % 0x100) as u8,
            minor: ((v / 0x100) % 0x100) as u8,
            extra: (v % 0x100) as u8,
        }
    }

    /// Splits a version word into its four bytes.
    pub fn from_u32(v: u32) -> (r: FirmwareVersion)
        ensures
            r == FirmwareVersion::from_u32_spec(v),
            r.version == v / 0x100_0000,
            r.major == (v / 0x1_0000) % 0x100,
            r.minor == (v / 0x100) % 0x100,
            r.extra == v % 0x100,
    {
        FirmwareVersion {
            version: (v / 0x100_0000) as u8,
            major: ((v / 0x1_0000) % 0x100) as u8,
            minor: ((v / 0x100) % 0x100) as u8,
            extra: (v % 0x100) as u8,
        }
    }
}

} // verus!

verus! {

/// One image as it lies in a blob: type word, length word, data.
pub open spec fn image_record(kind: u32, data: Seq<u8>) -> Seq<u8> {
    crate::bus::word_bytes_spec(kind) + crate::bus::word_bytes_spec(data.len() as u32) + data
}

/// The first `n` image records, back to back.
#[verifier::opaque]
pub open spec fn records(kinds: Seq<u32>, datas: Seq<Seq<u8>>, n: nat) -> Seq<u8>
    decreases n,
{
    if n == 0 {
        Seq::empty()
    } else {
        records(kinds, datas, (n - 1) as nat) + image_record(kinds[n - 1], datas[n - 1])
    }
}

/// The length of the first `n` image records.
pub open spec fn payload_len(datas: Seq<Seq<u8>>, n: nat) -> int
    decreases n,
{
    if n == 0 {
        0
    } else {
        payload_len(datas, (n - 1) as nat) + IMAGE_HEADER_SIZE + datas[n - 1].len()
    }
}

/// The fixed header of a blob.
pub open spec fn blob_header(signature: u32, count: u32, len: u32, features: u32) -> Seq<u8> {
    crate::bus::word_bytes_spec(signature) + crate::bus::word_bytes_spec(count) + crate::bus::word_bytes_spec(len)
        + crate::bus::word_bytes_spec(features)
}

/// A blob with the given signature, image count word and feature word, whose
/// payload is the four images `datas` tagged with `kinds`.
#[verifier::opaque]
pub open spec fn blob_spec(signature: u32, count: u32, features: u32, kinds: Seq<u32>, datas: Seq<Seq<u8>>) -> Seq<u8> {
    blob_header(signature, count, payload_len(datas, 4) as u32, features) + records(kinds, datas, 4)
}

/// The four images are well formed: known types, and a payload length that
/// fits its word.
pub open spec fn images_ok(kinds: Seq<u32>, datas: Seq<Seq<u8>>) -> bool {
    &&& kinds.len() == 4
    &&& datas.len() == 4
    &&& forall|i: int| 0 <= i < 4 ==> #[trigger] kinds[i] < 4
    &&& payload_len(datas, 4) < 0x1_0000_0000
}

proof fn lemma_le_u32_at(s: Seq<u8>, o: int, w: u32)
    requires
        0 <= o,
        o + 4 <= s.len(),
        s.subrange(o, o + 4) == crate::bus::word_bytes_spec(w),
    ensures
        le_u32(s, o) == w,
{
    crate::control::lemma_word_bytes_roundtrip(w);
    let b = crate::bus::word_bytes_spec(w);
    assert(s.subrange(o, o + 4)[0] == s[o]);
    assert(s.subrange(o, o + 4)[1] == s[o + 1]);
    assert(s.subrange(o, o + 4)[2] == s[o + 2]);
    assert(s.subrange(o, o + 4)[3] == s[o + 3]);
}

proof fn lemma_payload_len_mono(datas: Seq<Seq<u8>>, m: nat, n: nat)
    requires
        m <= n,
    ensures
        0 <= payload_len(datas, m) <= payload_len(datas, n),
    decreases n,
{
    if m < n {
        lemma_payload_len_mono(datas, m, (n - 1) as nat);
    } else if n > 0 {
        lemma_payload_len_mono(datas, (n - 1) as nat, (n - 1) as nat);
    }
}

proof fn lemma_records_len(kinds: Seq<u32>, datas: Seq<Seq<u8>>, n: nat)
    ensures
        records(kinds, datas, n).len() == payload_len(datas, n),
        n > 0 ==> records(kinds, datas, n) == records(kinds, datas, (n - 1) as nat) + image_record(
            kinds[n - 1],
            datas[n - 1],
        ),
    decreases n,
{
    reveal(records);
    if n > 0 {
        lemma_records_len(kinds, datas, (n - 1) as nat);
    }
}

proof fn lemma_records_prefix(kinds: Seq<u32>, datas: Seq<Seq<u8>>, m: nat, n: nat)
    requires
        m <= n,
    ensures
        records(kinds, datas, n).subrange(0, payload_len(datas, m)) == records(kinds, datas, m),
    decreases n,
{
    lemma_records_len(kinds, datas, m);
    lemma_records_len(kinds, datas, n);
    if m < n {
        lemma_records_prefix(kinds, datas, m, (n - 1) as nat);
        lemma_records_len(kinds, datas, (n - 1) as nat);
        lemma_payload_len_mono(datas, m, (n - 1) as nat);
        let r = records(kinds, datas, (n - 1) as nat);
        assert(records(kinds, datas, n).subrange(0, payload_len(datas, m)) =~= r.subrange(0, payload_len(datas, m)));
    } else {
        assert(records(kinds, datas, n).subrange(0, payload_len(datas, m)) =~= records(kinds, datas, n));
    }
}

/// Record `p` of a blob lies right after the records before it.
proof fn lemma_record_in_blob(signature: u32, count: u32, features: u32, kinds: Seq<u32>, datas: Seq<Seq<u8>>, p: nat)
    requires
        images_ok(kinds, datas),
        p < 4,
    ensures
        ({
            let b = blob_spec(signature, count, features, kinds, datas);
            let h = BLOB_HEADER_SIZE + payload_len(datas, p);
            &&& b.len() == BLOB_HEADER_SIZE + payload_len(datas, 4)
            &&& h + IMAGE_HEADER_SIZE + datas[p as int].len() <= b.len()
            &&& b.subrange(h, h + IMAGE_HEADER_SIZE + datas[p as int].len()) == image_record(kinds[p as int], datas[p as int])
        }),
{
    reveal(blob_spec);
    let b = blob_spec(signature, count, features, kinds, datas);
    let all = records(kinds, datas, 4);
    let head = blob_header(signature, count, payload_len(datas, 4) as u32, features);
    lemma_records_len(kinds, datas, 4);
    lemma_records_len(kinds, datas, p + 1);
    lemma_records_len(kinds, datas, p);
    lemma_records_prefix(kinds, datas, p + 1, 4);
    lemma_payload_len_mono(datas, p + 1, 4);
    lemma_payload_len_mono(datas, p, p + 1);
    let h = BLOB_HEADER_SIZE + payload_len(datas, p);
    let rec = image_record(kinds[p as int], datas[p as int]);
    let upto = records(kinds, datas, p + 1);
    assert(head.len() == 16);
    assert forall|j: int| 0 <= j < rec.len() implies b.subrange(h, h + IMAGE_HEADER_SIZE + datas[p as int].len())[j]
        == rec[j] by {
        assert(b[h + j] == all[payload_len(datas, p) + j]);
        assert(all.subrange(0, payload_len(datas, p + 1))[payload_len(datas, p) + j] == upto[payload_len(datas, p) + j]);
    }
    assert(b.subrange(h, h + IMAGE_HEADER_SIZE + datas[p as int].len()) =~= rec);
}

/// The span image `k` of a well-formed blob occupies.
pub open spec fn expected_span(kinds: Seq<u32>, datas: Seq<Seq<u8>>, k: int) -> ImageSpan {
    ImageSpan {
        kind: image_kind_spec(kinds[k])->Some_0,
        start: BLOB_HEADER_SIZE + payload_len(datas, k as nat) + IMAGE_HEADER_SIZE,
        len: datas[k].len() as int,
    }
}

proof fn lemma_parse_records(signature: u32, count: u32, features: u32, kinds: Seq<u32>, datas: Seq<Seq<u8>>, n: nat)
    requires
        images_ok(kinds, datas),
        n <= 4,
    ensures
        ({
            let b = blob_spec(signature, count, features, kinds, datas);
            &&& parse_images(b, n) matches Ok((spans, off))
            &&& off == payload_len(datas, n)
            &&& spans.len() == n
            &&& forall|k: int| 0 <= k < n ==> #[trigger] spans[k] == expected_span(kinds, datas, k)
        }),
    decreases n,
{
    let b = blob_spec(signature, count, features, kinds, datas);
    if n > 0 {
        let p = (n - 1) as nat;
        lemma_parse_records(signature, count, features, kinds, datas, p);
        lemma_record_in_blob(signature, count, features, kinds, datas, p);
        lemma_payload_len_mono(datas, 0, p);
        let (spans, off) = parse_images(b, p).unwrap();
        let rec = image_record(kinds[p as int], datas[p as int]);
        let h = BLOB_HEADER_SIZE + off;
        let sub = b.subrange(h, h + IMAGE_HEADER_SIZE + datas[p as int].len());
        assert(b.subrange(h, h + 4) =~= sub.subrange(0, 4));
        assert(rec.subrange(0, 4) =~= crate::bus::word_bytes_spec(kinds[p as int]));
        lemma_le_u32_at(b, h, kinds[p as int]);
        assert(b.subrange(h + 4, h + 8) =~= sub.subrange(4, 8));
        assert(rec.subrange(4, 8) =~= crate::bus::word_bytes_spec(datas[p as int].len() as u32));
        lemma_le_u32_at(b, h + 4, datas[p as int].len() as u32);
        assert(kinds[p as int] < 4);
        let (nspans, noff) = parse_images(b, n).unwrap();
        assert forall|k: int| 0 <= k < n implies #[trigger] nspans[k] == expected_span(kinds, datas, k) by {
            if k < p {
                assert(nspans[k] == spans[k]);
            }
        }
    }
}

proof fn lemma_header_words(signature: u32, count: u32, features: u32, kinds: Seq<u32>, datas: Seq<Seq<u8>>)
    requires
        images_ok(kinds, datas),
    ensures
        ({
            let b = blob_spec(signature, count, features, kinds, datas);
            &&& b.len() == BLOB_HEADER_SIZE + payload_len(datas, 4)
            &&& le_u32(b, 0) == signature
            &&& le_u32(b, 4) == count
            &&& le_u32(b, 8) == payload_len(datas, 4)
            &&& le_u32(b, 12) == features
        }),
{
    reveal(blob_spec);
    let b = blob_spec(signature, count, features, kinds, datas);
    lemma_records_len(kinds, datas, 4);
    lemma_payload_len_mono(datas, 0, 4);
    let head = blob_header(signature, count, payload_len(datas, 4) as u32, features);
    assert(b.subrange(0, 4) =~= head.subrange(0, 4));
    assert(b.subrange(4, 8) =~= head.subrange(4, 8));
    assert(b.subrange(8, 12) =~= head.subrange(8, 12));
    assert(b.subrange(12, 16) =~= head.subrange(12, 16));
    assert(head.subrange(0, 4) =~= crate::bus::word_bytes_spec(signature));
    assert(head.subrange(4, 8) =~= crate::bus::word_bytes_spec(count));
    assert(head.subrange(8, 12) =~= crate::bus::word_bytes_spec(payload_len(datas, 4) as u32));
    assert(head.subrange(12, 16) =~= crate::bus::word_bytes_spec(features));
    lemma_le_u32_at(b, 0, signature);
    lemma_le_u32_at(b, 4, count);
    lemma_le_u32_at(b, 8, payload_len(datas, 4) as u32);
    lemma_le_u32_at(b, 12, features);
}

/// A blob built from four well-formed images, the right signature and count,
/// and a known feature word parses into exactly those images: their kinds,
/// lengths and bytes, in order.
pub proof fn lemma_parse_valid_blob(features: u32, kinds: Seq<u32>, datas: Seq<Seq<u8>>)
    requires
        images_ok(kinds, datas),
        feature_flags_spec(features) is Some,
    ensures
        ({
            let b = blob_spec(PATCH_SIGNATURE, PATCH_NUM_IMAGES, features, kinds, datas);
            &&& parse_spec(b) matches Ok((spans, f))
            &&& f == feature_flags_spec(features)->Some_0
            &&& spans.len() == 4
            &&& forall|k: int| 0 <= k < 4 ==> {
                &&& (#[trigger] spans[k]).kind == image_kind_spec(kinds[k])->Some_0
                &&& spans[k].len == datas[k].len()
                &&& b.subrange(spans[k].start, spans[k].start + spans[k].len) == datas[k]
            }
        }),
{
    let b = blob_spec(PATCH_SIGNATURE, PATCH_NUM_IMAGES, features, kinds, datas);
    lemma_header_words(PATCH_SIGNATURE, PATCH_NUM_IMAGES, features, kinds, datas);
    lemma_parse_records(PATCH_SIGNATURE, PATCH_NUM_IMAGES, features, kinds, datas, 4);
    let (spans, off) = parse_images(b, 4).unwrap();
    assert forall|k: int| 0 <= k < 4 implies b.subrange(spans[k].start, spans[k].start + spans[k].len) == datas[k] by {
        assert(spans[k] == expected_span(kinds, datas, k));
        lemma_image_bytes(PATCH_SIGNATURE, PATCH_NUM_IMAGES, features, kinds, datas, k as nat);
    }
}

proof fn lemma_image_bytes(signature: u32, count: u32, features: u32, kinds: Seq<u32>, datas: Seq<Seq<u8>>, p: nat)
    requires
        images_ok(kinds, datas),
        p < 4,
    ensures
        ({
            let b = blob_spec(signature, count, features, kinds, datas);
            let s = BLOB_HEADER_SIZE + payload_len(datas, p) + IMAGE_HEADER_SIZE;
            b.subrange(s, s + datas[p as int].len()) == datas[p as int]
        }),
{
    lemma_record_in_blob(signature, count, features, kinds, datas, p);
    lemma_payload_len_mono(datas, 0, p);
    let b = blob_spec(signature, count, features, kinds, datas);
    let h = BLOB_HEADER_SIZE + payload_len(datas, p);
    let l = datas[p as int].len();
    let rec = image_record(kinds[p as int], datas[p as int]);
    let sub = b.subrange(h, h + IMAGE_HEADER_SIZE + l);
    assert forall|j: int| 0 <= j < l implies b.subrange(h + 8, h + 8 + l)[j] == datas[p as int][j] by {
        assert(sub[8 + j] == b[h + 8 + j]);
        assert(rec[8 + j] == datas[p as int][j]);
    }
    assert(b.subrange(h + 8, h + 8 + l) =~= datas[p as int]);
}

/// A blob whose signature word is wrong is rejected for its signature.
pub proof fn lemma_wrong_signature(signature: u32, features: u32, kinds: Seq<u32>, datas: Seq<Seq<u8>>)
    requires
        images_ok(kinds, datas),
        signature != PATCH_SIGNATURE,
    ensures
        parse_spec(blob_spec(signature, PATCH_NUM_IMAGES, features, kinds, datas)) == Err::<
            (Seq<ImageSpan>, FeatureFlags),
            FirmwareParseError,
        >(FirmwareParseError::InvalidSignature),
{
    lemma_header_words(signature, PATCH_NUM_IMAGES, features, kinds, datas);
}

/// A blob with a known feature word whose image count word is not four is
/// rejected for its count.
pub proof fn lemma_wrong_image_count(count: u32, features: u32, kinds: Seq<u32>, datas: Seq<Seq<u8>>)
    requires
        images_ok(kinds, datas),
        feature_flags_spec(features) is Some,
        count != PATCH_NUM_IMAGES,
    ensures
        parse_spec(blob_spec(PATCH_SIGNATURE, count, features, kinds, datas)) == Err::<
            (Seq<ImageSpan>, FeatureFlags),
            FirmwareParseError,
        >(FirmwareParseError::NotEnoughImages),
{
    lemma_header_words(PATCH_SIGNATURE, count, features, kinds, datas);
}

proof fn lemma_prefix_word(b: Seq<u8>, l: int, o: int)
    requires
        0 <= o,
        o + 4 <= l <= b.len(),
    ensures
        le_u32(b.subrange(0, l), o) == le_u32(b, o),
{
    let t = b.subrange(0, l);
    assert(t[o] == b[o] && t[o + 1] == b[o + 1] && t[o + 2] == b[o + 2] && t[o + 3] == b[o + 3]);
}

proof fn lemma_truncated_images(features: u32, kinds: Seq<u32>, datas: Seq<Seq<u8>>, l: int, n: nat)
    requires
        images_ok(kinds, datas),
        BLOB_HEADER_SIZE <= l,
        n <= 4,
    ensures
        ({
            let b = blob_spec(PATCH_SIGNATURE, PATCH_NUM_IMAGES, features, kinds, datas);
            l < b.len() ==> parse_images(b.subrange(0, l), n) == if BLOB_HEADER_SIZE + payload_len(datas, n) <= l {
                parse_images(b, n)
            } else {
                Err(FirmwareParseError::BufferTooSmall)
            }
        }),
    decreases n,
{
    let b = blob_spec(PATCH_SIGNATURE, PATCH_NUM_IMAGES, features, kinds, datas);
    let t = b.subrange(0, l);
    if n > 0 && l < b.len() {
        let p = (n - 1) as nat;
        lemma_truncated_images(features, kinds, datas, l, p);
        lemma_parse_records(PATCH_SIGNATURE, PATCH_NUM_IMAGES, features, kinds, datas, p);
        lemma_parse_records(PATCH_SIGNATURE, PATCH_NUM_IMAGES, features, kinds, datas, n);
        lemma_record_in_blob(PATCH_SIGNATURE, PATCH_NUM_IMAGES, features, kinds, datas, p);
        lemma_payload_len_mono(datas, 0, p);
        let h = BLOB_HEADER_SIZE + payload_len(datas, p);
        if h <= l && h + IMAGE_HEADER_SIZE <= l {
            lemma_prefix_word(b, l, h);
            lemma_prefix_word(b, l, h + 4);
            let rec = image_record(kinds[p as int], datas[p as int]);
            let sub = b.subrange(h, h + IMAGE_HEADER_SIZE + datas[p as int].len());
            assert(b.subrange(h, h + 4) =~= sub.subrange(0, 4));
            assert(rec.subrange(0, 4) =~= crate::bus::word_bytes_spec(kinds[p as int]));
            lemma_le_u32_at(b, h, kinds[p as int]);
            assert(b.subrange(h + 4, h + 8) =~= sub.subrange(4, 8));
            assert(rec.subrange(4, 8) =~= crate::bus::word_bytes_spec(datas[p as int].len() as u32));
            lemma_le_u32_at(b, h + 4, datas[p as int].len() as u32);
        }
    }
}

/// A well-formed blob cut short anywhere after its header is rejected as too
/// small.
pub proof fn lemma_truncated_blob(features: u32, kinds: Seq<u32>, datas: Seq<Seq<u8>>, l: int)
    requires
        images_ok(kinds, datas),
        feature_flags_spec(features) is Some,
        BLOB_HEADER_SIZE <= l < blob_spec(PATCH_SIGNATURE, PATCH_NUM_IMAGES, features, kinds, datas).len(),
    ensures
        parse_spec(blob_spec(PATCH_SIGNATURE, PATCH_NUM_IMAGES, features, kinds, datas).subrange(0, l)) == Err::<
            (Seq<ImageSpan>, FeatureFlags),
            FirmwareParseError,
        >(FirmwareParseError::BufferTooSmall),
{
    let b = blob_spec(PATCH_SIGNATURE, PATCH_NUM_IMAGES, features, kinds, datas);
    lemma_header_words(PATCH_SIGNATURE, PATCH_NUM_IMAGES, features, kinds, datas);
    lemma_prefix_word(b, l, 0);
    lemma_prefix_word(b, l, 4);
    lemma_prefix_word(b, l, 8);
    lemma_prefix_word(b, l, 12);
    lemma_truncated_images(features, kinds, datas, l, 4);
}

proof fn lemma_extended_images(b: Seq<u8>, ext: Seq<u8>, n: nat)
    requires
        ext.len() >= b.len(),
        ext.subrange(0, b.len() as int) == b,
        parse_images(b, n) is Ok,
    ensures
        parse_images(ext, n) == parse_images(b, n),
    decreases n,
{
    if n > 0 {
        let p = (n - 1) as nat;
        lemma_parse_images_err(b, p, n);
        lemma_extended_images(b, ext, p);
        lemma_parse_images_bounds(b, p);
        let (spans, off) = parse_images(b, p).unwrap();
        let h = BLOB_HEADER_SIZE + off;
        lemma_prefix_word(ext, b.len() as int, h);
        lemma_prefix_word(ext, b.len() as int, h + 4);
    }
}

/// A well-formed blob followed by any bytes parses as the blob alone: the
/// same four images, kinds, lengths and bytes, and the same features.
pub proof fn lemma_parse_valid_blob_with_trailer(features: u32, kinds: Seq<u32>, datas: Seq<Seq<u8>>, trailer: Seq<u8>)
    requires
        images_ok(kinds, datas),
        feature_flags_spec(features) is Some,
    ensures
        ({
            let b = blob_spec(PATCH_SIGNATURE, PATCH_NUM_IMAGES, features, kinds, datas);
            let ext = b + trailer;
            &&& parse_spec(ext) == parse_spec(b)
            &&& parse_spec(ext) matches Ok((spans, f))
            &&& f == feature_flags_spec(features)->Some_0
            &&& spans.len() == 4
            &&& forall|k: int| 0 <= k < 4 ==> {
                &&& (#[trigger] spans[k]).kind == image_kind_spec(kinds[k])->Some_0
                &&& spans[k].len == datas[k].len()
                &&& ext.subrange(spans[k].start, spans[k].start + spans[k].len) == datas[k]
            }
        }),
{
    let b = blob_spec(PATCH_SIGNATURE, PATCH_NUM_IMAGES, features, kinds, datas);
    let ext = b + trailer;
    lemma_parse_valid_blob(features, kinds, datas);
    lemma_header_words(PATCH_SIGNATURE, PATCH_NUM_IMAGES, features, kinds, datas);
    assert(ext.subrange(0, b.len() as int) =~= b);
    lemma_prefix_word(ext, b.len() as int, 0);
    lemma_prefix_word(ext, b.len() as int, 4);
    lemma_prefix_word(ext, b.len() as int, 8);
    lemma_prefix_word(ext, b.len() as int, 12);
    lemma_parse_records(PATCH_SIGNATURE, PATCH_NUM_IMAGES, features, kinds, datas, 4);
    lemma_extended_images(b, ext, 4);
    let (spans, f) = parse_spec(b).unwrap();
    assert forall|k: int| 0 <= k < 4 implies ext.subrange(spans[k].start, spans[k].start + spans[k].len) == datas[k] by {
        lemma_parse_images_bounds(b, 4);
        assert(ext.subrange(spans[k].start, spans[k].start + spans[k].len) =~= b.subrange(
            spans[k].start,
            spans[k].start + spans[k].len,
        ));
    }
}

} // verus!
