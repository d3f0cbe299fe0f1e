use nrf70::firmware::{FeatureFlags, FirmwareInfo, FirmwareVersion, ImageKind, PATCH_SIGNATURE};
use nrf70::memory::ProcessorType;
use nrf70::{Error, FirmwareParseError};

fn blob(signature: u32, count: u32, features: u32, images: &[(u32, Vec<u8>)], declared: Option<u32>) -> Vec<u8> {
    let payload: usize = images.iter().map(|(_, d)| 8 + d.len()).sum();
    let mut b = Vec::new();
    b.extend_from_slice(&signature.to_le_bytes());
    b.extend_from_slice(&count.to_le_bytes());
    b.extend_from_slice(&declared.unwrap_or(payload as u32).to_le_bytes());
    b.extend_from_slice(&features.to_le_bytes());
    for (kind, data) in images {
        b.extend_from_slice(&kind.to_le_bytes());
        b.extend_from_slice(&(data.len() as u32).to_le_bytes());
        b.extend_from_slice(data);
    }
    b
}

fn four_images() -> Vec<(u32, Vec<u8>)> {
    vec![(0, vec![1u8; 8]), (1, vec![2u8; 12]), (2, vec![3u8; 4]), (3, vec![4u8; 20])]
}

#[test]
fn valid_blob_round_trips() {
    let b = blob(PATCH_SIGNATURE, 4, 1, &four_images(), None);
    let info = FirmwareInfo::read(&b).unwrap();
    assert_eq!(info.features, FeatureFlags::SystemMode);
    let kinds = [ImageKind::UmacPrimary, ImageKind::UmacSecondary, ImageKind::LmacPrimary, ImageKind::LmacSecondary];
    let lens = [8, 12, 4, 20];
    let fill = [1u8, 2, 3, 4];
    for i in 0..4 {
        let img = info.images[i].unwrap();
        assert_eq!(img.kind, kinds[i]);
        assert_eq!(img.data.len(), lens[i]);
        assert!(img.data.iter().all(|&x| x == fill[i]));
    }
}

#[test]
fn wrong_signature_is_rejected() {
    let b = blob(0x1234_5678, 4, 1, &four_images(), None);
    assert_eq!(FirmwareInfo::read(&b).err(), Some(Error::FirmwareParseError(FirmwareParseError::InvalidSignature)));
}

#[test]
fn wrong_image_count_is_rejected() {
    let b = blob(PATCH_SIGNATURE, 3, 1, &four_images(), None);
    assert_eq!(FirmwareInfo::read(&b).err(), Some(Error::FirmwareParseError(FirmwareParseError::NotEnoughImages)));
}

#[test]
fn truncated_payload_is_rejected() {
    let mut b = blob(PATCH_SIGNATURE, 4, 1, &four_images(), None);
    b.truncate(b.len() - 5);
    assert_eq!(FirmwareInfo::read(&b).err(), Some(Error::FirmwareParseError(FirmwareParseError::BufferTooSmall)));
}

#[test]
fn short_header_is_rejected() {
    let b = vec![0u8; 15];
    assert_eq!(FirmwareInfo::read(&b).err(), Some(Error::FirmwareParseError(FirmwareParseError::BufferTooSmall)));
}

#[test]
fn length_mismatch_is_rejected() {
    let b = blob(PATCH_SIGNATURE, 4, 1, &four_images(), Some(7));
    assert_eq!(FirmwareInfo::read(&b).err(), Some(Error::FirmwareParseError(FirmwareParseError::InvalidDataLength)));
}

#[test]
fn unknown_image_type_is_rejected() {
    let mut images = four_images();
    images[2].0 = 9;
    let b = blob(PATCH_SIGNATURE, 4, 1, &images, None);
    assert_eq!(FirmwareInfo::read(&b).err(), Some(Error::FirmwareParseError(FirmwareParseError::InvalidImageType)));
}

#[test]
fn bad_feature_flags_are_rejected() {
    let b = blob(PATCH_SIGNATURE, 4, 3, &four_images(), None);
    assert_eq!(FirmwareInfo::read(&b).err(), Some(Error::FirmwareParseError(FirmwareParseError::InvalidFeatureFlags(3))));
}

#[test]
fn image_destinations_and_cores() {
    let b = blob(PATCH_SIGNATURE, 4, 2, &four_images(), None);
    let info = FirmwareInfo::read(&b).unwrap();
    let umac = info.images[0].unwrap();
    assert_eq!(umac.processor(), ProcessorType::Umac);
    assert_eq!(umac.destination_address(), 0x8009_9400);
    let lmac = info.images[3].unwrap();
    assert_eq!(lmac.processor(), ProcessorType::Lmac);
    assert_eq!(lmac.destination_address(), 0x8004_4000);
}

#[test]
fn version_word_splits_into_bytes() {
    let v = FirmwareVersion::from_u32(0x0102_0304);
    assert_eq!((v.version, v.major, v.minor, v.extra), (1, 2, 3, 4));
}

#[test]
fn parse_error_messages() {
    assert_eq!(FirmwareParseError::InvalidSignature.message(), "invalid signature");
    assert_eq!(FirmwareParseError::InvalidFeatureFlags(3).message(), "invalid feature flags");
}

#[test]
fn feature_word_is_checked_before_image_count() {
    let b = blob(PATCH_SIGNATURE, 3, 6, &four_images(), None);
    assert_eq!(FirmwareInfo::read(&b).err(), Some(Error::FirmwareParseError(FirmwareParseError::InvalidFeatureFlags(6))));
}

#[test]
fn trailing_bytes_are_ignored() {
    let mut b = blob(PATCH_SIGNATURE, 4, 1, &four_images(), None);
    b.extend_from_slice(&[0xFF; 7]);
    let info = FirmwareInfo::read(&b).unwrap();
    assert_eq!(info.images[3].unwrap().data.len(), 20);
}
