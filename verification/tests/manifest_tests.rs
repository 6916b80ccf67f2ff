use rescue_proto::manifest::CHIP_MANIFEST_EXT_TABLE_COUNT;
use rescue_proto::manifest::Manifest;
use rescue_proto::manifest::ManifestError;
use rescue_proto::manifest::ManifestExtEntryVar;
use rescue_proto::manifest::ManifestExtTableEntryDef;
use rescue_proto::manifest::ManifestSigverifyBuffer;
use rescue_proto::manifest::ManifestSpec;
use rescue_proto::manifest::ManifestUsageConstraintsDef;
use rescue_proto::manifest::ManifestVersionDef;
use rescue_proto::manifest::le_bytes_to_word_arr;
use rescue_proto::manifest::words_to_le_bytes;
use rescue_proto::manifest::le_slice_to_arr;

fn empty_spec() -> ManifestSpec {
    ManifestSpec {
        signature: None,
        usage_constraints: ManifestUsageConstraintsDef {
            selector_bits: None,
            device_id: [None; 8],
            manuf_state_creator: None,
            manuf_state_owner: None,
            life_cycle_state: None,
        },
        pub_key: None,
        address_translation: None,
        identifier: None,
        manifest_version: ManifestVersionDef { minor: None, major: None },
        signed_region_end: None,
        length: None,
        version_major: None,
        version_minor: None,
        security_version: None,
        timestamp: [None; 2],
        binding_value: [None; 8],
        max_key_version: None,
        code_start: None,
        code_end: None,
        entry_point: None,
        extensions: vec![
            ManifestExtTableEntryDef(ManifestExtEntryVar::Empty);
            CHIP_MANIFEST_EXT_TABLE_COUNT
        ],
    }
}

fn full_spec() -> ManifestSpec {
    let mut s = empty_spec();
    s.signature = Some(ManifestSigverifyBuffer::new(vec![0x11, 0x22, 0x33, 0x44, 0x55]));
    s.usage_constraints.selector_bits = Some(0xA5);
    s.usage_constraints.device_id = [Some(10), Some(11), Some(12), Some(13), Some(14), Some(15), Some(16), Some(17)];
    s.usage_constraints.manuf_state_creator = Some(1);
    s.usage_constraints.manuf_state_owner = Some(2);
    s.usage_constraints.life_cycle_state = Some(3);
    s.pub_key = Some(ManifestSigverifyBuffer::new(vec![0xAA, 0xBB]));
    s.address_translation = Some(0x739);
    s.identifier = Some(0x4552_4f54);
    s.manifest_version = ManifestVersionDef { minor: Some(2), major: Some(1) };
    s.signed_region_end = Some(0x1000);
    s.length = Some(0x2000);
    s.version_major = Some(3);
    s.version_minor = Some(4);
    s.security_version = Some(5);
    s.timestamp = [Some(0xDEAD), Some(0xBEEF)];
    s.binding_value = [Some(0), Some(1), Some(2), Some(3), Some(4), Some(5), Some(6), Some(7)];
    s.max_key_version = Some(6);
    s.code_start = Some(0x400);
    s.code_end = Some(0x1400);
    s.entry_point = Some(0x480);
    s.extensions[0] = ManifestExtTableEntryDef(ManifestExtEntryVar::IdOffset {
        identifier: 0x6902,
        offset: 0x100,
    });
    s.extensions[1] = ManifestExtTableEntryDef(ManifestExtEntryVar::Name(0x7777));
    s
}

#[test]
fn test_manifest_overwrite() {
    let mut base = full_spec();
    let mut other = empty_spec();
    other.identifier = Some(0xabcd);
    other.binding_value = [Some(0), Some(1), Some(2), Some(3), Some(4), Some(5), Some(6), Some(7)];
    base.overwrite_fields(other);
    assert_eq!(base.identifier, Some(0xabcd));
    let bv: Vec<u32> = base.binding_value.iter().map(|v| v.unwrap()).collect();
    assert_eq!(bv, vec![0, 1, 2, 3, 4, 5, 6, 7]);
    // Unspecified fields are not overwritten.
    assert_eq!(base.address_translation, Some(0x739));
}

#[test]
fn overwrite_skips_partially_present_arrays() {
    let mut base = full_spec();
    let mut other = empty_spec();
    other.timestamp = [Some(1), None];
    other.binding_value = [Some(1), Some(2), Some(3), None, Some(5), Some(6), Some(7), Some(8)];
    base.overwrite_fields(other);
    assert_eq!(base.timestamp, [Some(0xDEAD), Some(0xBEEF)]);
    assert_eq!(base.binding_value[3], Some(3));
}

#[test]
fn overwrite_keeps_placed_extension_over_bare_identifier() {
    let mut base = full_spec();
    let mut other = empty_spec();
    // A bare identifier matching an already-placed entry does not displace
    // its offset; a different identifier does.
    other.extensions[0] = ManifestExtTableEntryDef(ManifestExtEntryVar::Name(0x6902));
    other.extensions[1] = ManifestExtTableEntryDef(ManifestExtEntryVar::Name(0x8888));
    other.extensions[2] = ManifestExtTableEntryDef(ManifestExtEntryVar::IdOffset {
        identifier: 0x9999,
        offset: 0x200,
    });
    base.overwrite_fields(other);
    assert_eq!(
        base.extensions[0].0,
        ManifestExtEntryVar::IdOffset { identifier: 0x6902, offset: 0x100 }
    );
    assert_eq!(base.extensions[1].0, ManifestExtEntryVar::Name(0x8888));
    assert_eq!(
        base.extensions[2].0,
        ManifestExtEntryVar::IdOffset { identifier: 0x9999, offset: 0x200 }
    );
    // An absent entry changes nothing.
    assert_eq!(base.extensions[3].0, ManifestExtEntryVar::Empty);
}

#[test]
fn unpack_names_the_first_missing_field() {
    let s = empty_spec();
    match s.unpack() {
        Err(ManifestError::MissingField(n)) => assert_eq!(n, "signature"),
        other => panic!("expected missing field, got {other:?}"),
    }

    let mut s2 = full_spec();
    s2.length = None;
    match s2.unpack() {
        Err(ManifestError::MissingField(n)) => assert_eq!(n, "length"),
        other => panic!("expected missing field, got {other:?}"),
    }

    let mut s3 = full_spec();
    s3.usage_constraints.device_id[5] = None;
    match s3.unpack() {
        Err(ManifestError::MissingField(n)) => assert_eq!(n, "device_id"),
        other => panic!("expected missing field, got {other:?}"),
    }
}

#[test]
fn unpack_packs_every_field() {
    let m: Manifest = full_spec().unpack().unwrap();
    assert_eq!(m.identifier, 0x4552_4f54);
    assert_eq!(m.address_translation, 0x739);
    assert_eq!(m.manifest_version.major, 1);
    assert_eq!(m.manifest_version.minor, 2);
    assert_eq!(m.length, 0x2000);
    assert_eq!(m.timestamp.timestamp_low, 0xDEAD);
    assert_eq!(m.timestamp.timestamp_high, 0xBEEF);
    assert_eq!(m.usage_constraints.selector_bits, 0xA5);
    assert_eq!(m.usage_constraints.device_id.device_id, vec![10, 11, 12, 13, 14, 15, 16, 17]);
    assert_eq!(m.binding_value.data, vec![0, 1, 2, 3, 4, 5, 6, 7]);

    // The signature bytes pack little-endian into 96 words, zero-padded.
    assert_eq!(m.signature.data.len(), 96);
    assert_eq!(m.signature.data[0], 0x44332211);
    assert_eq!(m.signature.data[1], 0x00000055);
    assert!(m.signature.data[2..].iter().all(|w| *w == 0));
    assert_eq!(m.pub_key.data[0], 0x0000BBAA);

    // Extension entries: a placed entry keeps its offset, a bare
    // identifier sits at offset zero, an absent entry is all zero.
    assert_eq!(m.extensions.entries.len(), CHIP_MANIFEST_EXT_TABLE_COUNT);
    assert_eq!(m.extensions.entries[0].identifier, 0x6902);
    assert_eq!(m.extensions.entries[0].offset, 0x100);
    assert_eq!(m.extensions.entries[1].identifier, 0x7777);
    assert_eq!(m.extensions.entries[1].offset, 0);
    assert_eq!(m.extensions.entries[2].identifier, 0);

    assert!(full_spec().has_length());
    assert!(!empty_spec().has_length());
}

#[test]
fn signature_accessors_round_trip() {
    let mut s = empty_spec();
    assert!(s.signature().is_none());
    assert!(s.pub_key().is_none());
    s.update_signature(ManifestSigverifyBuffer::new(vec![1, 2, 3]));
    s.update_pub_key(ManifestSigverifyBuffer::new(vec![4, 5]));
    assert_eq!(s.signature().unwrap().bytes, vec![1, 2, 3]);
    assert_eq!(s.pub_key().unwrap().bytes, vec![4, 5]);
}

#[test]
fn test_manifest_convert() {
    // Packing a description, rebuilding a description from the packed
    // record, and packing again yields the identical record.
    let bin1: Manifest = full_spec().unpack().unwrap();
    let redef: ManifestSpec = ManifestSpec::from_manifest(&bin1);
    let rebin: Manifest = redef.unpack().unwrap();
    assert_eq!(bin1, rebin);
    // The rebuilt description is fully present: every entry of the
    // extension table is placed, bare identifiers at offset zero.
    assert_eq!(
        ManifestSpec::from_manifest(&bin1).extensions[1].0,
        ManifestExtEntryVar::IdOffset { identifier: 0x7777, offset: 0 }
    );
}

#[test]
fn words_serialize_little_endian_and_round_trip() {
    let words = vec![0x12345678u32, 0x000000FF];
    let bytes = words_to_le_bytes(&words);
    assert_eq!(bytes, vec![0x78, 0x56, 0x34, 0x12, 0xFF, 0x00, 0x00, 0x00]);
    assert_eq!(le_bytes_to_word_arr(&bytes, 2), words);
}

#[test]
fn word_packing_helpers_pad_with_zeros() {
    assert_eq!(le_bytes_to_word_arr(&[1, 0, 0, 0, 2], 3), vec![1, 2, 0]);
    assert_eq!(le_bytes_to_word_arr(&[], 2), vec![0, 0]);
    assert_eq!(
        le_bytes_to_word_arr(&[0x78, 0x56, 0x34, 0x12], 1),
        vec![0x12345678]
    );
    assert_eq!(le_slice_to_arr(&[7, 8], 4), vec![7, 8, 0, 0]);
}
