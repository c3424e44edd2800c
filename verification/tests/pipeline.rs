use finality_selendra::block::{BlockHash, BlockId, Header};
use finality_selendra::compatibility::{
    backwards_compatible_decode, decode_message, decode_versioned, encode_message,
    encode_with_version, reads_version, DecodeError, VersionedJustification, CURRENT_VERSION,
    LEGACY_VERSION, MAX_PAYLOAD,
};
use finality_selendra::import::{
    effective_origin, same_engine, translate_with_header, BlockOrigin, JustificationTranslator,
    SelendraBlockImport, SendJustificationError, TranslateError, SELENDRA_ENGINE_ID,
};
use finality_selendra::justification::{InnerJustification, Justification, SelendraJustification};
use sp_runtime::Justifications;

fn hash(number: u32) -> BlockHash {
    BlockHash { high: 3, low: number as u128 }
}

fn header(number: u32) -> Header {
    Header::new(hash(number), hash(number.wrapping_sub(1)), number, vec![number as u8, 0xee])
}

fn raw(certificate: &[u8]) -> SelendraJustification {
    SelendraJustification { certificate: certificate.to_vec() }
}

#[test]
fn engine_id_is_frnk() {
    assert_eq!(SELENDRA_ENGINE_ID, *b"FRNK");
    assert!(same_engine(&SELENDRA_ENGINE_ID, b"FRNK"));
    assert!(!same_engine(&SELENDRA_ENGINE_ID, b"FRNZ"));
    assert!(!same_engine(b"ARNK", &SELENDRA_ENGINE_ID));
}

#[test]
fn versions_are_one_and_two() {
    assert_eq!(LEGACY_VERSION, 1);
    assert_eq!(CURRENT_VERSION, 2);
    assert_eq!(MAX_PAYLOAD, 65_535);
}

#[test]
fn frame_is_version_then_length_then_payload() {
    assert_eq!(encode_with_version(2, &vec![9, 8, 7]), vec![2, 0, 3, 0, 9, 8, 7]);
    assert_eq!(encode_with_version(0x0102, &vec![]), vec![2, 1, 0, 0]);
    let long = vec![5u8; 300];
    let framed = encode_with_version(1, &long);
    assert_eq!(&framed[..4], &[1, 0, 44, 1]);
    assert_eq!(&framed[4..], &long[..]);
}

#[test]
fn payload_beyond_the_greatest_length_is_framed_with_the_greatest_length() {
    let huge = vec![1u8; MAX_PAYLOAD + 1];
    let framed = encode_with_version(2, &huge);
    assert_eq!(&framed[..4], &[2, 0, 255, 255]);
    assert_eq!(framed.len(), MAX_PAYLOAD + 5);
    assert_eq!(backwards_compatible_decode(framed), Err(DecodeError::BadFormat));
}

#[test]
fn current_and_legacy_frames_decode_to_the_same_shape() {
    assert_eq!(backwards_compatible_decode(vec![2, 0, 3, 0, 9, 8, 7]), Ok(raw(&[9, 8, 7])));
    assert_eq!(backwards_compatible_decode(vec![1, 0, 3, 0, 9, 8, 7]), Ok(raw(&[9, 8, 7])));
    assert_eq!(backwards_compatible_decode(vec![1, 0, 0, 0]), Ok(raw(&[])));
}

#[test]
fn what_is_written_reads_back() {
    for version in [LEGACY_VERSION, CURRENT_VERSION] {
        for length in [0usize, 1, 255, 256, 1_000, MAX_PAYLOAD] {
            let payload: Vec<u8> = (0..length).map(|i| (i % 253) as u8).collect();
            let framed = encode_with_version(version, &payload);
            assert_eq!(
                backwards_compatible_decode(framed),
                Ok(SelendraJustification { certificate: payload })
            );
        }
    }
}

#[test]
fn frame_of_another_version_is_a_version_mismatch() {
    assert_eq!(
        backwards_compatible_decode(vec![3, 0, 1, 0, 7]),
        Err(DecodeError::UnsupportedVersion(3))
    );
    assert_eq!(
        backwards_compatible_decode(vec![0, 0, 0, 0]),
        Err(DecodeError::UnsupportedVersion(0))
    );
    assert_eq!(
        backwards_compatible_decode(encode_with_version(0x1234, &vec![1, 2])),
        Err(DecodeError::UnsupportedVersion(0x1234))
    );
    assert_eq!(
        decode_versioned(&vec![3, 0, 1, 0, 7]),
        Ok(VersionedJustification::Other(3, vec![7]))
    );
}

#[test]
fn bytes_that_are_no_frame_are_malformed() {
    assert_eq!(backwards_compatible_decode(vec![]), Err(DecodeError::BadFormat));
    assert_eq!(backwards_compatible_decode(vec![2, 0, 0]), Err(DecodeError::BadFormat));
    assert_eq!(backwards_compatible_decode(vec![2, 0, 3, 0, 9, 8]), Err(DecodeError::BadFormat));
    assert_eq!(
        backwards_compatible_decode(vec![2, 0, 3, 0, 9, 8, 7, 6]),
        Err(DecodeError::BadFormat)
    );
    assert_eq!(backwards_compatible_decode(vec![9, 9, 3, 0]), Err(DecodeError::BadFormat));
    assert_eq!(decode_versioned(&vec![1]), Err(DecodeError::BadFormat));
}

#[test]
fn versioned_decode_tells_legacy_from_current() {
    assert_eq!(
        decode_versioned(&vec![1, 0, 1, 0, 5]),
        Ok(VersionedJustification::Legacy(raw(&[5])))
    );
    assert_eq!(
        decode_versioned(&vec![2, 0, 1, 0, 5]),
        Ok(VersionedJustification::Current(raw(&[5])))
    );
}

#[test]
fn message_frame_is_version_then_length_then_payload() {
    assert_eq!(encode_message(2, &vec![9, 8, 7]), vec![2, 0, 3, 0, 0, 0, 9, 8, 7]);
    assert_eq!(encode_message(0x0102, &vec![]), vec![2, 1, 0, 0, 0, 0]);
    let long = vec![5u8; 70_000];
    let framed = encode_message(1, &long);
    assert_eq!(&framed[..6], &[1, 0, 0x70, 0x11, 0x01, 0]);
    assert_eq!(decode_message(&framed), Ok((1, long)));
}

#[test]
fn message_of_any_version_is_unframed() {
    assert_eq!(decode_message(&vec![2, 0, 3, 0, 0, 0, 9, 8, 7]), Ok((2, vec![9, 8, 7])));
    assert_eq!(decode_message(&vec![7, 1, 0, 0, 0, 0]), Ok((0x0107, vec![])));
    assert!(reads_version(1));
    assert!(reads_version(2));
    assert!(!reads_version(0));
    assert!(!reads_version(3));
    assert!(!reads_version(0x0107));
}

#[test]
fn message_bytes_that_are_no_frame_are_malformed() {
    assert_eq!(decode_message(&vec![]), Err(DecodeError::BadFormat));
    assert_eq!(decode_message(&vec![2, 0, 0, 0, 0]), Err(DecodeError::BadFormat));
    assert_eq!(decode_message(&vec![2, 0, 3, 0, 0, 0, 9, 8]), Err(DecodeError::BadFormat));
    assert_eq!(decode_message(&vec![2, 0, 1, 0, 0, 0, 9, 8]), Err(DecodeError::BadFormat));
    assert_eq!(decode_message(&vec![2, 0, 0, 0, 0, 1]), Err(DecodeError::BadFormat));
}

#[test]
fn initial_sync_passes_for_broadcast() {
    assert_eq!(effective_origin(BlockOrigin::NetworkInitialSync), BlockOrigin::NetworkBroadcast);
    for origin in [
        BlockOrigin::Genesis,
        BlockOrigin::NetworkBroadcast,
        BlockOrigin::ConsensusBroadcast,
        BlockOrigin::Own,
        BlockOrigin::File,
        BlockOrigin::WarpSync,
        BlockOrigin::GapSync,
    ] {
        assert_eq!(effective_origin(origin), origin);
    }
}

#[test]
fn translation_needs_the_header_of_the_block() {
    let block = header(7).id();
    assert_eq!(
        translate_with_header(raw(&[1, 2]), block, Some(header(7))),
        Ok(Justification::selendra_justification(header(7), raw(&[1, 2])))
    );
    assert_eq!(translate_with_header(raw(&[1, 2]), block, None), Err(TranslateError::NoBlock));
    let other = Header::new(hash(7), hash(7), 8, vec![]);
    assert_eq!(
        translate_with_header(raw(&[1, 2]), block, Some(other)),
        Err(TranslateError::HeaderMismatch)
    );
    assert_eq!(
        translate_with_header(raw(&[1, 2]), block, Some(header(8))),
        Err(TranslateError::HeaderMismatch)
    );
}

/// Knows the headers of the blocks below height ten.
struct Headers;

impl JustificationTranslator for Headers {
    type Error = TranslateError;

    fn translate(
        &self,
        raw_justification: SelendraJustification,
        block_id: BlockId,
    ) -> Result<Justification, Self::Error> {
        let known = if block_id.number < 10 { Some(header(block_id.number)) } else { None };
        translate_with_header(raw_justification, block_id, known)
    }
}

fn import() -> SelendraBlockImport<Headers> {
    SelendraBlockImport::new(Headers, SELENDRA_ENGINE_ID)
}

#[test]
fn justification_is_prepared_for_sending() {
    let import = import();
    assert_eq!(import.engine_id(), *b"FRNK");
    assert_eq!(
        import.send_justification(header(7).id(), (*b"FRNK", vec![2, 0, 2, 0, 4, 5])),
        Ok(Justification::selendra_justification(header(7), raw(&[4, 5])))
    );
}

#[test]
fn justification_of_another_engine_is_refused() {
    let import = import();
    assert_eq!(
        import.send_justification(header(7).id(), (*b"GRAN", vec![2, 0, 2, 0, 4, 5])),
        Err(SendJustificationError::Consensus)
    );
    assert_eq!(
        import.import_justification(hash(7), 7, (*b"GRAN", vec![])),
        Err(SendJustificationError::Consensus)
    );
}

#[test]
fn justification_that_does_not_decode_is_refused() {
    let import = import();
    assert_eq!(
        import.send_justification(header(7).id(), (*b"FRNK", vec![2, 0, 9, 0, 4, 5])),
        Err(SendJustificationError::Decode(DecodeError::BadFormat))
    );
    assert_eq!(
        import.import_justification(hash(7), 7, (*b"FRNK", vec![7, 0, 0, 0])),
        Err(SendJustificationError::Decode(DecodeError::UnsupportedVersion(7)))
    );
}

#[test]
fn justification_that_does_not_translate_is_refused() {
    let import = import();
    assert_eq!(
        import.send_justification(header(12).id(), (*b"FRNK", vec![2, 0, 0, 0])),
        Err(SendJustificationError::Translate(TranslateError::NoBlock))
    );
    let wrong = BlockId::new(BlockHash { high: 0, low: 0 }, 7);
    assert_eq!(
        import.import_justification(wrong.hash, wrong.number, (*b"FRNK", vec![2, 0, 0, 0])),
        Err(SendJustificationError::Translate(TranslateError::HeaderMismatch))
    );
}

#[test]
fn justification_that_came_by_itself_is_prepared() {
    let import = import();
    assert_eq!(
        import.import_justification(hash(3), 3, (*b"FRNK", vec![1, 0, 1, 0, 8])),
        Ok(Justification::selendra_justification(header(3), raw(&[8])))
    );
}

#[test]
fn imported_block_hands_its_justification_on() {
    let import = import();
    let justifications =
        Justifications::new(vec![(*b"BABE", vec![1]), (*b"FRNK", vec![2, 0, 1, 0, 6])]);
    assert_eq!(
        import.import_block(true, hash(5), 5, Some(justifications)),
        Some(Ok(Justification::selendra_justification(header(5), raw(&[6]))))
    );
}

#[test]
fn first_justification_of_the_engine_is_taken() {
    let import = import();
    let justifications = Justifications::new(vec![
        (*b"BABE", vec![2, 0, 1, 0, 1]),
        (*b"FRNK", vec![2, 0, 1, 0, 2]),
        (*b"FRNK", vec![2, 0, 1, 0, 3]),
        (*b"GRAN", vec![2, 0, 1, 0, 4]),
    ]);
    assert_eq!(
        import.import_block(true, hash(5), 5, Some(justifications.clone())),
        Some(Ok(Justification::selendra_justification(header(5), raw(&[2]))))
    );
    let other = SelendraBlockImport::new(Headers, *b"GRAN");
    assert_eq!(
        other.import_block(true, hash(5), 5, Some(justifications.clone())),
        Some(Ok(Justification::selendra_justification(header(5), raw(&[4]))))
    );
    let none = SelendraBlockImport::new(Headers, *b"NONE");
    assert_eq!(none.import_block(true, hash(5), 5, Some(justifications)), None);
}

#[test]
fn block_that_was_not_imported_hands_nothing_on() {
    let import = import();
    let justifications = Justifications::from((*b"FRNK", vec![2, 0, 1, 0, 6]));
    assert_eq!(import.import_block(false, hash(5), 5, Some(justifications)), None);
}

#[test]
fn block_without_a_justification_of_the_engine_hands_nothing_on() {
    let import = import();
    assert_eq!(import.import_block(true, hash(5), 5, None), None);
    assert_eq!(import.import_block(true, hash(5), 5, Some(Justifications::new(vec![]))), None);
    let foreign = Justifications::from((*b"BABE", vec![1]));
    assert_eq!(import.import_block(true, hash(5), 5, Some(foreign)), None);
}

#[test]
fn imported_block_with_a_broken_justification_reports_the_stage() {
    let import = import();
    assert_eq!(
        import.import_block(true, hash(5), 5, Some(Justifications::from((*b"FRNK", vec![1])))),
        Some(Err(SendJustificationError::Decode(DecodeError::BadFormat)))
    );
    let unknown = Justifications::from((*b"FRNK", vec![2, 0, 0, 0]));
    assert_eq!(
        import.import_block(true, hash(50), 50, Some(unknown)),
        Some(Err(SendJustificationError::Translate(TranslateError::NoBlock)))
    );
}

#[test]
fn genesis_justification_has_no_certificate() {
    let genesis = Justification::genesis_justification(header(0));
    assert!(genesis.is_genesis());
    assert_eq!(genesis.inner(), &InnerJustification::Genesis);
    assert_eq!(genesis.id(), header(0).id());
    assert_eq!(genesis.parent_id(), None);
    assert_eq!(genesis.header(), &header(0));
    let proper = Justification::selendra_justification(header(4), raw(&[1]));
    assert!(!proper.is_genesis());
    assert_eq!(proper.inner(), &InnerJustification::SelendraJustification(raw(&[1])));
    assert_eq!(proper.parent_id(), Some(header(3).id()));
    assert_eq!(proper.clone().into_unverified(), proper);
}
