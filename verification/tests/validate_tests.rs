use offsig_demo::batch::{Batch, Instruction, ProgramId, VerifierIds};
use offsig_demo::decode::decode;
use offsig_demo::encode::encode;
use offsig_demo::entry::EntryRecord;
use offsig_demo::error::ErrorCode;
use offsig_demo::scheme::Scheme;
use offsig_demo::validate::{
    companion_index, cross_validate, validate, validate_companion, DIGEST_LEN,
};

const VERIFIER_EC: ProgramId = [0xec; 32];
const VERIFIER_ED: ProgramId = [0xed; 32];
const OTHER_PROGRAM: ProgramId = [0x77; 32];

fn verifiers() -> VerifierIds {
    VerifierIds { recoverable_ec: VERIFIER_EC, ed25519: VERIFIER_ED }
}

fn digest() -> Vec<u8> {
    (0u8..32u8).map(|b| b.wrapping_mul(7).wrapping_add(3)).collect()
}

fn address() -> Vec<u8> {
    (0u8..20u8).map(|b| 0xa0 + b).collect()
}

fn public_key() -> Vec<u8> {
    (0u8..32u8).map(|b| 0x40 + b).collect()
}

/// `count` entries that all point at one identity and one message of `message`.
fn companion_data(
    scheme: Scheme,
    count: u16,
    index: u16,
    identity: &[u8],
    message: &[u8],
) -> Vec<u8> {
    let layout = scheme.layout();
    let header = 1 + layout.header_padding + layout.record_width * count as usize;
    let identity_offset = header as u16;
    let message_offset = (header + identity.len()) as u16;
    let records: Vec<EntryRecord> = (0..count)
        .map(|_| EntryRecord {
            signature_offset: 0,
            signature_instruction_index: index,
            identity_offset,
            identity_instruction_index: index,
            message_offset,
            message_size: message.len() as u16,
            message_instruction_index: index,
        })
        .collect();
    let mut payload = identity.to_vec();
    payload.extend_from_slice(message);
    encode(scheme, &records, &payload).unwrap()
}

fn batch_after(companion: Instruction) -> Batch {
    let current = Instruction { program_id: OTHER_PROGRAM, data: vec![1, 2, 3] };
    Batch { instructions: vec![companion, current], current: 1 }
}

fn rewrite_record(scheme: Scheme, data: &mut Vec<u8>, i: usize, change: fn(&mut EntryRecord)) {
    let layout = scheme.layout();
    let start = 1 + layout.header_padding + i * layout.record_width;
    let mut record = offsig_demo::entry::read_record(&layout, data, start);
    change(&mut record);
    let bytes = encode(scheme, &[record], &[]).unwrap();
    let body = &bytes[1 + layout.header_padding..];
    data[start..start + layout.record_width].copy_from_slice(body);
}

#[test]
fn digest_length_is_thirty_two() {
    assert_eq!(DIGEST_LEN, 32);
}

#[test]
fn companion_index_is_the_one_before() {
    assert_eq!(companion_index(0), Err(ErrorCode::InstructionAtWrongIndex));
    assert_eq!(companion_index(1), Ok(0));
    assert_eq!(companion_index(2), Ok(1));
    assert_eq!(companion_index(u16::MAX), Ok(u16::MAX - 1));
}

#[test]
fn batch_hands_out_its_instructions() {
    let a = Instruction { program_id: VERIFIER_EC, data: vec![1] };
    let b = Instruction { program_id: VERIFIER_ED, data: vec![2, 3] };
    let batch = Batch { instructions: vec![a, b], current: 1 };
    assert_eq!(batch.current_index(), 1);
    assert_eq!(batch.instruction_at(0).unwrap().data, vec![1]);
    assert_eq!(batch.instruction_at(0).unwrap().program_id, VERIFIER_EC);
    assert_eq!(batch.instruction_at(1).unwrap().data, vec![2, 3]);
    assert!(batch.instruction_at(2).is_none());
    assert!(batch.instruction_at(usize::MAX).is_none());
}

#[test]
fn verifier_is_picked_by_scheme() {
    let ids = verifiers();
    assert_eq!(ids.for_scheme(Scheme::RecoverableEc), &VERIFIER_EC);
    assert_eq!(ids.for_scheme(Scheme::Ed25519), &VERIFIER_ED);
}

#[test]
fn first_instruction_fails_with_wrong_index() {
    let good = companion_data(Scheme::RecoverableEc, 1, 0, &address(), &digest());
    let contents: Vec<Vec<u8>> = vec![vec![], vec![0], vec![0xff; 40], good];
    for data in contents {
        for program_id in [VERIFIER_EC, OTHER_PROGRAM] {
            let only = Instruction { program_id, data: data.clone() };
            let batch = Batch { instructions: vec![only.clone(), only], current: 0 };
            assert_eq!(
                validate(&batch, Scheme::RecoverableEc, &verifiers(), &address()),
                Err(ErrorCode::InstructionAtWrongIndex)
            );
        }
    }
    let empty = Batch { instructions: vec![], current: 0 };
    assert_eq!(
        validate(&empty, Scheme::Ed25519, &verifiers(), &public_key()),
        Err(ErrorCode::InstructionAtWrongIndex)
    );
}

#[test]
fn missing_companion_fails_with_invalid_companion() {
    let batch = Batch { instructions: vec![], current: 1 };
    assert_eq!(
        validate(&batch, Scheme::Ed25519, &verifiers(), &public_key()),
        Err(ErrorCode::InvalidCompanionInstruction)
    );
    let data = companion_data(Scheme::Ed25519, 1, 0, &public_key(), &digest());
    let one = Instruction { program_id: VERIFIER_ED, data };
    let batch = Batch { instructions: vec![one], current: 5 };
    assert_eq!(
        validate(&batch, Scheme::Ed25519, &verifiers(), &public_key()),
        Err(ErrorCode::InvalidCompanionInstruction)
    );
    assert_eq!(
        validate_companion(Scheme::Ed25519, &VERIFIER_ED, 4, None, &public_key()),
        Err(ErrorCode::InvalidCompanionInstruction)
    );
}

#[test]
fn other_program_fails_with_invalid_program_id() {
    let data = companion_data(Scheme::RecoverableEc, 1, 0, &address(), &digest());
    let batch = batch_after(Instruction { program_id: OTHER_PROGRAM, data: data.clone() });
    assert_eq!(
        validate(&batch, Scheme::RecoverableEc, &verifiers(), &address()),
        Err(ErrorCode::InvalidProgramId)
    );
    // the verifier of the other scheme is not trusted for this one
    let batch = batch_after(Instruction { program_id: VERIFIER_ED, data: data.clone() });
    assert_eq!(
        validate(&batch, Scheme::RecoverableEc, &verifiers(), &address()),
        Err(ErrorCode::InvalidProgramId)
    );
    // one byte apart
    let mut near = VERIFIER_EC;
    near[31] ^= 1;
    let batch = batch_after(Instruction { program_id: near, data });
    assert_eq!(
        validate(&batch, Scheme::RecoverableEc, &verifiers(), &address()),
        Err(ErrorCode::InvalidProgramId)
    );
    // the program is checked before the data is looked at
    let batch = batch_after(Instruction { program_id: OTHER_PROGRAM, data: vec![] });
    assert_eq!(
        validate(&batch, Scheme::RecoverableEc, &verifiers(), &address()),
        Err(ErrorCode::InvalidProgramId)
    );
}

#[test]
fn decoder_failures_come_through_unchanged() {
    let batch = batch_after(Instruction { program_id: VERIFIER_ED, data: vec![1] });
    assert_eq!(
        validate(&batch, Scheme::Ed25519, &verifiers(), &public_key()),
        Err(ErrorCode::MalformedHeader)
    );
    let batch = batch_after(Instruction { program_id: VERIFIER_ED, data: vec![1, 0, 0, 0] });
    assert_eq!(
        validate(&batch, Scheme::Ed25519, &verifiers(), &public_key()),
        Err(ErrorCode::TruncatedEntry)
    );
    let mut data = companion_data(Scheme::Ed25519, 1, 0, &public_key(), &digest());
    data.pop();
    let batch = batch_after(Instruction { program_id: VERIFIER_ED, data });
    assert_eq!(
        validate(&batch, Scheme::Ed25519, &verifiers(), &public_key()),
        Err(ErrorCode::OffsetOutOfRange)
    );
}

#[test]
fn companion_without_entries_fails_with_invalid_companion() {
    let batch = batch_after(Instruction { program_id: VERIFIER_ED, data: vec![0, 0] });
    assert_eq!(
        validate(&batch, Scheme::Ed25519, &verifiers(), &public_key()),
        Err(ErrorCode::InvalidCompanionInstruction)
    );
    let batch = batch_after(Instruction { program_id: VERIFIER_EC, data: vec![0, 9, 9] });
    assert_eq!(
        validate(&batch, Scheme::RecoverableEc, &verifiers(), &address()),
        Err(ErrorCode::InvalidCompanionInstruction)
    );
}

#[test]
fn entry_of_another_instruction_fails_with_invalid_companion() {
    // the companion stands at 0, the entries say 1
    let data = companion_data(Scheme::RecoverableEc, 1, 1, &address(), &digest());
    let batch = batch_after(Instruction { program_id: VERIFIER_EC, data });
    assert_eq!(
        validate(&batch, Scheme::RecoverableEc, &verifiers(), &address()),
        Err(ErrorCode::InvalidCompanionInstruction)
    );
    // only the identity of the second entry is taken from elsewhere
    let mut data = companion_data(Scheme::RecoverableEc, 2, 0, &address(), &digest());
    rewrite_record(Scheme::RecoverableEc, &mut data, 1, |r| r.identity_instruction_index = 3);
    let batch = batch_after(Instruction { program_id: VERIFIER_EC, data });
    assert_eq!(
        validate(&batch, Scheme::RecoverableEc, &verifiers(), &address()),
        Err(ErrorCode::InvalidCompanionInstruction)
    );
    // only the message of the first entry is taken from elsewhere
    let mut data = companion_data(Scheme::Ed25519, 2, 0, &public_key(), &digest());
    rewrite_record(Scheme::Ed25519, &mut data, 0, |r| r.message_instruction_index = 0xffff);
    let batch = batch_after(Instruction { program_id: VERIFIER_ED, data });
    assert_eq!(
        validate(&batch, Scheme::Ed25519, &verifiers(), &public_key()),
        Err(ErrorCode::InvalidCompanionInstruction)
    );
}

#[test]
fn signature_may_come_from_another_instruction() {
    let mut data = companion_data(Scheme::Ed25519, 1, 0, &public_key(), &digest());
    rewrite_record(Scheme::Ed25519, &mut data, 0, |r| r.signature_instruction_index = 9);
    let batch = batch_after(Instruction { program_id: VERIFIER_ED, data });
    assert_eq!(validate(&batch, Scheme::Ed25519, &verifiers(), &public_key()), Ok(digest()));
}

#[test]
fn companion_further_down_the_batch() {
    // the companion stands at 2 and says so
    let data = companion_data(Scheme::Ed25519, 1, 2, &public_key(), &digest());
    let filler = Instruction { program_id: OTHER_PROGRAM, data: vec![] };
    let companion = Instruction { program_id: VERIFIER_ED, data };
    let batch = Batch {
        instructions: vec![filler.clone(), filler.clone(), companion, filler],
        current: 3,
    };
    assert_eq!(validate(&batch, Scheme::Ed25519, &verifiers(), &public_key()), Ok(digest()));
    // seen from one later, the instruction before is no verifier's
    let later = Batch { current: 4, ..batch.clone() };
    assert_eq!(
        validate(&later, Scheme::Ed25519, &verifiers(), &public_key()),
        Err(ErrorCode::InvalidProgramId)
    );
}

#[test]
fn differing_message_window_fails_with_invalid_companion() {
    let mut data = companion_data(Scheme::RecoverableEc, 3, 0, &address(), &digest());
    rewrite_record(Scheme::RecoverableEc, &mut data, 2, |r| r.message_offset -= 1);
    let batch = batch_after(Instruction { program_id: VERIFIER_EC, data });
    assert_eq!(
        validate(&batch, Scheme::RecoverableEc, &verifiers(), &address()),
        Err(ErrorCode::InvalidCompanionInstruction)
    );
    let mut data = companion_data(Scheme::RecoverableEc, 2, 0, &address(), &digest());
    rewrite_record(Scheme::RecoverableEc, &mut data, 1, |r| r.message_size = 31);
    let batch = batch_after(Instruction { program_id: VERIFIER_EC, data });
    assert_eq!(
        validate(&batch, Scheme::RecoverableEc, &verifiers(), &address()),
        Err(ErrorCode::InvalidCompanionInstruction)
    );
    let mut data = companion_data(Scheme::Ed25519, 2, 0, &public_key(), &digest());
    rewrite_record(Scheme::Ed25519, &mut data, 1, |r| r.message_offset -= 2);
    let batch = batch_after(Instruction { program_id: VERIFIER_ED, data });
    assert_eq!(
        validate(&batch, Scheme::Ed25519, &verifiers(), &public_key()),
        Err(ErrorCode::InvalidCompanionInstruction)
    );
}

#[test]
fn agreeing_entries_reach_the_identity_check() {
    let data = companion_data(Scheme::RecoverableEc, 3, 0, &address(), &digest());
    let batch = batch_after(Instruction { program_id: VERIFIER_EC, data });
    assert_eq!(validate(&batch, Scheme::RecoverableEc, &verifiers(), &address()), Ok(digest()));
    let mut other = address();
    other[0] ^= 0x80;
    assert_eq!(
        validate(&batch, Scheme::RecoverableEc, &verifiers(), &other),
        Err(ErrorCode::InvalidGroupKey)
    );
}

#[test]
fn only_the_first_signer_is_held_against_the_expected_one() {
    // the second entry names another signer; the message is shared
    let mut data = companion_data(Scheme::RecoverableEc, 2, 0, &address(), &digest());
    rewrite_record(Scheme::RecoverableEc, &mut data, 1, |r| r.identity_offset += 5);
    let batch = batch_after(Instruction { program_id: VERIFIER_EC, data });
    assert_eq!(validate(&batch, Scheme::RecoverableEc, &verifiers(), &address()), Ok(digest()));
}

#[test]
fn message_of_another_width_fails_with_invalid_argument() {
    for size in [0usize, 1, 31, 33, 64] {
        let message = vec![0x11u8; size];
        let data = companion_data(Scheme::RecoverableEc, 1, 0, &address(), &message);
        let batch = batch_after(Instruction { program_id: VERIFIER_EC, data });
        assert_eq!(
            validate(&batch, Scheme::RecoverableEc, &verifiers(), &address()),
            Err(ErrorCode::InvalidArgument)
        );
        let data = companion_data(Scheme::Ed25519, 2, 0, &public_key(), &message);
        let batch = batch_after(Instruction { program_id: VERIFIER_ED, data });
        assert_eq!(
            validate(&batch, Scheme::Ed25519, &verifiers(), &public_key()),
            Err(ErrorCode::InvalidArgument)
        );
    }
    let message = vec![0x11u8; 32];
    let data = companion_data(Scheme::RecoverableEc, 1, 0, &address(), &message);
    let batch = batch_after(Instruction { program_id: VERIFIER_EC, data });
    assert_eq!(validate(&batch, Scheme::RecoverableEc, &verifiers(), &address()), Ok(message));
}

#[test]
fn width_is_checked_before_the_signer() {
    let message = vec![0x11u8; 33];
    let data = companion_data(Scheme::RecoverableEc, 1, 0, &address(), &message);
    let batch = batch_after(Instruction { program_id: VERIFIER_EC, data });
    assert_eq!(
        validate(&batch, Scheme::RecoverableEc, &verifiers(), &[0u8; 20]),
        Err(ErrorCode::InvalidArgument)
    );
}

#[test]
fn recoverable_ec_companion_yields_its_message() {
    // written out by hand: count, one record, the address, the digest
    let mut data: Vec<u8> = vec![1, 0, 0, 0, 12, 0, 0, 32, 0, 32, 0, 0];
    data.extend_from_slice(&address());
    data.extend_from_slice(&digest());
    assert_eq!(data.len(), 64);
    let companion = Instruction { program_id: VERIFIER_EC, data };
    let current = Instruction { program_id: OTHER_PROGRAM, data: vec![] };
    let batch = Batch { instructions: vec![companion, current], current: 1 };
    assert_eq!(validate(&batch, Scheme::RecoverableEc, &verifiers(), &address()), Ok(digest()));
}

#[test]
fn signer_one_byte_apart_fails_with_invalid_group_key() {
    let mut data: Vec<u8> = vec![1, 0, 0, 0, 12, 0, 0, 32, 0, 32, 0, 0];
    data.extend_from_slice(&address());
    data.extend_from_slice(&digest());
    let batch = batch_after(Instruction { program_id: VERIFIER_EC, data });
    for position in [0usize, 7, 19] {
        let mut expected = address();
        expected[position] ^= 0x01;
        assert_eq!(
            validate(&batch, Scheme::RecoverableEc, &verifiers(), &expected),
            Err(ErrorCode::InvalidGroupKey)
        );
    }
}

#[test]
fn expected_signer_of_another_length_fails_with_invalid_group_key() {
    let data = companion_data(Scheme::RecoverableEc, 1, 0, &address(), &digest());
    let batch = batch_after(Instruction { program_id: VERIFIER_EC, data });
    let mut longer = address();
    longer.push(0);
    assert_eq!(
        validate(&batch, Scheme::RecoverableEc, &verifiers(), &longer),
        Err(ErrorCode::InvalidGroupKey)
    );
    assert_eq!(
        validate(&batch, Scheme::RecoverableEc, &verifiers(), &address()[..19]),
        Err(ErrorCode::InvalidGroupKey)
    );
    assert_eq!(
        validate(&batch, Scheme::RecoverableEc, &verifiers(), &[]),
        Err(ErrorCode::InvalidGroupKey)
    );
}

#[test]
fn ed25519_companion_yields_its_message() {
    let mut data: Vec<u8> = vec![1, 0, 80, 0, 0, 0, 16, 0, 0, 0, 48, 0, 32, 0, 0, 0];
    data.extend_from_slice(&public_key());
    data.extend_from_slice(&digest());
    data.extend_from_slice(&[0x99; 64]);
    assert_eq!(data.len(), 144);
    let batch = batch_after(Instruction { program_id: VERIFIER_ED, data });
    assert_eq!(validate(&batch, Scheme::Ed25519, &verifiers(), &public_key()), Ok(digest()));
    let mut expected = public_key();
    expected[31] = expected[31].wrapping_add(1);
    assert_eq!(
        validate(&batch, Scheme::Ed25519, &verifiers(), &expected),
        Err(ErrorCode::InvalidGroupKey)
    );
}

#[test]
fn data_of_one_scheme_read_by_the_other() {
    // an Ed25519 companion read as recoverable-EC: the record is taken from other bytes
    let data = companion_data(Scheme::Ed25519, 1, 0, &public_key(), &digest());
    let batch = batch_after(Instruction { program_id: VERIFIER_EC, data });
    assert!(validate(&batch, Scheme::RecoverableEc, &verifiers(), &public_key()).is_err());
}

#[test]
fn validate_companion_checks_in_order() {
    let data = companion_data(Scheme::Ed25519, 1, 6, &public_key(), &digest());
    let companion = Instruction { program_id: VERIFIER_ED, data };
    assert_eq!(
        validate_companion(Scheme::Ed25519, &VERIFIER_ED, 6, Some(&companion), &public_key()),
        Ok(digest())
    );
    assert_eq!(
        validate_companion(Scheme::Ed25519, &VERIFIER_ED, 5, Some(&companion), &public_key()),
        Err(ErrorCode::InvalidCompanionInstruction)
    );
    assert_eq!(
        validate_companion(Scheme::Ed25519, &VERIFIER_EC, 6, Some(&companion), &public_key()),
        Err(ErrorCode::InvalidProgramId)
    );
    assert_eq!(
        validate_companion(Scheme::Ed25519, &VERIFIER_ED, 6, Some(&companion), &address()),
        Err(ErrorCode::InvalidGroupKey)
    );
}

#[test]
fn recoverable_ec_index_is_one_byte() {
    // a companion at 300 cannot be named by an index of one byte
    let data = companion_data(Scheme::RecoverableEc, 1, 44, &address(), &digest());
    let companion = Instruction { program_id: VERIFIER_EC, data };
    assert_eq!(
        validate_companion(Scheme::RecoverableEc, &VERIFIER_EC, 44, Some(&companion), &address()),
        Ok(digest())
    );
    assert_eq!(
        validate_companion(Scheme::RecoverableEc, &VERIFIER_EC, 300, Some(&companion), &address()),
        Err(ErrorCode::InvalidCompanionInstruction)
    );
}

#[test]
fn cross_validate_works_on_decoded_entries() {
    let data = companion_data(Scheme::RecoverableEc, 2, 3, &address(), &digest());
    let parsed = decode(Scheme::RecoverableEc, &data).unwrap();
    assert_eq!(cross_validate(&parsed, 3, &address()), Ok(digest()));
    assert_eq!(cross_validate(&parsed, 2, &address()), Err(ErrorCode::InvalidCompanionInstruction));
    assert_eq!(cross_validate(&parsed, 3, &public_key()), Err(ErrorCode::InvalidGroupKey));
    let empty = [0u8, 0];
    let parsed = decode(Scheme::RecoverableEc, &empty).unwrap();
    assert_eq!(cross_validate(&parsed, 0, &address()), Err(ErrorCode::InvalidCompanionInstruction));
}

#[test]
fn message_is_the_window_not_the_tail() {
    // the message stands in the middle of the payload
    let record = EntryRecord {
        signature_offset: 0,
        signature_instruction_index: 0,
        identity_offset: 60,
        identity_instruction_index: 0,
        message_offset: 20,
        message_size: 32,
        message_instruction_index: 0,
    };
    let payload: Vec<u8> = (0u8..100u8).collect();
    let data = encode(Scheme::RecoverableEc, &[record], &payload).unwrap();
    let batch = batch_after(Instruction { program_id: VERIFIER_EC, data: data.clone() });
    let result = validate(&batch, Scheme::RecoverableEc, &verifiers(), &data[60..80]);
    assert_eq!(result, Ok(data[20..52].to_vec()));
}
