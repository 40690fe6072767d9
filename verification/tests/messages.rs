//! Messages of custom intents, and the limits of messages.
use clear_msig::client::{remove_intent_msg, sha256_bytes, wrap_offchain};
use clear_msig::error::ProgramError;
use clear_msig::pda::{program_id, system_program_id};
use clear_msig::state::intent::{Intent, IntentType};
use clear_msig::utils::definition::{ConstraintType, ParamEntry, ParamType};
use clear_msig::utils::message::{MessageBuilder, MessageContext};

const BAD: Result<(), ProgramError> = Err(ProgramError::InvalidInstructionData);
const STOPPED: Result<(), ProgramError> = Err(ProgramError::ProgramFailedToComplete);

fn context(action: &'static str) -> MessageContext<'static> {
    MessageContext { expiry: 1_000_000_000, action, wallet_name: "vault", proposal_index: 3 }
}

fn param(param_type: ParamType) -> ParamEntry {
    ParamEntry {
        param_type,
        name_offset: 0,
        name_len: 0,
        constraint_type: ConstraintType::NoConstraint,
        constraint_value: 0,
    }
}

fn intent(intent_type: IntentType, template: &[u8], params: &[ParamType]) -> Intent {
    Intent {
        wallet: system_program_id(),
        bump: 0,
        intent_index: 0,
        intent_type,
        approved: 1,
        approval_threshold: 1,
        cancellation_threshold: 1,
        timelock_seconds: 0,
        template_offset: 0,
        template_len: template.len() as u16,
        active_proposal_count: 0,
        proposers: vec![],
        approvers: vec![],
        params: params.iter().map(|t| param(*t)).collect(),
        accounts: vec![],
        instructions: vec![],
        data_segments: vec![],
        seeds: vec![],
        byte_pool: template.to_vec(),
    }
}

fn build(i: &Intent, data: &[u8]) -> Result<Vec<u8>, ProgramError> {
    let mut builder = MessageBuilder::new();
    builder.build_message_for_intent(&context("propose"), i, data)?;
    Ok(builder.as_bytes().to_vec())
}

/// The content of the message of a custom intent.
fn rendered(template: &str, params: &[ParamType], data: &[u8]) -> Result<String, ProgramError> {
    let message = build(&intent(IntentType::Custom, template.as_bytes(), params), data)?;
    let text = String::from_utf8(message[20..].to_vec()).unwrap();
    let text = text.strip_prefix("expires 2001-09-09 01:46:40: propose ").unwrap();
    Ok(text.strip_suffix(" | wallet: vault proposal: 3").unwrap().to_string())
}

#[test]
fn every_type_is_shown() {
    let mut data = program_id().bytes.to_vec();
    data.extend(1_000_000u64.to_le_bytes());
    data.extend((-5i64).to_le_bytes());
    data.extend([3, b'a', b'b', b'c']);
    data.extend([1, 200]);
    data.extend(65_535u16.to_le_bytes());
    data.extend(4_000_000_000u32.to_le_bytes());
    let params = [
        ParamType::Address,
        ParamType::U64,
        ParamType::I64,
        ParamType::String,
        ParamType::Bool,
        ParamType::U8,
        ParamType::U16,
        ParamType::U32,
    ];
    let text = rendered("to {0}: {1} {2} {3} {4} {5} {6} {7}", &params, &data).unwrap();
    assert_eq!(
        text,
        "to msigVi8dMnmLQUuCbakipEMZhzen516QRHxGz7iX5Xv: 1000000 -5 abc true 200 65535 4000000000"
    );
    let text = rendered("{0}{0}", &[ParamType::U128], &u128::MAX.to_le_bytes()).unwrap();
    assert_eq!(text, "340282366920938463463374607431768211455".repeat(2));
    assert_eq!(rendered("{0}", &[ParamType::Bool], &[0]).unwrap(), "false");
    assert_eq!(rendered("{0}", &[ParamType::I64], &i64::MIN.to_le_bytes()).unwrap(),
        "-9223372036854775808");
}

#[test]
fn templates_without_placeholders_are_shown_literally() {
    assert_eq!(rendered("pay the rent }", &[], &[]).unwrap(), "pay the rent }");
    assert_eq!(rendered("", &[], &[]).unwrap(), "");
    assert_eq!(rendered("für €", &[], &[]).unwrap(), "für €");
}

#[test]
fn placeholder_numbers() {
    // No digits stand for zero, and numbers count modulo 256.
    assert_eq!(rendered("{}", &[ParamType::U8], &[7]).unwrap(), "7");
    assert_eq!(rendered("{256}{000}", &[ParamType::U8], &[7]).unwrap(), "77");
    assert_eq!(rendered("{18446744073709551360}", &[ParamType::U8], &[7]).unwrap(), "7");
    for template in ["{", "{0", "{x}", "{ 0}", "{-1}", "{1}", "{255}", "{18446744073709551616}"] {
        let r = rendered(template, &[ParamType::U8], &[7]);
        assert_eq!(r, Err(ProgramError::InvalidInstructionData), "{template}");
    }
}

#[test]
fn data_that_end_early() {
    let short = [0u8; 1];
    for t in [
        ParamType::Address,
        ParamType::U64,
        ParamType::I64,
        ParamType::U16,
        ParamType::U32,
        ParamType::U128,
    ] {
        assert_eq!(rendered("{0}", &[t], &short), Err(ProgramError::ProgramFailedToComplete));
    }
    for t in [ParamType::Bool, ParamType::U8] {
        assert_eq!(rendered("{0}", &[t], &[]), Err(ProgramError::InvalidInstructionData));
    }
    let r = rendered("{0}", &[ParamType::String], &[2, b'a']);
    assert_eq!(r, Err(ProgramError::ProgramFailedToComplete));
    let r = rendered("{0}", &[ParamType::String], &[]);
    assert_eq!(r, Err(ProgramError::ProgramFailedToComplete));
    // A string in front that is not there leaves the next without a place.
    let r = rendered("{1}", &[ParamType::String, ParamType::U8], &[]);
    assert_eq!(r, Err(ProgramError::InvalidInstructionData));
    let r = rendered("{0}", &[ParamType::String], &[1, 0xff]);
    assert_eq!(r, Err(ProgramError::InvalidInstructionData));
}

#[test]
fn templates_must_be_text_in_the_pool() {
    let mut i = intent(IntentType::Custom, &[0xc3], &[]);
    assert_eq!(build(&i, &[]), Err(ProgramError::InvalidInstructionData));
    i.byte_pool = b"hello".to_vec();
    i.template_offset = 4;
    i.template_len = 2;
    assert_eq!(build(&i, &[]), Err(ProgramError::InvalidInstructionData));
    i.template_len = 1;
    let body = b"expires 2001-09-09 01:46:40: propose o | wallet: vault proposal: 3";
    assert_eq!(build(&i, &[]), Ok(wrap_offchain(body)));
}

#[test]
fn messages_of_the_default_intents() {
    let i = intent(IntentType::RemoveIntent, &[], &[]);
    assert_eq!(build(&i, &[9]), Ok(remove_intent_msg("propose", 1_000_000_000, "vault", 3, 9)));
    assert_eq!(build(&i, &[]), Err(ProgramError::InvalidInstructionData));
    assert_eq!(build(&i, &[1, 2]), Err(ProgramError::InvalidInstructionData));

    let i = intent(IntentType::UpdateIntent, &[], &[]);
    assert_eq!(build(&i, &[1]), Err(ProgramError::InvalidInstructionData));
    let mut expected = MessageBuilder::new();
    let hash = sha256_bytes(&[2, 3]);
    expected.build_update_intent_message(&context("propose"), 1, &hash).unwrap();
    expected.finalize().unwrap();
    assert_eq!(build(&i, &[1, 2, 3]), Ok(expected.as_bytes().to_vec()));
    let text = String::from_utf8(expected.as_bytes()[20..].to_vec()).unwrap();
    assert!(text.starts_with(
        "expires 2001-09-09 01:46:40: propose update intent 1 definition_hash: "
    ));

    let i = intent(IntentType::AddIntent, &[], &[]);
    let mut expected = MessageBuilder::new();
    expected.build_add_intent_message(&context("propose"), &sha256_bytes(&[])).unwrap();
    expected.finalize().unwrap();
    assert_eq!(build(&i, &[]), Ok(expected.as_bytes().to_vec()));
}

#[test]
fn messages_have_a_limit() {
    // 37 bytes of header, 28 of suffix and 20 of offchain header.
    let room = 2048 - 37 - 28 - 20;
    let fits = "x".repeat(room);
    assert_eq!(rendered(&fits, &[], &[]).unwrap(), fits);
    let too_long = "x".repeat(room + 1);
    assert_eq!(rendered(&too_long, &[], &[]), Err(ProgramError::InvalidInstructionData));
}

#[test]
fn expiries_have_four_digit_years() {
    let i = intent(IntentType::RemoveIntent, &[], &[]);
    let mut ctx = context("approve");
    ctx.expiry = 253_402_300_800;
    assert_eq!(MessageBuilder::new().build_message_for_intent(&ctx, &i, &[0]), BAD);
    ctx.expiry = i64::MAX;
    assert_eq!(MessageBuilder::new().build_message_for_intent(&ctx, &i, &[0]), BAD);
    ctx.expiry = 253_402_300_799;
    assert_eq!(MessageBuilder::new().build_message_for_intent(&ctx, &i, &[0]), Ok(()));
}

#[test]
fn a_builder_keeps_what_it_wrote_before_an_error() {
    let mut builder = MessageBuilder::default();
    assert_eq!(builder.as_bytes(), &[0u8; 20]);
    builder.push_u64(0).unwrap();
    builder.push_u64(907).unwrap();
    assert_eq!(&builder.as_bytes()[20..], b"0907");
    let i = intent(IntentType::Custom, b"ab{0}", &[ParamType::U64]);
    assert_eq!(builder.build_custom_message(&context("cancel"), &i, &[1]), STOPPED);
    let text = b"0907expires 2001-09-09 01:46:40: cancel ab";
    assert_eq!(&builder.as_bytes()[20..], text);
    builder.finalize().unwrap();
    assert_eq!(builder.as_bytes(), &wrap_offchain(text)[..]);
}

#[test]
fn removals_by_hand() {
    let mut builder = MessageBuilder::new();
    builder.build_remove_intent_message(&context("approve"), 255).unwrap();
    builder.finalize().unwrap();
    let expected = remove_intent_msg("approve", 1_000_000_000, "vault", 3, 255);
    assert_eq!(builder.as_bytes(), &expected[..]);
}
