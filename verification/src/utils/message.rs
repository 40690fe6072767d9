//! The texts that members sign.
//!
//! Every message reads
//! `expires <ts>: <action> <content> | wallet: <name> proposal: <index>`
//! behind the header of a Solana offchain message.
use crate::bytes::{from_u64_bits, get_part, i64_of_bits, le_bytes, le_value, part, read_le};
use crate::crypto::{sha256, sha256_digest, utf8_text};
use crate::error::ProgramError;
use crate::state::intent::{param_offset_of, Intent, IntentType};
use crate::text::{
    all_digits, append_bytes, decimal, decimal_bytes, decimal_value, hex, hex_pair, hex_pair_bytes,
};
use crate::utils::base58::{address_fits_base58, base58, encode_base58};
use crate::utils::datetime::{format_timestamp, has_plain_year, timestamp_text};
use crate::utils::definition::{ParamEntry, ParamType};
use vstd::prelude::*;
use vstd::slice::slice_subrange;
use vstd::string::StringSliceAdditionalSpecFns;
use vstd::utf8::valid_utf8;

verus! {

/// How many bytes a message may take, with its header.
pub const MSG_BUF_SIZE: usize = 2048;

/// The length of the offchain header: domain (16), version (1), format (1)
/// and length (2).
pub const OFFCHAIN_HEADER_LEN: usize = 20;

/// The signing domain of offchain messages: `\xffsolana offchain`.
pub open spec fn offchain_domain() -> Seq<u8> {
    seq![
        0xffu8,
        0x73,
        0x6f,
        0x6c,
        0x61,
        0x6e,
        0x61,
        0x20,
        0x6f,
        0x66,
        0x66,
        0x63,
        0x68,
        0x61,
        0x69,
        0x6e,
    ]
}

/// The header of an offchain message whose body takes `len` bytes: version 0,
/// format 0 (restricted ASCII).
pub open spec fn offchain_header(len: nat) -> Seq<u8> {
    offchain_domain() + seq![0u8, 0u8] + le_bytes(len, 2)
}

/// A body behind its offchain header.
pub open spec fn offchain_message(body: Seq<u8>) -> Seq<u8> {
    offchain_header(body.len()) + body
}

/// Writes the offchain header.
pub fn offchain_header_bytes(len: usize) -> (header: Vec<u8>)
    ensures
        header@ == offchain_header(len as nat),
        header@.len() == OFFCHAIN_HEADER_LEN,
{
    let mut header: Vec<u8> = vec![
        0xff,
        0x73,
        0x6f,
        0x6c,
        0x61,
        0x6e,
        0x61,
        0x20,
        0x6f,
        0x66,
        0x66,
        0x63,
        0x68,
        0x61,
        0x69,
        0x6e,
        0,
        0,
    ];
    assert(header@ =~= offchain_domain() + seq![0u8, 0u8]);
    proof {
        crate::bytes::le_bytes_len(len as nat, 2);
    }
    crate::bytes::push_le(&mut header, len as u64, 2);
    header
}

/// Common fields present in every signed message.
pub struct MessageContext<'a> {
    pub expiry: i64,
    pub action: &'a str,
    pub wallet_name: &'a str,
    pub proposal_index: u64,
}

/// The fields of a message context, with its texts as bytes.
pub struct ContextView {
    pub expiry: i64,
    pub action: Seq<u8>,
    pub wallet_name: Seq<u8>,
    pub proposal_index: u64,
}

impl<'a> View for MessageContext<'a> {
    type V = ContextView;

    open spec fn view(&self) -> ContextView {
        ContextView {
            expiry: self.expiry,
            action: self.action.spec_bytes(),
            wallet_name: self.wallet_name.spec_bytes(),
            proposal_index: self.proposal_index,
        }
    }
}

/// `expires <ts>: <action> `.
pub open spec fn header_text(ctx: ContextView) -> Seq<u8> {
    "expires ".spec_bytes() + timestamp_text(ctx.expiry as int) + ": ".spec_bytes() + ctx.action
        + " ".spec_bytes()
}

/// ` | wallet: <name> proposal: <index>`.
pub open spec fn suffix_text(wallet_name: Seq<u8>, proposal_index: u64) -> Seq<u8> {
    " | wallet: ".spec_bytes() + wallet_name + " proposal: ".spec_bytes() + decimal(
        proposal_index as nat,
    )
}

/// The text of a message with the given content.
pub open spec fn message_text(ctx: ContextView, content: Seq<u8>) -> Seq<u8> {
    header_text(ctx) + content + suffix_text(ctx.wallet_name, ctx.proposal_index)
}

/// What a message says of adding an intent.
pub open spec fn add_intent_text(definition_hash: Seq<u8>) -> Seq<u8> {
    "add intent definition_hash: ".spec_bytes() + hex(definition_hash)
}

/// What a message says of removing an intent.
pub open spec fn remove_intent_text(intent_index: u8) -> Seq<u8> {
    "remove intent ".spec_bytes() + decimal(intent_index as nat)
}

/// What a message says of updating an intent.
pub open spec fn update_intent_text(intent_index: u8, definition_hash: Seq<u8>) -> Seq<u8> {
    "update intent ".spec_bytes() + decimal(intent_index as nat)
        + " definition_hash: ".spec_bytes() + hex(definition_hash)
}

/// A message in the making: what has been written, and what went wrong first.
/// After an error nothing more is written.
pub struct Draft {
    pub bytes: Seq<u8>,
    pub error: Option<ProgramError>,
}

/// A draft without an error.
pub open spec fn draft(bytes: Seq<u8>) -> Draft {
    Draft { bytes, error: None }
}

/// The draft that a call leaves: the bytes then in the builder, and its error.
pub open spec fn outcome(bytes: Seq<u8>, r: Result<(), ProgramError>) -> Draft {
    Draft {
        bytes,
        error: match r {
            Ok(_) => None,
            Err(e) => Some(e),
        },
    }
}

/// A draft with an error.
pub open spec fn fail(d: Draft, e: ProgramError) -> Draft {
    if d.error is Some {
        d
    } else {
        Draft { bytes: d.bytes, error: Some(e) }
    }
}

/// Adds a piece of text as a whole, or fails where it does not fit.
pub open spec fn put(d: Draft, piece: Seq<u8>) -> Draft {
    if d.error is Some {
        d
    } else if d.bytes.len() + piece.len() > MSG_BUF_SIZE {
        fail(d, ProgramError::InvalidInstructionData)
    } else {
        draft(d.bytes + piece)
    }
}

/// Adds a timestamp, which must lie in the years 0 to 9999.
pub open spec fn put_timestamp(d: Draft, ts: int) -> Draft {
    if !has_plain_year(ts) {
        fail(d, ProgramError::InvalidInstructionData)
    } else {
        put(d, timestamp_text(ts))
    }
}

/// Adds a signed number: the sign, then the digits.
pub open spec fn put_signed(d: Draft, n: int) -> Draft {
    if n < 0 {
        put(put(d, "-".spec_bytes()), decimal((-n) as nat))
    } else {
        put(d, decimal(n as nat))
    }
}

/// Adds bytes in hexadecimal, two digits at a time.
pub open spec fn put_hex(d: Draft, bytes: Seq<u8>) -> Draft
    decreases bytes.len(),
{
    if bytes.len() == 0 {
        d
    } else {
        put(put_hex(d, bytes.drop_last()), hex_pair(bytes.last()))
    }
}

/// Adds `expires <ts>: <action> `.
pub open spec fn put_header(d: Draft, ctx: ContextView) -> Draft {
    put(
        put(
            put(
                put_timestamp(put(d, "expires ".spec_bytes()), ctx.expiry as int),
                ": ".spec_bytes(),
            ),
            ctx.action,
        ),
        " ".spec_bytes(),
    )
}

/// Adds ` | wallet: <name> proposal: <index>`.
pub open spec fn put_suffix(d: Draft, ctx: ContextView) -> Draft {
    put(
        put(put(put(d, " | wallet: ".spec_bytes()), ctx.wallet_name), " proposal: ".spec_bytes()),
        decimal(ctx.proposal_index as nat),
    )
}

/// Message buffer. The front is reserved for the Solana offchain message
/// header, which `finalize` fills in.
pub struct MessageBuilder {
    buf: Vec<u8>,
}

impl View for MessageBuilder {
    type V = Seq<u8>;

    closed spec fn view(&self) -> Seq<u8> {
        self.buf@
    }
}

impl Default for MessageBuilder {
    fn default() -> (r: Self)
        ensures
            r.wf(),
            r@ == Seq::new(20, |i: int| 0u8),
    {
        let buf: Vec<u8> = vec![0; 20];
        assert(buf@ =~= Seq::new(20, |i: int| 0u8));
        MessageBuilder { buf }
    }
}

impl MessageBuilder {
    /// Whether there is room for the header, and the message keeps its limit.
    pub open spec fn wf(&self) -> bool {
        OFFCHAIN_HEADER_LEN <= self@.len() <= MSG_BUF_SIZE
    }

    /// A builder without a message.
    pub fn new() -> (r: Self)
        ensures
            r.wf(),
            r@ == Seq::new(20, |i: int| 0u8),
    {
        Self::default()
    }

    /// Returns the full offchain-wrapped message bytes for signature verification.
    pub fn as_bytes(&self) -> (r: &[u8])
        ensures
            r@ == self@,
    {
        self.buf.as_slice()
    }

    /// Finalize the offchain header. Must be called after the message body is complete.
    pub fn finalize(&mut self) -> (r: Result<(), ProgramError>)
        requires
            old(self).wf(),
        ensures
            final(self).wf(),
            r is Ok,
            final(self)@ == offchain_message(old(self)@.skip(20)),
    {
        let mut out = offchain_header_bytes(self.buf.len() - OFFCHAIN_HEADER_LEN);
        append_bytes(
            &mut out,
            slice_subrange(self.buf.as_slice(), OFFCHAIN_HEADER_LEN, self.buf.len()),
        );
        assert(out@ =~= offchain_message(self.buf@.skip(20)));
        self.buf = out;
        Ok(())
    }

    fn push_bytes(&mut self, data: &[u8]) -> (r: Result<(), ProgramError>)
        requires
            old(self).wf(),
        ensures
            final(self).wf(),
            outcome(final(self)@, r) == put(draft(old(self)@), data@),
    {
        if data.len() > MSG_BUF_SIZE - self.buf.len() {
            return Err(ProgramError::InvalidInstructionData);
        }
        append_bytes(&mut self.buf, data);
        Ok(())
    }

    fn push_str(&mut self, s: &str) -> (r: Result<(), ProgramError>)
        requires
            old(self).wf(),
        ensures
            final(self).wf(),
            outcome(final(self)@, r) == put(draft(old(self)@), s.spec_bytes()),
    {
        self.push_bytes(s.as_bytes())
    }

    fn push_base58(&mut self, address: &[u8]) -> (r: Result<(), ProgramError>)
        requires
            old(self).wf(),
        ensures
            final(self).wf(),
            outcome(final(self)@, r) == if base58(address@).len() > 44 {
                fail(draft(old(self)@), ProgramError::InvalidInstructionData)
            } else {
                put(draft(old(self)@), base58(address@))
            },
    {
        match encode_base58(address, 44) {
            Some(text) => self.push_bytes(text.as_slice()),
            None => Err(ProgramError::InvalidInstructionData),
        }
    }

    /// Adds a number in decimal.
    pub fn push_u64(&mut self, val: u64) -> (r: Result<(), ProgramError>)
        requires
            old(self).wf(),
        ensures
            final(self).wf(),
            outcome(final(self)@, r) == put(draft(old(self)@), decimal(val as nat)),
    {
        self.push_u128(val as u128)
    }

    fn push_i64(&mut self, val: i64) -> (r: Result<(), ProgramError>)
        requires
            old(self).wf(),
        ensures
            final(self).wf(),
            outcome(final(self)@, r) == put_signed(draft(old(self)@), val as int),
    {
        if val < 0 {
            self.push_str("-")?;
            self.push_u64((-(val as i128)) as u64)
        } else {
            self.push_u64(val as u64)
        }
    }

    fn push_timestamp(&mut self, ts: i64) -> (r: Result<(), ProgramError>)
        requires
            old(self).wf(),
        ensures
            final(self).wf(),
            outcome(final(self)@, r) == put_timestamp(draft(old(self)@), ts as int),
    {
        match format_timestamp(ts) {
            Some(text) => self.push_bytes(text.as_slice()),
            None => Err(ProgramError::InvalidInstructionData),
        }
    }

    fn push_hex(&mut self, data: &[u8]) -> (r: Result<(), ProgramError>)
        requires
            old(self).wf(),
        ensures
            final(self).wf(),
            outcome(final(self)@, r) == put_hex(draft(old(self)@), data@),
    {
        let ghost start = draft(self@);
        let mut i: usize = 0;
        while i < data.len()
            invariant
                self.wf(),
                i <= data@.len(),
                start == draft(old(self)@),
                draft(self@) == put_hex(start, data@.take(i as int)),
            decreases data@.len() - i,
        {
            let pair = hex_pair_bytes(data[i]);
            assert(data@.take(i as int + 1).drop_last() =~= data@.take(i as int));
            match self.push_bytes(&pair) {
                Ok(_) => {},
                Err(e) => {
                    proof {
                        lemma_put_hex_failed(start, data@, i as int + 1);
                    }
                    return Err(e);
                },
            }
            i = i + 1;
        }
        assert(data@.take(i as int) =~= data@);
        Ok(())
    }

    fn push_header(&mut self, ctx: &MessageContext<'_>) -> (r: Result<(), ProgramError>)
        requires
            old(self).wf(),
        ensures
            final(self).wf(),
            outcome(final(self)@, r) == put_header(draft(old(self)@), ctx@),
    {
        self.push_str("expires ")?;
        self.push_timestamp(ctx.expiry)?;
        self.push_str(": ")?;
        self.push_str(ctx.action)?;
        self.push_str(" ")
    }

    fn push_suffix(&mut self, ctx: &MessageContext<'_>) -> (r: Result<(), ProgramError>)
        requires
            old(self).wf(),
        ensures
            final(self).wf(),
            outcome(final(self)@, r) == put_suffix(draft(old(self)@), ctx@),
    {
        self.push_str(" | wallet: ")?;
        self.push_str(ctx.wallet_name)?;
        self.push_str(" proposal: ")?;
        self.push_u64(ctx.proposal_index)
    }

    fn push_u128(&mut self, val: u128) -> (r: Result<(), ProgramError>)
        requires
            old(self).wf(),
        ensures
            final(self).wf(),
            outcome(final(self)@, r) == put(draft(old(self)@), decimal(val as nat)),
    {
        self.push_bytes(decimal_bytes(val).as_slice())
    }
}

/// Hexadecimal text that failed in its front part stays as it was.
proof fn lemma_put_hex_failed(d: Draft, data: Seq<u8>, k: int)
    requires
        0 <= k <= data.len(),
        put_hex(d, data.take(k)).error is Some,
    ensures
        put_hex(d, data) == put_hex(d, data.take(k)),
    decreases data.len() - k,
{
    if k < data.len() {
        assert(data.take(k + 1).drop_last() =~= data.take(k));
        lemma_put_hex_failed(d, data, k + 1);
    } else {
        assert(data.take(k) =~= data);
    }
}

/// The number that a placeholder's digits denote, where it fits 64 bits. No
/// digits denote zero.
pub open spec fn parsed_number(digits: Seq<u8>) -> Option<nat> {
    if all_digits(digits) && decimal_value(digits) <= u64::MAX {
        Some(decimal_value(digits))
    } else {
        None
    }
}

/// More digits make no smaller number.
proof fn lemma_more_digits(digits: Seq<u8>, k: int)
    requires
        0 <= k <= digits.len(),
        all_digits(digits),
    ensures
        decimal_value(digits.take(k)) <= decimal_value(digits),
    decreases digits.len() - k,
{
    if k < digits.len() {
        assert(digits.take(k + 1).drop_last() =~= digits.take(k));
        assert(decimal_value(digits.take(k)) <= decimal_value(digits.take(k + 1)));
        lemma_more_digits(digits, k + 1);
    } else {
        assert(digits.take(k) =~= digits);
    }
}

/// Reads the digits of a placeholder.
fn parse_usize(s: &[u8]) -> (r: Result<u64, ProgramError>)
    ensures
        match parsed_number(s@) {
            Some(n) => r is Ok && r->Ok_0 == n,
            None => r == Err::<u64, ProgramError>(ProgramError::InvalidInstructionData),
        },
{
    let mut n: u64 = 0;
    let mut i: usize = 0;
    while i < s.len()
        invariant
            i <= s@.len(),
            all_digits(s@.take(i as int)),
            n == decimal_value(s@.take(i as int)),
        decreases s@.len() - i,
    {
        let b: u8 = s[i];
        let ghost next = s@.take(i as int + 1);
        proof {
            assert(next.drop_last() =~= s@.take(i as int));
            assert(next.last() == b);
            if all_digits(s@) {
                lemma_more_digits(s@, i as int + 1);
            }
        }
        if b < 48 || b > 57 {
            assert(!all_digits(s@));
            return Err(ProgramError::InvalidInstructionData);
        }
        let tens: u64 = match n.checked_mul(10) {
            Some(tens) => tens,
            None => {
                return Err(ProgramError::InvalidInstructionData);
            },
        };
        n = match tens.checked_add((b - 48) as u64) {
            Some(sum) => sum,
            None => {
                return Err(ProgramError::InvalidInstructionData);
            },
        };
        assert forall|j: int| 0 <= j < next.len() implies 48 <= #[trigger] next[j] <= 57 by {
            if j < i {
                assert(next[j] == s@.take(i as int)[j]);
            }
        }
        i = i + 1;
    }
    assert(s@.take(i as int) =~= s@);
    Ok(n)
}

/// The first closing brace from `j` on.
pub open spec fn closing_brace(template: Seq<u8>, j: int) -> Option<int>
    decreases template.len() - j,
{
    if j >= template.len() {
        None
    } else if template[j] == 125 {
        Some(j)
    } else {
        closing_brace(template, j + 1)
    }
}

/// Finds the first closing brace from `start` on.
fn find_closing_brace(template: &[u8], start: usize) -> (r: Option<usize>)
    requires
        start <= template@.len(),
    ensures
        match closing_brace(template@, start as int) {
            Some(j) => r is Some && r->0 == j && start <= j < template@.len(),
            None => r is None,
        },
{
    let mut j: usize = start;
    while j < template.len()
        invariant
            start <= j <= template@.len(),
            closing_brace(template@, start as int) == closing_brace(template@, j as int),
        decreases template@.len() - j,
    {
        if template[j] == 125 {
            return Some(j);
        }
        j = j + 1;
    }
    None
}

/// A signed number in decimal.
pub open spec fn signed_decimal(n: int) -> Seq<u8> {
    if n < 0 {
        "-".spec_bytes() + decimal((-n) as nat)
    } else {
        decimal(n as nat)
    }
}

/// A little-endian number of `width` bytes at `offset`, in decimal. Where the
/// data end before the number does, the program stops.
pub open spec fn number_text(data: Seq<u8>, offset: int, width: int) -> Result<
    Seq<u8>,
    ProgramError,
> {
    match part(data, offset, width) {
        Some(bytes) => Ok(decimal(le_value(bytes))),
        None => Err(ProgramError::ProgramFailedToComplete),
    }
}

/// How the value of a parameter that starts at `offset` is shown. Where the
/// data end before the value does, a flag or a single byte is refused; for the
/// other types the program stops.
pub open spec fn value_text(param_type: ParamType, data: Seq<u8>, offset: int) -> Result<
    Seq<u8>,
    ProgramError,
> {
    match param_type {
        ParamType::Address => match part(data, offset, 32) {
            Some(bytes) => Ok(base58(bytes)),
            None => Err(ProgramError::ProgramFailedToComplete),
        },
        ParamType::U64 => number_text(data, offset, 8),
        ParamType::I64 => match part(data, offset, 8) {
            Some(bytes) => Ok(signed_decimal(i64_of_bits(le_value(bytes)))),
            None => Err(ProgramError::ProgramFailedToComplete),
        },
        ParamType::String => if !(0 <= offset < data.len()) {
            Err(ProgramError::ProgramFailedToComplete)
        } else {
            match part(data, offset + 1, data[offset] as int) {
                Some(bytes) => if valid_utf8(bytes) {
                    Ok(bytes)
                } else {
                    Err(ProgramError::InvalidInstructionData)
                },
                None => Err(ProgramError::ProgramFailedToComplete),
            }
        },
        ParamType::Bool => if !(0 <= offset < data.len()) {
            Err(ProgramError::InvalidInstructionData)
        } else if data[offset] != 0 {
            Ok("true".spec_bytes())
        } else {
            Ok("false".spec_bytes())
        },
        ParamType::U8 => if !(0 <= offset < data.len()) {
            Err(ProgramError::InvalidInstructionData)
        } else {
            Ok(decimal(data[offset] as nat))
        },
        ParamType::U16 => number_text(data, offset, 2),
        ParamType::U32 => number_text(data, offset, 4),
        ParamType::U128 => number_text(data, offset, 16),
    }
}

/// How the parameter with number `k` is shown.
pub open spec fn param_text(params: Seq<ParamEntry>, data: Seq<u8>, k: int) -> Result<
    Seq<u8>,
    ProgramError,
> {
    if k >= params.len() {
        Err(ProgramError::InvalidInstructionData)
    } else {
        match param_offset_of(params, data, k) {
            Some(offset) => value_text(params[k].param_type, data, offset),
            None => Err(ProgramError::InvalidInstructionData),
        }
    }
}

/// A template from position `i` on, with the parameters in place of their
/// placeholders: `{k}` stands for the parameter with number `k`, where the
/// number counts modulo 256.
pub open spec fn template_text(
    template: Seq<u8>,
    params: Seq<ParamEntry>,
    data: Seq<u8>,
    i: int,
) -> Option<Seq<u8>>
    decreases template.len() - i,
    when 0 <= i
{
    if i >= template.len() {
        Some(Seq::empty())
    } else if template[i] == 123 {
        match closing_brace(template, i + 1) {
            None => None,
            Some(end) => if !(i < end < template.len()) {
                None
            } else {
                match parsed_number(template.subrange(i + 1, end)) {
                    None => None,
                    Some(n) => match param_text(params, data, (n % 256) as int) {
                        Err(_) => None,
                        Ok(value) => match template_text(template, params, data, end + 1) {
                            None => None,
                            Some(rest) => Some(value + rest),
                        },
                    },
                }
            },
        }
    } else {
        match template_text(template, params, data, i + 1) {
            None => None,
            Some(rest) => Some(seq![template[i]] + rest),
        }
    }
}

/// What a message says of a proposal of an intent with the given parameters.
pub open spec fn content_text(intent: Intent, data: Seq<u8>) -> Option<Seq<u8>> {
    match intent.intent_type {
        IntentType::AddIntent => Some(add_intent_text(sha256_digest(data))),
        IntentType::RemoveIntent => if data.len() == 1 {
            Some(remove_intent_text(data[0]))
        } else {
            None
        },
        IntentType::UpdateIntent => if data.len() > 1 {
            Some(update_intent_text(data[0], sha256_digest(data.skip(1))))
        } else {
            None
        },
        IntentType::Custom => match intent.template_bytes() {
            Some(template) => template_text(template, intent.params@, data, 0),
            None => None,
        },
    }
}

/// Adds the value of a parameter that starts at `offset`. A signed number is
/// added in two pieces.
pub open spec fn put_value(d: Draft, param_type: ParamType, data: Seq<u8>, offset: int) -> Draft {
    match value_text(param_type, data, offset) {
        Err(e) => fail(d, e),
        Ok(text) => if param_type == ParamType::I64 {
            put_signed(d, i64_of_bits(le_value(part(data, offset, 8)->0)))
        } else {
            put(d, text)
        },
    }
}

/// Adds the value of the parameter with number `k`.
pub open spec fn put_param(d: Draft, params: Seq<ParamEntry>, data: Seq<u8>, k: int) -> Draft {
    if k >= params.len() {
        fail(d, ProgramError::InvalidInstructionData)
    } else {
        match param_offset_of(params, data, k) {
            Some(offset) => put_value(d, params[k].param_type, data, offset),
            None => fail(d, ProgramError::InvalidInstructionData),
        }
    }
}

/// Adds a template from position `i` on, with parameter values in place of
/// their placeholders. A placeholder's number counts modulo 256.
pub open spec fn put_template(
    d: Draft,
    template: Seq<u8>,
    params: Seq<ParamEntry>,
    data: Seq<u8>,
    i: int,
) -> Draft
    decreases template.len() - i,
    when 0 <= i
{
    if d.error is Some || i >= template.len() {
        d
    } else if template[i] == 123 {
        match closing_brace(template, i + 1) {
            None => fail(d, ProgramError::InvalidInstructionData),
            Some(end) => if !(i < end < template.len()) {
                d
            } else {
                match parsed_number(template.subrange(i + 1, end)) {
                    None => fail(d, ProgramError::InvalidInstructionData),
                    Some(n) => put_template(
                        put_param(d, params, data, (n % 256) as int),
                        template,
                        params,
                        data,
                        end + 1,
                    ),
                }
            },
        }
    } else {
        put_template(put(d, seq![template[i]]), template, params, data, i + 1)
    }
}

impl MessageBuilder {
    fn push_le(&mut self, bytes: &[u8]) -> (r: Result<(), ProgramError>)
        requires
            old(self).wf(),
            bytes@.len() <= 16,
        ensures
            final(self).wf(),
            outcome(final(self)@, r) == put(draft(old(self)@), decimal(le_value(bytes@))),
    {
        self.push_u128(read_le(bytes))
    }

    fn push_value(&mut self, param_type: ParamType, data: &[u8], offset: usize) -> (r: Result<
        (),
        ProgramError,
    >)
        requires
            old(self).wf(),
            offset < usize::MAX,
        ensures
            final(self).wf(),
            outcome(final(self)@, r) == put_value(
                draft(old(self)@),
                param_type,
                data@,
                offset as int,
            ),
    {
        match param_type {
            ParamType::Address => match get_part(data, offset, 32) {
                Some(bytes) => {
                    proof {
                        address_fits_base58(bytes@);
                    }
                    self.push_base58(bytes)
                },
                None => Err(ProgramError::ProgramFailedToComplete),
            },
            ParamType::U64 => match get_part(data, offset, 8) {
                Some(bytes) => self.push_le(bytes),
                None => Err(ProgramError::ProgramFailedToComplete),
            },
            ParamType::I64 => match get_part(data, offset, 8) {
                Some(bytes) => {
                    proof {
                        crate::bytes::le_value_bound(bytes@);
                        crate::bytes::byte_capacities();
                    }
                    self.push_i64(from_u64_bits(read_le(bytes) as u64))
                },
                None => Err(ProgramError::ProgramFailedToComplete),
            },
            ParamType::String => {
                if offset >= data.len() {
                    return Err(ProgramError::ProgramFailedToComplete);
                }
                match get_part(data, offset + 1, data[offset] as usize) {
                    Some(bytes) => match utf8_text(bytes) {
                        Some(text) => self.push_str(text),
                        None => Err(ProgramError::InvalidInstructionData),
                    },
                    None => Err(ProgramError::ProgramFailedToComplete),
                }
            },
            ParamType::Bool => {
                if offset >= data.len() {
                    return Err(ProgramError::InvalidInstructionData);
                }
                if data[offset] != 0 {
                    self.push_str("true")
                } else {
                    self.push_str("false")
                }
            },
            ParamType::U8 => {
                if offset >= data.len() {
                    return Err(ProgramError::InvalidInstructionData);
                }
                self.push_u64(data[offset] as u64)
            },
            ParamType::U16 => match get_part(data, offset, 2) {
                Some(bytes) => self.push_le(bytes),
                None => Err(ProgramError::ProgramFailedToComplete),
            },
            ParamType::U32 => match get_part(data, offset, 4) {
                Some(bytes) => self.push_le(bytes),
                None => Err(ProgramError::ProgramFailedToComplete),
            },
            ParamType::U128 => match get_part(data, offset, 16) {
                Some(bytes) => self.push_le(bytes),
                None => Err(ProgramError::ProgramFailedToComplete),
            },
        }
    }

    fn render_param(&mut self, intent: &Intent, data: &[u8], idx: u8) -> (r: Result<
        (),
        ProgramError,
    >)
        requires
            old(self).wf(),
        ensures
            final(self).wf(),
            outcome(final(self)@, r) == put_param(
                draft(old(self)@),
                intent.params@,
                data@,
                idx as int,
            ),
    {
        if idx as usize >= intent.params.len() {
            return Err(ProgramError::InvalidInstructionData);
        }
        let offset: usize = intent.param_offset(data, idx)?;
        self.push_value(intent.params[idx as usize].param_type, data, offset)
    }

    fn render_template(&mut self, intent: &Intent, params_data: &[u8]) -> (r: Result<
        (),
        ProgramError,
    >)
        requires
            old(self).wf(),
        ensures
            final(self).wf(),
            outcome(final(self)@, r) == match intent.template_bytes() {
                Some(template) => put_template(
                    draft(old(self)@),
                    template,
                    intent.params@,
                    params_data@,
                    0,
                ),
                None => fail(draft(old(self)@), ProgramError::InvalidInstructionData),
            },
    {
        let bytes = match intent.template_str() {
            Ok(template) => template.as_bytes(),
            Err(e) => {
                return Err(e);
            },
        };
        let ghost whole = put_template(
            draft(self@),
            bytes@,
            intent.params@,
            params_data@,
            0,
        );
        let mut i: usize = 0;
        while i < bytes.len()
            invariant
                self.wf(),
                i <= bytes@.len(),
                intent.template_bytes() == Some(bytes@),
                whole == put_template(
                    draft(old(self)@),
                    bytes@,
                    intent.params@,
                    params_data@,
                    0,
                ),
                whole == put_template(
                    draft(self@),
                    bytes@,
                    intent.params@,
                    params_data@,
                    i as int,
                ),
            decreases bytes@.len() - i,
        {
            proof {
                reveal_with_fuel(put_template, 2);
            }
            if bytes[i] == 123 {
                let end: usize = match find_closing_brace(bytes, i + 1) {
                    Some(end) => end,
                    None => {
                        return Err(ProgramError::InvalidInstructionData);
                    },
                };
                let n: u64 = parse_usize(slice_subrange(bytes, i + 1, end))?;
                self.render_param(intent, params_data, (n % 256) as u8)?;
                i = end + 1;
            } else {
                let piece: [u8; 1] = [bytes[i]];
                assert(piece@ =~= seq![bytes@[i as int]]);
                self.push_bytes(&piece)?;
                i = i + 1;
            }
        }
        Ok(())
    }
}

/// Adds the message of a custom intent.
pub open spec fn put_custom(d: Draft, ctx: ContextView, intent: Intent, data: Seq<u8>) -> Draft {
    let headed = put_header(d, ctx);
    let rendered = match intent.template_bytes() {
        Some(template) => put_template(headed, template, intent.params@, data, 0),
        None => fail(headed, ProgramError::InvalidInstructionData),
    };
    put_suffix(rendered, ctx)
}

/// Adds the message of an intent that adds an intent.
pub open spec fn put_add_intent(d: Draft, ctx: ContextView, definition_hash: Seq<u8>) -> Draft {
    put_suffix(
        put_hex(
            put(put_header(d, ctx), "add intent definition_hash: ".spec_bytes()),
            definition_hash,
        ),
        ctx,
    )
}

/// Adds the message of an intent that removes an intent.
pub open spec fn put_remove_intent(d: Draft, ctx: ContextView, intent_index: u8) -> Draft {
    put_suffix(
        put(
            put(put_header(d, ctx), "remove intent ".spec_bytes()),
            decimal(intent_index as nat),
        ),
        ctx,
    )
}

/// Adds the message of an intent that updates an intent.
pub open spec fn put_update_intent(
    d: Draft,
    ctx: ContextView,
    intent_index: u8,
    definition_hash: Seq<u8>,
) -> Draft {
    put_suffix(
        put_hex(
            put(
                put(
                    put(put_header(d, ctx), "update intent ".spec_bytes()),
                    decimal(intent_index as nat),
                ),
                " definition_hash: ".spec_bytes(),
            ),
            definition_hash,
        ),
        ctx,
    )
}

/// Adds the message for a proposal of an intent with the given parameters.
pub open spec fn put_for_intent(d: Draft, ctx: ContextView, intent: Intent, data: Seq<u8>) -> Draft {
    match intent.intent_type {
        IntentType::AddIntent => put_add_intent(d, ctx, sha256_digest(data)),
        IntentType::RemoveIntent => if data.len() != 1 {
            fail(d, ProgramError::InvalidInstructionData)
        } else {
            put_remove_intent(d, ctx, data[0])
        },
        IntentType::UpdateIntent => if data.len() <= 1 {
            fail(d, ProgramError::InvalidInstructionData)
        } else {
            put_update_intent(d, ctx, data[0], sha256_digest(data.skip(1)))
        },
        IntentType::Custom => put_custom(d, ctx, intent, data),
    }
}

/// Fills in the offchain header of a draft without an error.
pub open spec fn finished(d: Draft) -> Draft {
    if d.error is Some {
        d
    } else {
        draft(offchain_message(d.bytes.skip(20)))
    }
}

/// The message that is signed for a proposal of an intent with the given
/// parameters, or why there is none.
pub open spec fn signed_message(ctx: ContextView, intent: Intent, data: Seq<u8>) -> Result<
    Seq<u8>,
    ProgramError,
> {
    let d = finished(put_for_intent(draft(Seq::new(20, |i: int| 0u8)), ctx, intent, data));
    match d.error {
        Some(e) => Err(e),
        None => Ok(d.bytes),
    }
}

impl MessageBuilder {
    /// Build the appropriate message for any intent type (meta or custom).
    /// Puts the Solana offchain message header in front for Ledger compatibility.
    pub fn build_message_for_intent(
        &mut self,
        ctx: &MessageContext<'_>,
        intent: &Intent,
        params_data: &[u8],
    ) -> (r: Result<(), ProgramError>)
        requires
            old(self).wf(),
        ensures
            final(self).wf(),
            outcome(final(self)@, r) == finished(
                put_for_intent(draft(old(self)@), ctx@, *intent, params_data@),
            ),
    {
        match intent.intent_type {
            IntentType::AddIntent => {
                let h = sha256(params_data);
                self.build_add_intent_message(ctx, &h)?;
            },
            IntentType::RemoveIntent => {
                if params_data.len() != 1 {
                    return Err(ProgramError::InvalidInstructionData);
                }
                self.build_remove_intent_message(ctx, params_data[0])?;
            },
            IntentType::UpdateIntent => {
                if params_data.len() <= 1 {
                    return Err(ProgramError::InvalidInstructionData);
                }
                let body = slice_subrange(params_data, 1, params_data.len());
                assert(body@ =~= params_data@.skip(1));
                let h = sha256(body);
                self.build_update_intent_message(ctx, params_data[0], &h)?;
            },
            IntentType::Custom => {
                self.build_custom_message(ctx, intent, params_data)?;
            },
        }
        self.finalize()
    }

    /// Adds the message of a custom intent.
    pub fn build_custom_message(
        &mut self,
        ctx: &MessageContext<'_>,
        intent: &Intent,
        params_data: &[u8],
    ) -> (r: Result<(), ProgramError>)
        requires
            old(self).wf(),
        ensures
            final(self).wf(),
            outcome(final(self)@, r) == put_custom(
                draft(old(self)@),
                ctx@,
                *intent,
                params_data@,
            ),
    {
        self.push_header(ctx)?;
        self.render_template(intent, params_data)?;
        self.push_suffix(ctx)
    }

    /// Adds the message of an intent that adds an intent.
    pub fn build_add_intent_message(
        &mut self,
        ctx: &MessageContext<'_>,
        definition_hash: &[u8; 32],
    ) -> (r: Result<(), ProgramError>)
        requires
            old(self).wf(),
        ensures
            final(self).wf(),
            outcome(final(self)@, r) == put_add_intent(
                draft(old(self)@),
                ctx@,
                definition_hash@,
            ),
    {
        proof {
            lemma_failed_hex(definition_hash@);
        }
        self.push_header(ctx)?;
        self.push_str("add intent definition_hash: ")?;
        self.push_hex(definition_hash)?;
        self.push_suffix(ctx)
    }

    /// Adds the message of an intent that removes an intent.
    pub fn build_remove_intent_message(
        &mut self,
        ctx: &MessageContext<'_>,
        intent_index: u8,
    ) -> (r: Result<(), ProgramError>)
        requires
            old(self).wf(),
        ensures
            final(self).wf(),
            outcome(final(self)@, r) == put_remove_intent(draft(old(self)@), ctx@, intent_index),
    {
        self.push_header(ctx)?;
        self.push_str("remove intent ")?;
        self.push_u64(intent_index as u64)?;
        self.push_suffix(ctx)
    }

    /// Adds the message of an intent that updates an intent.
    pub fn build_update_intent_message(
        &mut self,
        ctx: &MessageContext<'_>,
        intent_index: u8,
        definition_hash: &[u8; 32],
    ) -> (r: Result<(), ProgramError>)
        requires
            old(self).wf(),
        ensures
            final(self).wf(),
            outcome(final(self)@, r) == put_update_intent(
                draft(old(self)@),
                ctx@,
                intent_index,
                definition_hash@,
            ),
    {
        proof {
            lemma_failed_hex(definition_hash@);
        }
        self.push_header(ctx)?;
        self.push_str("update intent ")?;
        self.push_u64(intent_index as u64)?;
        self.push_str(" definition_hash: ")?;
        self.push_hex(definition_hash)?;
        self.push_suffix(ctx)
    }
}

/// Nothing in hexadecimal is added to a draft with an error.
proof fn lemma_failed_hex(bytes: Seq<u8>)
    ensures
        forall|d: Draft| d.error is Some ==> #[trigger] put_hex(d, bytes) == d,
    decreases bytes.len(),
{
    if bytes.len() > 0 {
        lemma_failed_hex(bytes.drop_last());
        assert forall|d: Draft| d.error is Some implies #[trigger] put_hex(d, bytes) == d by {
            assert(put_hex(d, bytes.drop_last()) == d);
        }
    }
}

} // verus!
