//! Laws on the texts that members sign.
use crate::bytes::{i64_of_bits, le_value, part};
use crate::crypto::sha256_digest;
use crate::error::ProgramError;
use crate::state::intent::{param_offset_of, Intent, IntentType};
use crate::text::{decimal, hex, hex_pair};
use crate::utils::datetime::{has_plain_year, timestamp_text};
use crate::utils::definition::{ParamEntry, ParamType};
use crate::utils::message::{
    add_intent_text, closing_brace, content_text, draft, header_text, message_text,
    offchain_message, param_text, parsed_number, put, put_add_intent, put_custom, put_header,
    put_hex, put_param, put_remove_intent, put_suffix, put_template, put_timestamp,
    put_update_intent, remove_intent_text, signed_message, suffix_text, template_text,
    update_intent_text, ContextView, Draft, MSG_BUF_SIZE,
};
use vstd::prelude::*;
use vstd::string::StringSliceAdditionalSpecFns;

verus! {

/// Whether a draft comes from another by adding a text, or by failing because
/// the text does not fit.
spec fn written(before: Draft, after: Draft, text: Seq<u8>) -> bool {
    before.error is None ==> if before.bytes.len() + text.len() <= MSG_BUF_SIZE {
        after == draft(before.bytes + text)
    } else {
        after.error == Some(ProgramError::InvalidInstructionData)
    }
}

proof fn lemma_put(before: Draft, after: Draft, text: Seq<u8>, piece: Seq<u8>)
    requires
        written(before, after, text),
    ensures
        written(before, put(after, piece), text + piece),
{
    assert(before.bytes + text + piece =~= before.bytes + (text + piece));
}

proof fn lemma_put_hex(before: Draft, after: Draft, text: Seq<u8>, bytes: Seq<u8>)
    requires
        written(before, after, text),
    ensures
        written(before, put_hex(after, bytes), text + hex(bytes)),
    decreases bytes.len(),
{
    if bytes.len() == 0 {
        assert(text + hex(bytes) =~= text);
    } else {
        lemma_put_hex(before, after, text, bytes.drop_last());
        lemma_put(
            before,
            put_hex(after, bytes.drop_last()),
            text + hex(bytes.drop_last()),
            hex_pair(bytes.last()),
        );
        assert(text + hex(bytes.drop_last()) + hex_pair(bytes.last()) =~= text + hex(bytes));
    }
}

proof fn lemma_header(d: Draft, ctx: ContextView)
    requires
        has_plain_year(ctx.expiry as int),
    ensures
        written(d, put_header(d, ctx), header_text(ctx)),
{
    let expires = "expires ".spec_bytes();
    let ts = timestamp_text(ctx.expiry as int);
    let colon = ": ".spec_bytes();
    let space = " ".spec_bytes();
    let d1 = put(d, expires);
    let d2 = put_timestamp(d1, ctx.expiry as int);
    lemma_put(d, d1, expires, ts);
    let d3 = put(d2, colon);
    lemma_put(d, d2, expires + ts, colon);
    let d4 = put(d3, ctx.action);
    lemma_put(d, d3, expires + ts + colon, ctx.action);
    lemma_put(d, d4, expires + ts + colon + ctx.action, space);
}

proof fn lemma_suffix(before: Draft, after: Draft, text: Seq<u8>, ctx: ContextView)
    requires
        written(before, after, text),
    ensures
        written(
            before,
            put_suffix(after, ctx),
            text + suffix_text(ctx.wallet_name, ctx.proposal_index),
        ),
{
    let wallet = " | wallet: ".spec_bytes();
    let proposal = " proposal: ".spec_bytes();
    let index = decimal(ctx.proposal_index as nat);
    let d1 = put(after, wallet);
    lemma_put(before, after, text, wallet);
    let d2 = put(d1, ctx.wallet_name);
    lemma_put(before, d1, text + wallet, ctx.wallet_name);
    let d3 = put(d2, proposal);
    lemma_put(before, d2, text + wallet + ctx.wallet_name, proposal);
    lemma_put(before, d3, text + wallet + ctx.wallet_name + proposal, index);
    assert(text + wallet + ctx.wallet_name + proposal + index =~= text + suffix_text(
        ctx.wallet_name,
        ctx.proposal_index,
    ));
}

proof fn lemma_no_header(d: Draft, ctx: ContextView)
    requires
        !has_plain_year(ctx.expiry as int),
        d.error is None,
    ensures
        put_header(d, ctx).error == Some(ProgramError::InvalidInstructionData),
{
}

/// The message that removes an intent is refused exactly where it does not fit
/// or its expiry does not lie in the years 0 to 9999.
pub proof fn remove_message(d: Draft, ctx: ContextView, intent_index: u8)
    requires
        d.error is None,
    ensures
        ({
            let text = message_text(ctx, remove_intent_text(intent_index));
            put_remove_intent(d, ctx, intent_index) == draft(d.bytes + text) || put_remove_intent(
                d,
                ctx,
                intent_index,
            ).error == Some(ProgramError::InvalidInstructionData)
        }),
        put_remove_intent(d, ctx, intent_index).error is None <==> has_plain_year(
            ctx.expiry as int,
        ) && d.bytes.len() + message_text(ctx, remove_intent_text(intent_index)).len()
            <= MSG_BUF_SIZE,
{
    let headed = put_header(d, ctx);
    let remove = "remove intent ".spec_bytes();
    let index = decimal(intent_index as nat);
    let text = message_text(ctx, remove_intent_text(intent_index));
    if has_plain_year(ctx.expiry as int) {
        lemma_header(d, ctx);
        lemma_put(d, headed, header_text(ctx), remove);
        lemma_put(d, put(headed, remove), header_text(ctx) + remove, index);
        assert(header_text(ctx) + remove + index =~= header_text(ctx) + remove_intent_text(
            intent_index,
        ));
        lemma_suffix(
            d,
            put(put(headed, remove), index),
            header_text(ctx) + remove_intent_text(intent_index),
            ctx,
        );
    } else {
        lemma_no_header(d, ctx);
    }
}

/// The message that adds an intent is refused exactly where it does not fit or
/// its expiry does not lie in the years 0 to 9999.
pub proof fn add_message(d: Draft, ctx: ContextView, definition_hash: Seq<u8>)
    requires
        d.error is None,
    ensures
        ({
            let text = message_text(ctx, add_intent_text(definition_hash));
            put_add_intent(d, ctx, definition_hash) == draft(d.bytes + text) || put_add_intent(
                d,
                ctx,
                definition_hash,
            ).error == Some(ProgramError::InvalidInstructionData)
        }),
        put_add_intent(d, ctx, definition_hash).error is None <==> has_plain_year(
            ctx.expiry as int,
        ) && d.bytes.len() + message_text(ctx, add_intent_text(definition_hash)).len()
            <= MSG_BUF_SIZE,
{
    let headed = put_header(d, ctx);
    let words = "add intent definition_hash: ".spec_bytes();
    if has_plain_year(ctx.expiry as int) {
        lemma_header(d, ctx);
        lemma_put(d, headed, header_text(ctx), words);
        lemma_put_hex(d, put(headed, words), header_text(ctx) + words, definition_hash);
        assert(header_text(ctx) + words + hex(definition_hash) =~= header_text(ctx)
            + add_intent_text(definition_hash));
        lemma_suffix(
            d,
            put_hex(put(headed, words), definition_hash),
            header_text(ctx) + add_intent_text(definition_hash),
            ctx,
        );
    } else {
        lemma_no_header(d, ctx);
        lemma_failed_hex(put(headed, words), definition_hash);
    }
}

proof fn lemma_failed_hex(d: Draft, bytes: Seq<u8>)
    requires
        d.error is Some,
    ensures
        put_hex(d, bytes) == d,
    decreases bytes.len(),
{
    if bytes.len() > 0 {
        lemma_failed_hex(d, bytes.drop_last());
    }
}

/// The message that updates an intent is refused exactly where it does not fit
/// or its expiry does not lie in the years 0 to 9999.
pub proof fn update_message(
    d: Draft,
    ctx: ContextView,
    intent_index: u8,
    definition_hash: Seq<u8>,
)
    requires
        d.error is None,
    ensures
        ({
            let text = message_text(ctx, update_intent_text(intent_index, definition_hash));
            put_update_intent(d, ctx, intent_index, definition_hash) == draft(d.bytes + text)
                || put_update_intent(d, ctx, intent_index, definition_hash).error == Some(
                ProgramError::InvalidInstructionData,
            )
        }),
        put_update_intent(d, ctx, intent_index, definition_hash).error is None <==> has_plain_year(
            ctx.expiry as int,
        ) && d.bytes.len() + message_text(
            ctx,
            update_intent_text(intent_index, definition_hash),
        ).len() <= MSG_BUF_SIZE,
{
    let headed = put_header(d, ctx);
    let update = "update intent ".spec_bytes();
    let index = decimal(intent_index as nat);
    let words = " definition_hash: ".spec_bytes();
    if has_plain_year(ctx.expiry as int) {
        lemma_header(d, ctx);
        lemma_put(d, headed, header_text(ctx), update);
        lemma_put(d, put(headed, update), header_text(ctx) + update, index);
        let d2 = put(put(headed, update), index);
        lemma_put(d, d2, header_text(ctx) + update + index, words);
        lemma_put_hex(d, put(d2, words), header_text(ctx) + update + index + words, definition_hash);
        assert(header_text(ctx) + update + index + words + hex(definition_hash) =~= header_text(ctx)
            + update_intent_text(intent_index, definition_hash));
        lemma_suffix(
            d,
            put_hex(put(d2, words), definition_hash),
            header_text(ctx) + update_intent_text(intent_index, definition_hash),
            ctx,
        );
    } else {
        lemma_no_header(d, ctx);
        lemma_failed_hex(put(put(put(headed, update), index), words), definition_hash);
    }
}

proof fn lemma_param(d: Draft, params: Seq<ParamEntry>, data: Seq<u8>, k: int)
    requires
        d.error is None,
    ensures
        match param_text(params, data, k) {
            Ok(text) => written(d, put_param(d, params, data, k), text),
            Err(_) => put_param(d, params, data, k).error is Some,
        },
{
    if k < params.len() {
        match param_offset_of(params, data, k) {
            Some(offset) => {
                if params[k].param_type == ParamType::I64 {
                    match part(data, offset, 8) {
                        Some(bytes) => {
                            let n = i64_of_bits(le_value(bytes));
                            if n < 0 {
                                let sign = "-".spec_bytes();
                                assert(d.bytes + sign + decimal((-n) as nat) =~= d.bytes + (sign
                                    + decimal((-n) as nat)));
                            }
                        },
                        None => {},
                    }
                }
            },
            None => {},
        }
    }
}

/// A template is written as its text, where all of it can be shown.
proof fn lemma_template(
    d: Draft,
    template: Seq<u8>,
    params: Seq<ParamEntry>,
    data: Seq<u8>,
    i: int,
)
    requires
        0 <= i,
        d.error is None,
        d.bytes.len() <= MSG_BUF_SIZE,
    ensures
        match template_text(template, params, data, i) {
            Some(text) => written(d, put_template(d, template, params, data, i), text),
            None => put_template(d, template, params, data, i).error is Some,
        },
    decreases template.len() - i, 0int,
{
    if i >= template.len() {
        assert(d.bytes + Seq::<u8>::empty() =~= d.bytes);
    } else if template[i] == 123 {
        match closing_brace(template, i + 1) {
            None => {},
            Some(end) => {
                lemma_closing_brace(template, i + 1);
                match parsed_number(template.subrange(i + 1, end)) {
                    None => {},
                    Some(n) => {
                        let k = (n % 256) as int;
                        lemma_param(d, params, data, k);
                        lemma_then(
                            d,
                            put_param(d, params, data, k),
                            match param_text(params, data, k) {
                                Ok(text) => Some(text),
                                Err(_) => None,
                            },
                            template,
                            params,
                            data,
                            end + 1,
                        );
                    },
                }
            },
        }
    } else {
        let letter = seq![template[i]];
        lemma_then(d, put(d, letter), Some(letter), template, params, data, i + 1);
    }
}

/// A template is written behind a piece of text.
proof fn lemma_then(
    d: Draft,
    next: Draft,
    piece: Option<Seq<u8>>,
    template: Seq<u8>,
    params: Seq<ParamEntry>,
    data: Seq<u8>,
    i: int,
)
    requires
        0 <= i,
        d.error is None,
        match piece {
            Some(text) => written(d, next, text),
            None => next.error is Some,
        },
    ensures
        match (piece, template_text(template, params, data, i)) {
            (Some(text), Some(rest)) => written(
                d,
                put_template(next, template, params, data, i),
                text + rest,
            ),
            _ => put_template(next, template, params, data, i).error is Some,
        },
    decreases template.len() - i, 1int,
{
    if next.error is None {
        lemma_template(next, template, params, data, i);
        match (piece, template_text(template, params, data, i)) {
            (Some(text), Some(rest)) => {
                assert(d.bytes + text + rest =~= d.bytes + (text + rest));
            },
            _ => {},
        }
    }
}

proof fn lemma_closing_brace(template: Seq<u8>, j: int)
    ensures
        closing_brace(template, j) is Some ==> j <= closing_brace(template, j)->0
            < template.len(),
    decreases template.len() - j,
{
    if j < template.len() && template[j] != 125 {
        lemma_closing_brace(template, j + 1);
    }
}

proof fn lemma_failed_template(
    d: Draft,
    template: Seq<u8>,
    params: Seq<ParamEntry>,
    data: Seq<u8>,
)
    requires
        d.error is Some,
    ensures
        put_template(d, template, params, data, 0) == d,
{
}

/// The message of a custom intent reads as its template with the parameters
/// filled in.
pub proof fn custom_message(d: Draft, ctx: ContextView, intent: Intent, data: Seq<u8>)
    requires
        d.error is None,
        intent.intent_type == IntentType::Custom,
    ensures
        put_custom(d, ctx, intent, data).error is None <==> {
            &&& content_text(intent, data) is Some
            &&& has_plain_year(ctx.expiry as int)
            &&& d.bytes.len() + message_text(ctx, content_text(intent, data)->0).len()
                <= MSG_BUF_SIZE
        },
        put_custom(d, ctx, intent, data).error is None ==> put_custom(d, ctx, intent, data)
            == draft(d.bytes + message_text(ctx, content_text(intent, data)->0)),
{
    let headed = put_header(d, ctx);
    match intent.template_bytes() {
        None => {},
        Some(template) => {
            let rendered = put_template(headed, template, intent.params@, data, 0);
            if has_plain_year(ctx.expiry as int) {
                lemma_header(d, ctx);
                lemma_then(
                    d,
                    headed,
                    Some(header_text(ctx)),
                    template,
                    intent.params@,
                    data,
                    0,
                );
                match content_text(intent, data) {
                    Some(content) => {
                        lemma_suffix(d, rendered, header_text(ctx) + content, ctx);
                    },
                    None => {},
                }
            } else {
                lemma_no_header(d, ctx);
                lemma_failed_template(headed, template, intent.params@, data);
            }
        },
    }
}

/// A message shows what is signed. There is one exactly where the content can
/// be shown, the expiry lies in the years 0 to 9999 and the text fits, and it
/// reads `expires <ts>: <action> <content> | wallet: <name> proposal: <index>`
/// behind the offchain header.
pub proof fn every_message_has_the_format(ctx: ContextView, intent: Intent, data: Seq<u8>)
    ensures
        signed_message(ctx, intent, data) is Ok <==> {
            &&& content_text(intent, data) is Some
            &&& has_plain_year(ctx.expiry as int)
            &&& 20 + message_text(ctx, content_text(intent, data)->0).len() <= 2048
        },
        signed_message(ctx, intent, data) is Ok ==> signed_message(ctx, intent, data)->Ok_0
            == offchain_message(message_text(ctx, content_text(intent, data)->0)),
{
    let front = Seq::new(20, |i: int| 0u8);
    let d = draft(front);
    let text = message_text(ctx, content_text(intent, data)->0);
    assert((front + text).skip(20) =~= text);
    match intent.intent_type {
        IntentType::AddIntent => {
            add_message(d, ctx, sha256_digest(data));
        },
        IntentType::RemoveIntent => {
            if data.len() == 1 {
                remove_message(d, ctx, data[0]);
            }
        },
        IntentType::UpdateIntent => {
            if data.len() > 1 {
                update_message(d, ctx, data[0], sha256_digest(data.skip(1)));
            }
        },
        IntentType::Custom => {
            custom_message(d, ctx, intent, data);
        },
    }
}

} // verus!
