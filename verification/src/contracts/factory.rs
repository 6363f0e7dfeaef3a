//! The account factory: posts mail through the local Wormhole core contract and
//! inspects the reply to it.

use vstd::prelude::*;
use crate::contracts::registry::{local_chain_info, spec_find};
use crate::error::XcaError;
use crate::json::{json_of_u128, to_binary_u128};
use crate::xca::factory::ConfigResponse;
use crate::xca::registry::ConfigResponse as RegistryConfigResponse;
use vstd::string::StringExecFns;

verus! {

/// The nonce the factory posts mail with.
pub const OPEN_MAIL_NONCE: u32 = 420;

/// The id of the submessage that posts mail; its failure comes back as a reply.
pub const OPEN_MAIL_REPLY_ID: u64 = 1;

/// The number the factory answers a call-log query with.
pub const CALL_LOGS: u32 = 69;

/// The factory's stored configuration (the validated registry address).
pub struct Config {
    pub x_account_registry: String,
}

/// The configuration a new factory starts with.
pub fn instantiate_config(validated_registry: String) -> (r: Config)
    ensures
        r.x_account_registry == validated_registry,
{
    Config { x_account_registry: validated_registry }
}

/// The answer to a config query.
pub fn query_config(config: Config) -> (r: ConfigResponse)
    ensures
        r.x_account_registry == config.x_account_registry,
{
    ConfigResponse { x_account_registry: config.x_account_registry }
}

/// The number that opened mail carries: 6969 shifted right by 96 bits.
pub fn mail_value() -> (r: u128)
    ensures
        r == 6969u128 >> 96u128,
        r == 0,
{
    let v: u128 = 6969u128 >> 96u128;
    assert(6969u128 >> 96u128 == 0u128) by (bit_vector);
    v
}

/// What opening mail posts: a message to the local Wormhole core contract.
pub struct OpenMailPlan {
    pub wormhole_core: String,
    /// The JSON encoding of the mail's number.
    pub message: Vec<u8>,
    pub nonce: u32,
    /// Replies come back with this id when the post fails.
    pub reply_id: u64,
}

/// Plans opening mail from the registry's answer: refused when the registry
/// holds no entry for its own chain.
pub fn open_mail(registry: RegistryConfigResponse) -> (r: Result<OpenMailPlan, XcaError>)
    ensures
        spec_find(registry.chain_info@, registry.chain_id_here) is None ==> r matches Err(
            XcaError::MissingChainInfo,
        ),
        spec_find(registry.chain_info@, registry.chain_id_here) matches Some(ci) ==> r matches Ok(plan)
            && plan.wormhole_core == ci.wormhole_core && plan.message@ == json_of_u128(0)
            && plan.nonce == OPEN_MAIL_NONCE && plan.reply_id == OPEN_MAIL_REPLY_ID,
{
    let ci = match local_chain_info(registry) {
        Ok(ci) => ci,
        Err(e) => return Err(e),
    };
    match to_binary_u128(mail_value()) {
        Ok(message) => Ok(
            OpenMailPlan {
                wormhole_core: ci.wormhole_core,
                message,
                nonce: OPEN_MAIL_NONCE,
                reply_id: OPEN_MAIL_REPLY_ID,
            },
        ),
        Err(e) => Err(XcaError::Serialization(e)),
    }
}

/// One attribute of a reply's event.
pub struct EventAttribute {
    pub key: String,
    pub value: String,
}

/// An event that a reply carries.
pub struct ReplyEvent {
    pub ty: String,
    pub attributes: Vec<EventAttribute>,
}

/// The event is a contract's own (`wasm`) event.
pub open spec fn is_wasm(e: ReplyEvent) -> bool {
    e.ty@ == "wasm"@
}

/// The index of the first `wasm` event, or `events.len()` when there is none.
pub open spec fn first_wasm(events: Seq<ReplyEvent>) -> nat
    decreases events.len(),
{
    if events.len() == 0 {
        0
    } else if is_wasm(events[0]) {
        0
    } else {
        1 + first_wasm(events.drop_first())
    }
}

/// The event carries a `message.sequence` attribute.
pub open spec fn has_sequence(e: ReplyEvent) -> bool {
    exists|k: int| 0 <= k < e.attributes@.len() && #[trigger] e.attributes@[k].key@ == "message.sequence"@
}

/// An event is a `wasm` event exactly when its type is `wasm`; it carries a
/// sequence exactly when one of its attributes has the key `message.sequence`.
pub proof fn lemma_event_kinds(e: ReplyEvent)
    ensures
        is_wasm(e) <==> e.ty@ == "wasm"@,
        has_sequence(e) <==> exists|k: int|
            0 <= k < e.attributes@.len() && #[trigger] e.attributes@[k].key@ == "message.sequence"@,
{
}

/// `first_wasm` is the index of the first `wasm` event: the event there is one,
/// and none before it is; past the end when there is none.
pub proof fn lemma_first_wasm(events: Seq<ReplyEvent>)
    ensures
        first_wasm(events) <= events.len(),
        first_wasm(events) < events.len() ==> events[first_wasm(events) as int].ty@ == "wasm"@,
        forall|j: int| 0 <= j < first_wasm(events) ==> #[trigger] events[j].ty@ != "wasm"@,
        first_wasm(events) == events.len() <==> forall|j: int| 0 <= j < events.len() ==> #[trigger] events[j].ty@ != "wasm"@,
    decreases events.len(),
{
    if events.len() > 0 && !is_wasm(events[0]) {
        let t = events.drop_first();
        lemma_first_wasm(t);
        assert forall|j: int| 0 <= j < first_wasm(events) implies #[trigger] events[j].ty@ != "wasm"@ by {
            if j > 0 {
                assert(events[j] == t[j - 1]);
            }
        }
        if first_wasm(events) == events.len() {
            assert forall|j: int| 0 <= j < events.len() implies #[trigger] events[j].ty@ != "wasm"@ by {
                if j > 0 {
                    assert(events[j] == t[j - 1]);
                }
            }
        } else {
            assert(events[first_wasm(events) as int] == t[first_wasm(t) as int]);
        }
    }
}

/// An index before which no event is a `wasm` event, and at which one is or the
/// events end, is `first_wasm`.
proof fn lemma_first_wasm_at(events: Seq<ReplyEvent>, i: int)
    requires
        0 <= i <= events.len(),
        forall|j: int| 0 <= j < i ==> !is_wasm(#[trigger] events[j]),
        i < events.len() ==> is_wasm(events[i]),
    ensures
        first_wasm(events) == i,
    decreases i,
{
    if i > 0 {
        let t = events.drop_first();
        assert forall|j: int| 0 <= j < i - 1 implies !is_wasm(#[trigger] t[j]) by {
            assert(t[j] == events[j + 1]);
        }
        assert(!is_wasm(events[0]));
        lemma_first_wasm_at(t, i - 1);
    }
}

/// Inspects the events of a successful reply to opening mail (a failed reply,
/// or one without a `wasm` event, aborts). The factory refuses every such reply:
/// with `NoSequence` when the first `wasm` event lacks a `message.sequence`
/// attribute, and with `ReplyRefused` otherwise.
pub fn reply(events: &Vec<ReplyEvent>) -> (r: Result<(), XcaError>)
    requires
        first_wasm(events@) < events@.len(),
    ensures
        has_sequence(events@[first_wasm(events@) as int]) ==> r matches Err(XcaError::ReplyRefused),
        !has_sequence(events@[first_wasm(events@) as int]) ==> r matches Err(XcaError::NoSequence),
{
    let wasm = String::from_str("wasm");
    let mut i: usize = 0;
    while i < events.len() && !(events[i].ty == wasm)
        invariant
            i <= events@.len(),
            wasm@ == "wasm"@,
            forall|j: int| 0 <= j < i ==> !is_wasm(#[trigger] events@[j]),
        decreases events@.len() - i,
    {
        i = i + 1;
    }
    proof {
        lemma_first_wasm_at(events@, i as int);
    }
    let event = &events[i];
    let sequence_key = String::from_str("message.sequence");
    let mut k: usize = 0;
    while k < event.attributes.len() && !(event.attributes[k].key == sequence_key)
        invariant
            k <= event.attributes@.len(),
            sequence_key@ == "message.sequence"@,
            forall|j: int| 0 <= j < k ==> #[trigger] event.attributes@[j].key@ != "message.sequence"@,
        decreases event.attributes@.len() - k,
    {
        k = k + 1;
    }
    if k == event.attributes.len() {
        Err(XcaError::NoSequence)
    } else {
        Err(XcaError::ReplyRefused)
    }
}

} // verus!
