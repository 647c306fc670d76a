//! Small things that the node commands share.
use crate::text::{hex, lemma_hex_len, mentions, to_hex, what_is_written_is_mentioned};
use vstd::prelude::*;
use vstd::slice::slice_subrange;
use vstd::string::*;

verus! {

/// What a panic carries.
pub enum PanicPayload {
    /// A text.
    Text(String),
    /// Anything else.
    Other,
}

/// What a panic says.
pub open spec fn panic_text(payload: PanicPayload) -> Seq<char> {
    match payload {
        PanicPayload::Text(text) => text@,
        PanicPayload::Other => "unknown panic payload"@,
    }
}

/// What a panic says.
pub fn panic_message(payload: &PanicPayload) -> (r: String)
    ensures
        r@ == panic_text(*payload),
{
    match payload {
        PanicPayload::Text(text) => text.clone(),
        PanicPayload::Other => "unknown panic payload".to_owned(),
    }
}

/// `rand::RngExt::random` on `rand::rng`, for `N` bytes. Nothing is stated of the
/// bytes but their number: they differ from call to call.
#[verifier::external_body]
fn random_bytes<const N: usize>() -> (r: [u8; N])
    ensures
        r@.len() == N,
{
    rand::RngExt::random(&mut rand::rng())
}

/// The id that some random bytes make.
pub fn id_of(bytes: &[u8; 6]) -> (r: String)
    ensures
        r@ == hex(bytes@),
        r@.len() == 12,
{
    proof {
        lemma_hex_len(bytes@);
    }
    to_hex(bytes.as_slice())
}

/// An id that is most likely new: twelve hexadecimal digits.
pub fn generate_random_id() -> (r: String)
    ensures
        r@.len() == 12,
        exists|bytes: Seq<u8>| bytes.len() == 6 && r@ == #[trigger] hex(bytes),
{
    let bytes: [u8; 6] = random_bytes();
    let id = id_of(&bytes);
    proof {
        assert(id@ == hex(bytes@));
    }
    id
}

/// Sixteen bytes as a UUID has them: one that is random says so in the high digit
/// of its seventh byte and the high bits of its ninth.
pub open spec fn uuid_bytes(bytes: Seq<u8>) -> Seq<u8> {
    bytes.update(6, (bytes[6] % 16 + 0x40) as u8).update(8, (bytes[8] % 64 + 0x80) as u8)
}

/// The text of the random UUID that sixteen bytes make.
pub open spec fn uuid_text(bytes: Seq<u8>) -> Seq<char> {
    let marked = uuid_bytes(bytes);
    hex(marked.subrange(0, 4)) + "-"@ + hex(marked.subrange(4, 6)) + "-"@ + hex(
        marked.subrange(6, 8),
    ) + "-"@ + hex(marked.subrange(8, 10)) + "-"@ + hex(marked.subrange(10, 16))
}

/// The text of the random UUID that some random bytes make.
pub fn uuid_of(bytes: [u8; 16]) -> (r: String)
    ensures
        r@ == uuid_text(bytes@),
        r@.len() == 36,
{
    let mut marked: [u8; 16] = bytes;
    marked[6] = bytes[6] % 16 + 0x40;
    marked[8] = bytes[8] % 64 + 0x80;
    proof {
        assert(marked@ =~= uuid_bytes(bytes@));
        lemma_hex_len(marked@.subrange(0, 4));
        lemma_hex_len(marked@.subrange(4, 6));
        lemma_hex_len(marked@.subrange(6, 8));
        lemma_hex_len(marked@.subrange(8, 10));
        lemma_hex_len(marked@.subrange(10, 16));
        reveal_strlit("-");
    }
    let all = marked.as_slice();
    let mut text: String = to_hex(slice_subrange(all, 0, 4));
    text.append("-");
    text.append(to_hex(slice_subrange(all, 4, 6)).as_str());
    text.append("-");
    text.append(to_hex(slice_subrange(all, 6, 8)).as_str());
    text.append("-");
    text.append(to_hex(slice_subrange(all, 8, 10)).as_str());
    text.append("-");
    text.append(to_hex(slice_subrange(all, 10, 16)).as_str());
    text
}

/// A random UUID.
pub fn generate_uuid() -> (r: String)
    ensures
        r@.len() == 36,
        exists|bytes: Seq<u8>| bytes.len() == 16 && r@ == #[trigger] uuid_text(bytes),
{
    let bytes: [u8; 16] = random_bytes();
    let id = uuid_of(bytes);
    proof {
        assert(id@ == uuid_text(bytes@));
    }
    id
}

/// The failure to encode a response.
pub fn encoding_failure(why: &str) -> (r: String)
    ensures
        r@ == "Failed to encode response: "@ + why@,
{
    let mut text: String = "Failed to encode response: ".to_owned();
    text.append(why);
    text
}

/// The numbers of the updates that a daemon sends to its instances.
pub struct SlotSequence {
    pub seq: u64,
}

impl SlotSequence {
    /// Numbers that begin after `millis`, the milliseconds since the epoch, or
    /// after 1 where the clock says less than nothing. They then go on above
    /// those of an earlier run of the daemon.
    pub fn new(millis: Option<u64>) -> (r: Self)
        ensures
            r.seq == match millis {
                Some(start) => start,
                None => 1,
            },
    {
        SlotSequence {
            seq: match millis {
                Some(start) => start,
                None => 1,
            },
        }
    }

    /// The next number.
    pub fn next_sequence(&mut self) -> (r: u64)
        requires
            old(self).seq < u64::MAX,
        ensures
            r == old(self).seq + 1,
            final(self).seq == r,
    {
        self.seq = self.seq + 1;
        self.seq
    }
}

/// An instance's answer to an update of one of its slots.
pub struct SlotUpdateResponse {
    pub accepted: bool,
    pub stale_sequence: bool,
    pub message: String,
}

/// What an update comes to: one that an instance turns down as stale has been
/// overtaken by a later one, and counts as delivered.
pub fn slot_update_outcome(response: &SlotUpdateResponse, rejection_message: &str) -> (r: Result<
    (),
    String,
>)
    ensures
        if response.accepted || response.stale_sequence {
            r is Ok
        } else {
            r matches Err(text) && text@ == (if response.message@.len() == 0 {
                rejection_message@
            } else {
                response.message@
            })
        },
{
    if response.accepted || response.stale_sequence {
        Ok(())
    } else if response.message.as_str().is_empty() {
        Err(rejection_message.to_owned())
    } else {
        Err(response.message.clone())
    }
}

/// Which node an update goes to, or why it goes nowhere. `name_problem` says why
/// the instance's id is no name, `node` which node has the instance, and
/// `address_problem` why that node cannot be addressed.
pub fn resolve_target(
    name_problem: &Option<String>,
    node: &Option<(String, String)>,
    address_problem: &Option<String>,
) -> (r: Result<(String, String), String>)
    ensures
        match (*name_problem, *node, *address_problem) {
            (Some(why), _, _) => r matches Err(text) && text@ == "invalid instance id: "@ + why@,
            (None, None, _) => r matches Err(text) && text@ == "instance is no longer tracked"@,
            (None, Some(_), Some(why)) => r matches Err(text) && text@ == why@,
            (None, Some(found), None) => r matches Ok(told) && told.0@ == found.0@ && told.1@
                == found.1@,
        },
{
    if let Some(why) = name_problem {
        let mut text: String = "invalid instance id: ".to_owned();
        text.append(why.as_str());
        return Err(text);
    }
    match node {
        None => Err("instance is no longer tracked".to_owned()),
        Some(found) => match address_problem {
            Some(why) => Err(why.clone()),
            None => Ok((found.0.clone(), found.1.clone())),
        },
    }
}

/// An update counts as delivered exactly where the instance took it or a later one had
/// overtaken it; a refusal says why, in the instance's words where it has any.
pub proof fn only_a_refusal_fails_an_update(
    response: SlotUpdateResponse,
    rejection_message: &str,
    r: Result<(), String>,
)
    requires
        call_ensures(slot_update_outcome, (&response, rejection_message), r),
    ensures
        r is Err <==> !response.accepted && !response.stale_sequence,
        r matches Err(text) ==> (response.message@.len() > 0 ==> text@ == response.message@),
        r matches Err(text) ==> (response.message@.len() == 0 ==> text@ == rejection_message@),
{
}

/// An update goes to the node that has the instance, and nowhere where the id is no
/// name, nobody has the instance or the node cannot be addressed.
pub proof fn an_update_goes_to_the_node_of_its_instance(
    name_problem: Option<String>,
    node: Option<(String, String)>,
    address_problem: Option<String>,
    r: Result<(String, String), String>,
)
    requires
        call_ensures(resolve_target, (&name_problem, &node, &address_problem), r),
    ensures
        r is Ok <==> name_problem is None && node is Some && address_problem is None,
        r matches Ok(target) ==> (node matches Some(found) && target.0@ == found.0@ && target.1@
            == found.1@),
        r matches Err(text) ==> (name_problem matches Some(why) ==> mentions(text@, why@)),
        r matches Err(text) ==> (name_problem is None && node is Some ==> (
        address_problem matches Some(why) && text@ == why@)),
{
    if let Some(why) = name_problem {
        what_is_written_is_mentioned("invalid instance id: "@, why@, ""@);
    }
}

} // verus!
