//! The intake handler's decisions: screening an inbound webhook request
//! before its body is ever parsed, and staging an authenticated batch into
//! the durable queue.

use vstd::prelude::*;
use vstd::string::StringExecFns;
use crate::entry::{Entry, EntryModel};
use crate::queue::Queue;
use crate::sig::{signature_matches, verify_signature};

verus! {

/// The request methods the handler distinguishes; every method that is
/// neither `OPTIONS` nor `POST` is screened the same way.
#[derive(Clone, Copy, PartialEq, Eq, Structural, Debug)]
pub enum HttpMethod {
    Options,
    Post,
    Other,
}

/// What the handler decides for a request before any staging: one of the
/// client-error rejections, the permissive cross-origin answer, or the go-
/// ahead to parse the body as a batch. Only `ParseBody` may lead to queue
/// writes.
#[derive(Clone, Copy, PartialEq, Eq, Structural, Debug)]
pub enum IntakeAction {
    /// An `OPTIONS` request: answer with permissive cross-origin headers,
    /// processing no body.
    RespondCors,
    /// Neither `OPTIONS` nor `POST`: method not allowed.
    RejectMethod,
    /// No signature header: an authentication failure.
    RejectMissingSignature,
    /// A signature that does not match the body under the shared secret: an
    /// authorization failure, distinct from the missing-header case.
    RejectBadSignature,
    /// Authenticated `POST`: the body may now be parsed as a batch.
    ParseBody,
}

/// The screening policy: cross-origin answer for `OPTIONS`; method not
/// allowed otherwise for anything but `POST`; authentication before any
/// parsing; mismatch is an authorization failure, not a malformed request.
pub open spec fn spec_screen(
    method: HttpMethod,
    sig: Option<Seq<char>>,
    body: Seq<u8>,
    secret: Seq<u8>,
) -> IntakeAction {
    match method {
        HttpMethod::Options => IntakeAction::RespondCors,
        HttpMethod::Other => IntakeAction::RejectMethod,
        HttpMethod::Post => match sig {
            None => IntakeAction::RejectMissingSignature,
            Some(s) => if !signature_matches(secret, body, s) {
                IntakeAction::RejectBadSignature
            } else {
                IntakeAction::ParseBody
            },
        },
    }
}

/// The view of an optional signature header.
pub open spec fn sig_view(sig: Option<&String>) -> Option<Seq<char>> {
    match sig {
        None => None,
        Some(s) => Some(s@),
    }
}

/// Screens one inbound request: verifies the keyed hash of the raw body
/// before anything parses it, and never touches the queue.
pub fn screen_request(
    method: HttpMethod,
    sig: Option<&String>,
    body: &[u8],
    secret: &[u8],
) -> (r: IntakeAction)
    ensures
        r == spec_screen(method, sig_view(sig), body@, secret@),
{
    match method {
        HttpMethod::Options => IntakeAction::RespondCors,
        HttpMethod::Other => IntakeAction::RejectMethod,
        HttpMethod::Post => match sig {
            None => IntakeAction::RejectMissingSignature,
            Some(s) => {
                if verify_signature(secret, body, s) {
                    IntakeAction::ParseBody
                } else {
                    IntakeAction::RejectBadSignature
                }
            },
        },
    }
}

/// A request whose signature does not match is answered with the
/// authorization rejection, however well-formed the body may be; the body
/// is never parsed and no queue write can follow.
pub proof fn lemma_wrong_signature_rejected(
    method: HttpMethod,
    sig: Seq<char>,
    body: Seq<u8>,
    secret: Seq<u8>,
)
    requires
        method is Post,
        !signature_matches(secret, body, sig),
    ensures
        spec_screen(method, Some(sig), body, secret) == IntakeAction::RejectBadSignature,
{
}

/// The permissive cross-origin headers that answer an `OPTIONS` request.
pub fn cors_headers() -> (r: Vec<(String, String)>)
    ensures
        r@.len() == 3,
        r@[0].0@ == "Access-Control-Allow-Origin"@ && r@[0].1@ == "*"@,
        r@[1].0@ == "Access-Control-Allow-Methods"@ && r@[1].1@ == "POST, OPTIONS"@,
        r@[2].0@ == "Access-Control-Allow-Headers"@ && r@[2].1@
            == "Content-Type, X-Miniflux-Signature"@,
{
    let mut r: Vec<(String, String)> = Vec::new();
    r.push(("Access-Control-Allow-Origin".to_owned(), "*".to_owned()));
    r.push(("Access-Control-Allow-Methods".to_owned(), "POST, OPTIONS".to_owned()));
    r.push((
        "Access-Control-Allow-Headers".to_owned(),
        "Content-Type, X-Miniflux-Signature".to_owned(),
    ));
    r
}

/// Whether some entry of the batch carries this identifier.
pub open spec fn batch_has(batch: Seq<EntryModel>, id: u64) -> bool {
    exists|i: int| 0 <= i < batch.len() && batch[i].id == id
}

/// The last entry of the batch carrying this identifier: the one whose
/// write wins when a batch repeats an identifier.
pub open spec fn batch_last(batch: Seq<EntryModel>, id: u64) -> EntryModel
    decreases batch.len(),
{
    if batch.len() == 0 {
        arbitrary()
    } else if batch.last().id == id {
        batch.last()
    } else {
        batch_last(batch.drop_last(), id)
    }
}

/// The models of a batch of entries, in submission order.
pub open spec fn entry_models(batch: Seq<Entry>) -> Seq<EntryModel> {
    batch.map_values(|e: Entry| e@)
}

/// Whether no two entries of the batch share an identifier.
pub open spec fn distinct_ids(batch: Seq<EntryModel>) -> bool {
    forall|i: int, j: int| 0 <= i < j < batch.len() ==> batch[i].id != batch[j].id
}

/// Stages every entry of an authenticated batch under its key, overwriting
/// a pending entry with the same identifier (last write wins, within the
/// batch and against what was already pending). Entries not named by the
/// batch are untouched; on a queue that was empty, a batch of distinct
/// identifiers leaves exactly one staged entry per submitted entry.
pub fn stage_batch(queue: &mut Queue, batch: &Vec<Entry>)
    requires
        old(queue).wf(),
    ensures
        final(queue).wf(),
        forall|id: u64|
            batch_has(entry_models(batch@), id) ==> final(queue).contains_id(id)
                && final(queue).entry_at(id) == batch_last(entry_models(batch@), id),
        forall|id: u64|
            !batch_has(entry_models(batch@), id) ==> (final(queue).contains_id(id)
                <==> old(queue).contains_id(id)) && (old(queue).contains_id(id)
                ==> final(queue).entry_at(id) == old(queue).entry_at(id)),
        old(queue).spec_len() == 0 ==> forall|id: u64|
            final(queue).contains_id(id) <==> batch_has(entry_models(batch@), id),
        old(queue).spec_len() == 0 && distinct_ids(entry_models(batch@))
            ==> final(queue).spec_len() == batch@.len(),
{
    proof {
        if old(queue).spec_len() == 0 {
            old(queue).lemma_empty();
        }
    }
    let n = batch.len();
    let mut i: usize = 0;
    while i < n
        invariant
            old(queue).wf(),
            queue.wf(),
            n == batch@.len(),
            i <= n,
            forall|id: u64|
                batch_has(#[trigger] entry_models(batch@).take(i as int), id)
                    ==> queue.contains_id(id) && queue.entry_at(id) == batch_last(
                    entry_models(batch@).take(i as int), id),
            forall|id: u64|
                !batch_has(entry_models(batch@).take(i as int), id) ==> (queue.contains_id(id)
                    <==> old(queue).contains_id(id)) && (old(queue).contains_id(id)
                    ==> queue.entry_at(id) == old(queue).entry_at(id)),
            old(queue).spec_len() == 0 ==> forall|id: u64|
                queue.contains_id(id) <==> batch_has(entry_models(batch@).take(i as int), id),
            old(queue).spec_len() == 0 && distinct_ids(entry_models(batch@)) ==> queue.spec_len()
                == i,
        decreases n - i,
    {
        let ghost b = entry_models(batch@);
        let ghost prev = *queue;
        let e = batch[i].clone();
        queue.put(e);
        proof {
            let t0 = b.take(i as int);
            let t1 = b.take(i as int + 1);
            assert(t1.drop_last() =~= t0);
            assert(t1.last() == b[i as int]);
            assert(e@ == b[i as int]);
            assert forall|id: u64|
                batch_has(t1, id) implies queue.contains_id(id) && queue.entry_at(id)
                == batch_last(t1, id) by {
                if id == e.id {
                    assert(batch_last(t1, id) == b[i as int]);
                } else {
                    let j = choose|j: int| 0 <= j < t1.len() && t1[j].id == id;
                    assert(j < i);
                    assert(t0[j].id == id);
                    assert(batch_has(t0, id));
                    assert(batch_last(t1, id) == batch_last(t0, id));
                }
            }
            assert forall|id: u64|
                !batch_has(t1, id) implies (queue.contains_id(id)
                    <==> old(queue).contains_id(id)) && (old(queue).contains_id(id)
                    ==> queue.entry_at(id) == old(queue).entry_at(id)) by {
                assert(id != e.id);
                assert forall|j: int| 0 <= j < t0.len() implies t0[j].id != id by {
                    assert(t1[j].id == t0[j].id);
                }
                assert(!batch_has(t0, id));
            }
            if old(queue).spec_len() == 0 {
                assert forall|id: u64|
                    queue.contains_id(id) implies batch_has(t1, id) by {
                    if id == e.id {
                        assert(t1[i as int].id == id);
                    } else {
                        assert(batch_has(t0, id));
                        let j = choose|j: int| 0 <= j < t0.len() && t0[j].id == id;
                        assert(t1[j].id == id);
                    }
                }
                assert forall|id: u64|
                    batch_has(t1, id) implies queue.contains_id(id) by {
                }
                if distinct_ids(b) {
                    if prev.contains_id(e.id) {
                        assert(batch_has(t0, e.id));
                        let j = choose|j: int| 0 <= j < t0.len() && t0[j].id == e.id;
                        assert(b[j].id == b[i as int].id);
                        assert(false);
                    }
                }
            }
        }
        i += 1;
    }
    proof {
        assert(entry_models(batch@).take(n as int) =~= entry_models(batch@));
    }
}

} // verus!
