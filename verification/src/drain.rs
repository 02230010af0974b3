//! The drain cycle's per-entry pipeline: the eligibility filter, the
//! enrichment request text, the enriched content that a commit sends, and
//! the commit-or-retain decision. Every outside call's result enters as a
//! value, so each decision is a function of queue state and call outcomes.

use vstd::prelude::*;
use vstd::string::StringExecFns;
use vstd::std_specs::iter::IteratorSpec;
use crate::clients::{CommitOutcome, EnrichOutcome};
use crate::entry::Entry;
use crate::queue::Queue;

verus! {

broadcast use vstd::string::axiom_spec_iter;

/// The least content length (in characters, after trimming) that makes an
/// entry eligible for enrichment.
pub const MIN_CONTENT_CHARS: usize = 500;

/// The text with surrounding whitespace removed: a pure function of the
/// characters.
pub uninterp spec fn trimmed_of(s: Seq<char>) -> Seq<char>;

/// Relies on str::trim: removes leading and trailing whitespace, a function
/// of the characters alone; the result is a subslice, so it is never longer
/// than the input.
#[verifier::external_body]
fn trim_str(s: &str) -> (r: &str)
    ensures
        r@ == trimmed_of(s@),
        r@.len() <= s@.len(),
{
    s.trim()
}

/// Whether the text reaches `limit` characters, counted without assuming
/// the text fits any byte budget; counting stops at the threshold.
fn has_min_chars(s: &str, limit: usize) -> (r: bool)
    ensures
        r == (s@.len() >= limit),
{
    let mut it = s.chars();
    let mut n: usize = 0;
    loop
        invariant
            it.obeys_prophetic_iter_laws(),
            it.decrease() is Some,
            n <= limit,
            n + it.remaining().len() == s@.len(),
        decreases limit - n,
    {
        if n >= limit {
            return true;
        }
        match it.next() {
            Some(_) => {
                n = n + 1;
            },
            None => {
                return false;
            },
        }
    }
}

/// The eligibility filter: content whose trimmed text is non-empty and at
/// least the threshold long. Ineligible entries take the deliberate no-op
/// path: nothing is called for them and they stay in the queue untouched.
pub open spec fn eligible(content: Seq<char>) -> bool {
    trimmed_of(content).len() != 0 && trimmed_of(content).len() >= MIN_CONTENT_CHARS
}

/// Applies the eligibility filter to an entry's content.
pub fn is_eligible(content: &String) -> (r: bool)
    ensures
        r == eligible(content@),
{
    let t = trim_str(content.as_str());
    if t.is_empty() {
        return false;
    }
    has_min_chars(t, MIN_CONTENT_CHARS)
}

/// The enrichment request text: the fixed template over title, source URL
/// and content.
pub open spec fn enrichment_input(title: Seq<char>, url: Seq<char>, content: Seq<char>) -> Seq<
    char,
> {
    "Title: "@ + title + "\nURL: "@ + url + "\nContent: "@ + content
}

/// Builds the enrichment request text for one entry.
pub fn build_enrichment_input(e: &Entry) -> (r: String)
    ensures
        r@ == enrichment_input(e.title@, e.url@, e.content@),
{
    let mut r = "Title: ".to_owned();
    r.append(e.title.as_str());
    r.append("\nURL: ");
    r.append(e.url.as_str());
    r.append("\nContent: ");
    r.append(e.content.as_str());
    r
}

/// The HTML rendering of markdown text: a pure function of the characters.
pub uninterp spec fn html_of(s: Seq<char>) -> Seq<char>;

/// Relies on markdown::to_html: renders markdown as HTML, a function of
/// the input characters alone.
#[verifier::external_body]
fn markdown_to_html(s: &str) -> (r: String)
    ensures
        r@ == html_of(s@),
{
    markdown::to_html(s)
}

/// The labeled summary block placed ahead of the separator.
pub open spec fn summary_block(html: Seq<char>) -> Seq<char> {
    "<div class=\"ai-summary\"><h4>✨ AI Summary</h4>"@ + html + "</div>"@
}

/// The separator between the summary block and the original content.
pub open spec fn summary_separator() -> Seq<char> {
    "<hr><br />"@
}

/// The content a successful commit stores: the rendered summary block, the
/// separator, then the original content unchanged.
pub open spec fn updated_content(summary: Seq<char>, content: Seq<char>) -> Seq<char> {
    summary_block(html_of(summary)) + summary_separator() + content
}

/// Builds the enriched content for one entry from its generated summary.
pub fn build_updated_content(summary: &String, content: &String) -> (r: String)
    ensures
        r@ == updated_content(summary@, content@),
{
    let html = markdown_to_html(summary.as_str());
    let mut r = "<div class=\"ai-summary\"><h4>✨ AI Summary</h4>".to_owned();
    r.append(html.as_str());
    r.append("</div>");
    r.append("<hr><br />");
    r.append(content.as_str());
    r
}

/// How one drain attempt resolves an entry, given its content and the
/// outcomes of the calls made for it.
#[derive(Clone, Copy, PartialEq, Eq, Structural, Debug)]
pub enum ItemFate {
    /// Ineligible content: a deliberate no-op, nothing called.
    SkippedIneligible,
    /// Enrichment failed: abandoned for this cycle, retried on the next.
    EnrichmentFailed,
    /// The summary trimmed to nothing: a no-op, no commit attempted.
    SkippedEmptySummary,
    /// The commit call failed: the whole sequence retries next cycle.
    CommitFailed,
    /// The commit succeeded: the sole path that removes the entry.
    Committed,
}

/// The fate an entry meets under given call outcomes. The commit outcome
/// matters only where a commit was attempted at all.
pub open spec fn item_fate(
    content: Seq<char>,
    enrich: EnrichOutcome,
    commit: CommitOutcome,
) -> ItemFate {
    if !eligible(content) {
        ItemFate::SkippedIneligible
    } else {
        match enrich {
            EnrichOutcome::Failed => ItemFate::EnrichmentFailed,
            EnrichOutcome::Summary(s) => if trimmed_of(s@).len() == 0 {
                ItemFate::SkippedEmptySummary
            } else {
                match commit {
                    CommitOutcome::Failed => ItemFate::CommitFailed,
                    CommitOutcome::Committed => ItemFate::Committed,
                }
            },
        }
    }
}

/// Whether a fate removes the entry from the queue.
pub open spec fn fate_deletes(f: ItemFate) -> bool {
    f is Committed
}

/// Whether a fate involved requesting enrichment at all.
pub open spec fn fate_enriched(f: ItemFate) -> bool {
    !(f is SkippedIneligible)
}

/// Whether a fate involved attempting a commit.
pub open spec fn fate_attempted_commit(f: ItemFate) -> bool {
    f is CommitFailed || f is Committed
}

/// Step one of an entry's pipeline: the eligibility filter. For an
/// eligible entry, the enrichment request text; for the rest, the
/// deliberate no-op path, with nothing called.
pub fn plan_enrichment(e: &Entry) -> (r: Option<String>)
    ensures
        eligible(e.content@) ==> (r matches Some(input) && input@ == enrichment_input(
            e.title@,
            e.url@,
            e.content@,
        )),
        !eligible(e.content@) ==> r is None,
{
    if is_eligible(&e.content) {
        Some(build_enrichment_input(e))
    } else {
        None
    }
}

/// Step two: what enrichment produced. A failure or an all-whitespace
/// summary ends the attempt without a commit; otherwise the content to
/// commit is the summary block, the separator, then the original content.
pub fn enriched_content(e: &Entry, outcome: &EnrichOutcome) -> (r: Option<String>)
    ensures
        match *outcome {
            EnrichOutcome::Failed => r is None,
            EnrichOutcome::Summary(s) => if trimmed_of(s@).len() == 0 {
                r is None
            } else {
                r matches Some(c) && c@ == updated_content(s@, e.content@)
            },
        },
{
    match outcome {
        EnrichOutcome::Failed => None,
        EnrichOutcome::Summary(s) => {
            let t = trim_str(s.as_str());
            if t.is_empty() {
                None
            } else {
                Some(build_updated_content(s, &e.content))
            }
        },
    }
}

/// Step three: the sole removal path. Deletes the entry exactly when its
/// commit was confirmed; every other fate leaves the queue untouched, so
/// the entry is re-attempted on the next cycle.
pub fn resolve_entry(queue: &mut Queue, id: u64, fate: ItemFate)
    requires
        old(queue).wf(),
    ensures
        final(queue).wf(),
        fate_deletes(fate) ==> !final(queue).contains_id(id),
        fate_deletes(fate) ==> forall|j: u64|
            j != id ==> (final(queue).contains_id(j) <==> old(queue).contains_id(j)) && (old(
                queue,
            ).contains_id(j) ==> final(queue).entry_at(j) == old(queue).entry_at(j)),
        !fate_deletes(fate) ==> *final(queue) == *old(queue),
{
    if fate == ItemFate::Committed {
        queue.delete(id);
    }
}

/// Replays one entry's whole drain attempt, the outside calls' outcomes
/// given as values: applies the filter, derives the enriched content, and
/// resolves the queue. The entry leaves the queue exactly when eligible
/// content met a non-empty summary and a confirmed commit.
pub fn settle_entry(
    queue: &mut Queue,
    e: &Entry,
    enrich: &EnrichOutcome,
    commit: CommitOutcome,
) -> (f: ItemFate)
    requires
        old(queue).wf(),
    ensures
        final(queue).wf(),
        f == item_fate(e.content@, *enrich, commit),
        fate_deletes(f) ==> !final(queue).contains_id(e.id),
        fate_deletes(f) ==> forall|j: u64|
            j != e.id ==> (final(queue).contains_id(j) <==> old(queue).contains_id(j)) && (old(
                queue,
            ).contains_id(j) ==> final(queue).entry_at(j) == old(queue).entry_at(j)),
        !fate_deletes(f) ==> *final(queue) == *old(queue),
{
    let f = match plan_enrichment(e) {
        None => ItemFate::SkippedIneligible,
        Some(_) => match enrich {
            EnrichOutcome::Failed => ItemFate::EnrichmentFailed,
            EnrichOutcome::Summary(_) => match enriched_content(e, enrich) {
                None => ItemFate::SkippedEmptySummary,
                Some(_) => match commit {
                    CommitOutcome::Failed => ItemFate::CommitFailed,
                    CommitOutcome::Committed => ItemFate::Committed,
                },
            },
        },
    };
    resolve_entry(queue, e.id, f);
    f
}

/// One whole drain cycle replayed over given call outcomes, the `k`-th
/// outcome belonging to the `k`-th listed entry: every pending entry is
/// processed exactly once; an entry leaves the queue exactly when its fate
/// commits, every other entry survives the cycle unmodified, and nothing
/// is ever added.
pub fn drain_cycle(
    queue: &mut Queue,
    enrich: &Vec<EnrichOutcome>,
    commit: &Vec<CommitOutcome>,
) -> (fates: Vec<(u64, ItemFate)>)
    requires
        old(queue).wf(),
        enrich@.len() == old(queue).spec_len(),
        commit@.len() == old(queue).spec_len(),
    ensures
        final(queue).wf(),
        fates@.len() == old(queue).spec_len(),
        forall|k: int| 0 <= k < fates@.len() ==> fates@[k].0 == old(queue).entries()[k].id,
        forall|k: int|
            0 <= k < fates@.len() ==> fates@[k].1 == item_fate(
                old(queue).entries()[k]@.content,
                enrich@[k],
                commit@[k],
            ),
        forall|k: int|
            0 <= k < fates@.len() ==> (final(queue).contains_id(fates@[k].0) <==> !fate_deletes(
                fates@[k].1,
            )),
        forall|k: int|
            0 <= k < fates@.len() && !fate_deletes(fates@[k].1) ==> final(queue).entry_at(
                fates@[k].0,
            ) == old(queue).entries()[k]@,
        forall|j: u64| !old(queue).contains_id(j) ==> !final(queue).contains_id(j),
{
    let ids = queue.ids();
    proof {
        assert forall|k: int| 0 <= k < ids@.len() implies old(queue).contains_id(ids@[k])
            && old(queue).entry_at(ids@[k]) == old(queue).entries()[k]@ by {
            old(queue).lemma_entry_at(k);
        }
    }
    let n = ids.len();
    let mut fates: Vec<(u64, ItemFate)> = Vec::new();
    let mut k: usize = 0;
    while k < n
        invariant
            old(queue).wf(),
            queue.wf(),
            n == ids@.len(),
            n == old(queue).spec_len(),
            enrich@.len() == n,
            commit@.len() == n,
            k <= n,
            fates@.len() == k,
            ids@.no_duplicates(),
            forall|i: int| 0 <= i < n ==> ids@[i] == old(queue).entries()[i].id,
            forall|i: int| 0 <= i < k ==> fates@[i].0 == ids@[i],
            forall|i: int|
                0 <= i < k ==> fates@[i].1 == item_fate(
                    old(queue).entries()[i]@.content,
                    enrich@[i],
                    commit@[i],
                ),
            forall|i: int|
                0 <= i < k ==> (queue.contains_id(ids@[i]) <==> !fate_deletes(fates@[i].1)),
            forall|i: int|
                0 <= i < k && !fate_deletes(fates@[i].1) ==> queue.entry_at(ids@[i]) == old(
                    queue,
                ).entries()[i]@,
            forall|i: int|
                k <= i < n ==> queue.contains_id(ids@[i]) && queue.entry_at(ids@[i]) == old(
                    queue,
                ).entries()[i]@,
            forall|j: u64| !old(queue).contains_id(j) ==> !queue.contains_id(j),
        decreases n - k,
    {
        let ghost prev = *queue;
        let ghost fates0 = fates@;
        let id = ids[k];
        let e: Entry = match queue.get(id) {
            Some(found) => found.clone(),
            None => vstd::pervasive::unreached(),
        };
        let f = settle_entry(queue, &e, &enrich[k], commit[k]);
        fates.push((id, f));
        proof {
            assert(e@ == prev.entry_at(id));
            assert(e@ == old(queue).entries()[k as int]@);
            assert(fates@ == fates0.push((id, f)));
            assert(fates@[k as int] == (id, f));
            assert(f == item_fate(e.content@, enrich@[k as int], commit@[k as int]));
            assert(e.content@ == old(queue).entries()[k as int]@.content);
            assert forall|i: int| 0 <= i < k + 1 implies fates@[i].0 == ids@[i] by {
                if i < k {
                    assert(fates@[i] == fates0[i]);
                } else {
                    assert(fates@[i] == (id, f));
                }
            }
            assert forall|i: int|
                0 <= i < k + 1 implies fates@[i].1 == item_fate(
                old(queue).entries()[i]@.content,
                enrich@[i],
                commit@[i],
            ) by {
                if i < k {
                    assert(fates@[i] == fates0[i]);
                } else {
                    assert(fates@[i] == (id, f));
                }
            }
            assert forall|i: int|
                0 <= i < k implies (queue.contains_id(ids@[i]) <==> !fate_deletes(
                fates@[i].1,
            )) && (!fate_deletes(fates@[i].1) ==> queue.entry_at(ids@[i]) == old(
                queue,
            ).entries()[i]@) by {
                assert(ids@[i] != id);
            }
            assert forall|i: int|
                k + 1 <= i < n implies queue.contains_id(ids@[i]) && queue.entry_at(ids@[i])
                == old(queue).entries()[i]@ by {
                assert(ids@[i] != id);
            }
        }
        k += 1;
    }
    proof {
        assert forall|i: int|
            0 <= i < fates@.len() implies fates@[i].0 == old(queue).entries()[i].id by {
            assert(fates@[i].0 == ids@[i]);
        }
        assert forall|i: int|
            0 <= i < fates@.len() implies (queue.contains_id(fates@[i].0) <==> !fate_deletes(
            fates@[i].1,
        )) && (!fate_deletes(fates@[i].1) ==> queue.entry_at(fates@[i].0) == old(
            queue,
        ).entries()[i]@) by {
            assert(fates@[i].0 == ids@[i]);
        }
    }
    fates
}

/// An entry whose trimmed content falls short of the threshold takes the
/// deliberate no-op path: no enrichment is requested, no commit is
/// attempted, and the drain cycle leaves it pending, unmodified.
pub proof fn lemma_short_content_is_noop(
    content: Seq<char>,
    enrich: EnrichOutcome,
    commit: CommitOutcome,
)
    requires
        trimmed_of(content).len() < MIN_CONTENT_CHARS,
    ensures
        item_fate(content, enrich, commit) == ItemFate::SkippedIneligible,
        !fate_enriched(item_fate(content, enrich, commit)),
        !fate_attempted_commit(item_fate(content, enrich, commit)),
        !fate_deletes(item_fate(content, enrich, commit)),
{
}

/// An eligible entry whose enrichment call fails stays pending: the retry
/// point is preserved untouched for the next scheduled cycle.
pub proof fn lemma_enrichment_failure_retains(content: Seq<char>, commit: CommitOutcome)
    requires
        eligible(content),
    ensures
        item_fate(content, EnrichOutcome::Failed, commit) == ItemFate::EnrichmentFailed,
        !fate_deletes(item_fate(content, EnrichOutcome::Failed, commit)),
{
}

/// An eligible entry whose enrichment produced a non-empty summary and
/// whose commit succeeded leaves the queue, and the committed content is
/// the summary block, then the separator, then the original content
/// unchanged.
pub proof fn lemma_success_removes(content: Seq<char>, summary: String)
    requires
        eligible(content),
        trimmed_of(summary@).len() != 0,
    ensures
        item_fate(content, EnrichOutcome::Summary(summary), CommitOutcome::Committed)
            == ItemFate::Committed,
        fate_deletes(item_fate(content, EnrichOutcome::Summary(summary), CommitOutcome::Committed)),
        updated_content(summary@, content) == summary_block(html_of(summary@))
            + summary_separator() + content,
{
}

} // verus!
