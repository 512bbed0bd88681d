//! The digest: one message listing every pending event with its display
//! index, date and summary, plus one interactive control per event whose
//! payload token resolves back to the event's identity. Indices and
//! tokens are rebuilt on every sync and are not stable across syncs.

use vstd::prelude::*;
use vstd::string::StringExecFns;

use crate::datetime::{date_label, push_date_label};
use crate::event::{views, Event, EventView};
use crate::sync::all_wf;
use crate::text::{dec_spec, push_u64};
use crate::token::{encode_token, token_spec};

verus! {

/// One digest line: the display index, the date in brackets, the summary.
pub open spec fn digest_line(index: nat, ev: EventView) -> Seq<char> {
    dec_spec(index) + " - ["@ + date_label(ev.start.date) + "] "@ + ev.summary
}

/// The lines for `pending`, numbered from `next`, joined by line breaks.
pub open spec fn digest_lines(pending: Seq<EventView>, next: nat) -> Seq<char>
    decreases pending.len(),
{
    if pending.len() == 0 {
        Seq::<char>::empty()
    } else if pending.len() == 1 {
        digest_line(next, pending.first())
    } else {
        digest_line(next, pending.first()) + seq!['\n'] + digest_lines(
            pending.drop_first(),
            next + 1,
        )
    }
}

/// The whole digest message for a pending list already in digest order.
pub open spec fn digest_text(pending: Seq<EventView>) -> Seq<char> {
    "These are the pending tasks:\n"@ + digest_lines(pending, 1)
}

/// One control's label: the display index and the date.
pub open spec fn button_label(index: nat, ev: EventView) -> Seq<char> {
    dec_spec(index) + " - "@ + date_label(ev.start.date)
}

/// Growing the list by one event appends one line (and a break, once a
/// second line exists).
proof fn lemma_digest_lines_push(s: Seq<EventView>, x: EventView, next: nat)
    ensures
        digest_lines(s.push(x), next) == if s.len() == 0 {
            digest_line(next, x)
        } else {
            digest_lines(s, next) + seq!['\n'] + digest_line(next + s.len(), x)
        },
    decreases s.len(),
{
    let p = s.push(x);
    if s.len() == 0 {
        assert(p.first() == x);
    } else {
        assert(p.first() == s.first());
        assert(p.drop_first() =~= s.drop_first().push(x));
        lemma_digest_lines_push(s.drop_first(), x, next + 1);
        if s.len() == 1 {
            assert(s.drop_first().len() == 0);
            assert(digest_lines(p, next) =~= digest_lines(s, next) + seq!['\n'] + digest_line(
                next + s.len(),
                x,
            ));
        } else {
            assert(digest_lines(p, next) =~= digest_lines(s, next) + seq!['\n'] + digest_line(
                next + s.len(),
                x,
            ));
        }
    }
}

/// One rendered digest entry: the display index, the control token and
/// label, and the event itself.
pub struct DigestEntry {
    pub index: u64,
    pub token: String,
    pub label: String,
    pub event: Event,
}

pub struct DigestEntryView {
    pub index: int,
    pub token: Seq<char>,
    pub label: Seq<char>,
    pub event: EventView,
}

impl View for DigestEntry {
    type V = DigestEntryView;

    open spec fn view(&self) -> DigestEntryView {
        DigestEntryView {
            index: self.index as int,
            token: self.token@,
            label: self.label@,
            event: self.event@,
        }
    }
}

/// The rendered digest: the message text and its per-event controls.
pub struct Digest {
    pub entries: Vec<DigestEntry>,
    pub text: String,
}

/// What the entry at position `i` of a digest must be for the event `ev`.
pub open spec fn entry_ok(i: int, ev: EventView, e: DigestEntryView) -> bool {
    &&& e.index == i + 1
    &&& e.token == token_spec(ev.key)
    &&& e.label == button_label((i + 1) as nat, ev)
    &&& e.event == ev
}

/// Whether a digest is exactly the rendering of `pending` (a pending
/// list already in digest order).
pub open spec fn digest_ok(pending: Seq<EventView>, d: Digest) -> bool {
    &&& d.entries@.len() == pending.len()
    &&& forall|i: int| 0 <= i < pending.len() ==> entry_ok(i, pending[i], #[trigger] d.entries@[i]@)
    &&& d.text@ == digest_text(pending)
}

/// Renders the digest for an ordered pending list: the message text and,
/// for each event, a control with a fresh token carrying its identity.
pub fn build_digest(ordered: &Vec<Event>) -> (r: Digest)
    requires
        all_wf(views(ordered@)),
    ensures
        digest_ok(views(ordered@), r),
{
    let ghost pv = views(ordered@);
    let mut entries: Vec<DigestEntry> = Vec::new();
    let mut text = String::new();
    text.append("These are the pending tasks:\n");
    let mut i: usize = 0;
    while i < ordered.len()
        invariant
            i <= ordered@.len(),
            pv == views(ordered@),
            all_wf(pv),
            entries@.len() == i,
            forall|j: int| 0 <= j < i ==> entry_ok(j, pv[j], #[trigger] entries@[j]@),
            text@ == "These are the pending tasks:\n"@ + digest_lines(pv.take(i as int), 1),
        decreases ordered@.len() - i,
    {
        let ev = &ordered[i];
        let idx = (i as u64) + 1;
        proof {
            assert(pv[i as int] == ordered@[i as int]@);
            assert(crate::datetime::start_wf(pv[i as int].start));
            assert(ev.start == pv[i as int].start);
        }
        let token = encode_token(&ev.key);
        let mut label = String::new();
        push_u64(&mut label, idx);
        label.append(" - ");
        push_date_label(&mut label, &ev.start.date);
        if i > 0 {
            proof {
                reveal_strlit("\n");
            }
            assert("\n"@ =~= seq!['\n']);
            text.append("\n");
        }
        push_u64(&mut text, idx);
        text.append(" - [");
        push_date_label(&mut text, &ev.start.date);
        text.append("] ");
        text.append(ev.summary.as_str());
        proof {
            assert(pv.take(i as int + 1).drop_last() =~= pv.take(i as int));
            assert(pv.take(i as int + 1) =~= pv.take(i as int).push(pv[i as int]));
            lemma_digest_lines_push(pv.take(i as int), pv[i as int], 1);
            assert(text@ =~= "These are the pending tasks:\n"@ + digest_lines(
                pv.take(i as int + 1),
                1,
            ));
        }
        let entry = DigestEntry { index: idx, token, label, event: ev.clone() };
        proof {
            assert(entry_ok(i as int, pv[i as int], entry@));
        }
        entries.push(entry);
        i = i + 1;
    }
    proof {
        assert(pv.take(pv.len() as int) =~= pv);
    }
    Digest { entries, text }
}

} // verus!
