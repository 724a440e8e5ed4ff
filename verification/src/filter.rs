//! Filtering and deduplication of decoded recognition results.
//!
//! The filter receives the trimmed transcript of each decoded result frame
//! together with its finality flag. Empty transcripts are dropped. A final
//! transcript equal to the immediately preceding emitted final transcript is
//! dropped; any other final transcript is emitted and remembered. Interim
//! transcripts are always emitted and never remembered.

use vstd::prelude::*;

verus! {

/// One accepted recognition result, ready for delivery to the event sink.
#[derive(Debug)]
pub struct TranscriptEvent {
    /// Whether the service marked the result as settled for its utterance.
    pub is_final: bool,
    /// The trimmed transcript text.
    pub text: String,
}

/// What the filter emits for a trimmed transcript `text` with finality
/// `is_final`, when the last emitted final transcript was `last`:
/// `None` to drop the result, or `Some((is_final, text))` to emit it.
pub open spec fn filter_emit(last: Seq<char>, text: Seq<char>, is_final: bool) -> Option<
    (bool, Seq<char>),
> {
    if text.len() == 0 {
        None
    } else if is_final {
        if text == last {
            None
        } else {
            Some((true, text))
        }
    } else {
        Some((false, text))
    }
}

/// The last emitted final transcript after the filter has seen a trimmed
/// transcript `text` with finality `is_final`.
pub open spec fn filter_next(last: Seq<char>, text: Seq<char>, is_final: bool) -> Seq<char> {
    if is_final && text.len() > 0 && text != last {
        text
    } else {
        last
    }
}

/// Per-session dedup state: the last emitted final transcript.
pub struct TranscriptFilter {
    last_final: String,
}

impl TranscriptFilter {
    /// The last emitted final transcript, initially empty.
    pub closed spec fn last(&self) -> Seq<char> {
        self.last_final@
    }

    /// A fresh filter that has emitted nothing yet.
    pub fn new() -> (r: TranscriptFilter)
        ensures
            r.last() == Seq::<char>::empty(),
    {
        TranscriptFilter { last_final: String::new() }
    }

    /// Decide whether a trimmed transcript is emitted, and update the dedup
    /// state exactly as `filter_emit` and `filter_next` say.
    pub fn accept(&mut self, text: String, is_final: bool) -> (r: Option<TranscriptEvent>)
        ensures
            final(self).last() == filter_next(old(self).last(), text@, is_final),
            (r is Some) == (filter_emit(old(self).last(), text@, is_final) is Some),
            r matches Some(e) ==> filter_emit(old(self).last(), text@, is_final) == Some(
                (e.is_final, e.text@),
            ),
    {
        if text.as_str().is_empty() {
            None
        } else if is_final {
            if self.last_final == text {
                None
            } else {
                self.last_final = text.clone();
                Some(TranscriptEvent { is_final: true, text })
            }
        } else {
            Some(TranscriptEvent { is_final: false, text })
        }
    }
}

/// Only an immediately repeated final transcript is suppressed. From any
/// dedup state `last0`, a final transcript `a` different from `last0` is
/// emitted; repeating `a` at once is suppressed and leaves the state alone;
/// a different final `b` is then emitted; and a final `a` arriving after `b`
/// is emitted again, although `a` was emitted two results earlier.
pub proof fn lemma_only_immediate_final_repeat_suppressed(
    last0: Seq<char>,
    a: Seq<char>,
    b: Seq<char>,
)
    requires
        a.len() > 0,
        b.len() > 0,
        a != last0,
        b != a,
    ensures
        filter_emit(last0, a, true) == Some((true, a)),
        filter_next(last0, a, true) == a,
        filter_emit(a, a, true) is None,
        filter_next(a, a, true) == a,
        filter_emit(a, b, true) == Some((true, b)),
        filter_next(a, b, true) == b,
        filter_emit(b, a, true) == Some((true, a)),
{
}

/// Every interim result with a non-empty trimmed transcript is emitted, even
/// when it repeats the previous result, and it never alters the dedup state.
pub proof fn lemma_interim_passthrough(last: Seq<char>, text: Seq<char>)
    requires
        text.len() > 0,
    ensures
        filter_emit(last, text, false) == Some((false, text)),
        filter_next(last, text, false) == last,
{
}

/// A result whose trimmed transcript is empty — the transcript was empty or
/// whitespace-only — is never emitted and never alters the dedup state,
/// whether final or interim.
pub proof fn lemma_empty_transcript_suppressed(last: Seq<char>, is_final: bool)
    ensures
        filter_emit(last, Seq::<char>::empty(), is_final) is None,
        filter_next(last, Seq::<char>::empty(), is_final) == last,
{
}

} // verus!
