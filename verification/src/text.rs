//! Cutting byte text into pieces at given bytes.

use vstd::prelude::*;
use vstd::slice::slice_subrange;

verus! {

/// Length of the longest prefix of `text` that holds no byte of `stops`.
pub open spec fn span(text: Seq<u8>, stops: Seq<u8>) -> nat
    decreases text.len(),
{
    if text.len() == 0 || stops.contains(text[0]) {
        0
    } else {
        1 + span(text.skip(1), stops)
    }
}

/// The pieces of `text` between its bytes of `stops`, in order.
///
/// Every stop byte ends one piece, so two stops in a row enclose an empty piece, and
/// text without a stop is one piece, itself.
pub open spec fn split(text: Seq<u8>, stops: Seq<u8>) -> Seq<Seq<u8>>
    decreases text.len(),
{
    let n = span(text, stops) as int;
    if n >= text.len() {
        seq![text]
    } else {
        seq![text.take(n)] + split(text.skip(n + 1), stops)
    }
}

/// Whether `text` holds no byte of `stops`.
pub open spec fn free_of(text: Seq<u8>, stops: Seq<u8>) -> bool {
    forall|i: int| 0 <= i < text.len() ==> !stops.contains(#[trigger] text[i])
}

/// `span` stays within the text, passes over no stop byte and, short of the end,
/// halts on one.
pub proof fn lemma_span(text: Seq<u8>, stops: Seq<u8>)
    ensures
        span(text, stops) <= text.len(),
        forall|i: int| 0 <= i < span(text, stops) ==> !stops.contains(#[trigger] text[i]),
        span(text, stops) < text.len() ==> stops.contains(text[span(text, stops) as int]),
    decreases text.len(),
{
    if text.len() != 0 && !stops.contains(text[0]) {
        let rest = text.skip(1);
        lemma_span(rest, stops);
        assert forall|i: int| 0 <= i < span(text, stops) implies !stops.contains(
            #[trigger] text[i],
        ) by {
            if i > 0 {
                assert(text[i] == rest[i - 1]);
            }
        }
    }
}

/// A text has at least one piece, and its first piece is what `span` measures.
pub proof fn lemma_split_first(text: Seq<u8>, stops: Seq<u8>)
    ensures
        split(text, stops).len() >= 1,
        split(text, stops)[0] == text.take(span(text, stops) as int),
{
    lemma_span(text, stops);
}

/// Where a text holds a stop byte, bytes added behind it do not move its first stop.
pub proof fn lemma_span_append(text: Seq<u8>, more: Seq<u8>, stops: Seq<u8>)
    requires
        span(text, stops) < text.len(),
    ensures
        span(text + more, stops) == span(text, stops),
    decreases text.len(),
{
    if !stops.contains(text[0]) {
        assert((text + more).skip(1) =~= text.skip(1) + more);
        lemma_span_append(text.skip(1), more, stops);
    }
}

/// Text without a stop byte is passed over whole, and the count goes on behind it.
pub proof fn lemma_span_over(head: Seq<u8>, tail: Seq<u8>, stops: Seq<u8>)
    requires
        free_of(head, stops),
    ensures
        span(head + tail, stops) == head.len() + span(tail, stops),
    decreases head.len(),
{
    if head.len() == 0 {
        assert(head + tail =~= tail);
    } else {
        assert((head + tail)[0] == head[0]);
        assert((head + tail).skip(1) =~= head.skip(1) + tail);
        assert forall|i: int| 0 <= i < head.skip(1).len() implies !stops.contains(
            #[trigger] head.skip(1)[i],
        ) by {
            assert(head.skip(1)[i] == head[i + 1]);
        }
        lemma_span_over(head.skip(1), tail, stops);
    }
}

/// Text without a stop byte, a stop byte behind it, and more text: the first text is
/// the first piece, and the pieces of what follows the stop byte are the others.
pub proof fn lemma_split_piece(head: Seq<u8>, stop: u8, tail: Seq<u8>, stops: Seq<u8>)
    requires
        free_of(head, stops),
        stops.contains(stop),
    ensures
        split(head + seq![stop] + tail, stops) == seq![head] + split(tail, stops),
{
    let text = head + seq![stop] + tail;
    assert(text =~= head + (seq![stop] + tail));
    assert((seq![stop] + tail)[0] == stop);
    lemma_span_over(head, seq![stop] + tail, stops);
    assert(text.take(head.len() as int) =~= head);
    assert(text.skip(head.len() as int + 1) =~= tail);
}

/// Whether `byte` is one of `stops`.
fn is_stop(byte: u8, stops: &[u8]) -> (found: bool)
    ensures
        found == stops@.contains(byte),
{
    let mut k: usize = 0;
    while k < stops.len()
        invariant
            k <= stops@.len(),
            forall|j: int| 0 <= j < k ==> stops@[j] != byte,
        decreases stops@.len() - k,
    {
        if stops[k] == byte {
            return true;
        }
        k += 1;
    }
    false
}

/// Index of the first byte of `stops` in `text` at or after `from`, or the length of
/// `text` where none follows.
fn find_stop(text: &[u8], from: usize, stops: &[u8]) -> (end: usize)
    requires
        from <= text@.len(),
    ensures
        from <= end <= text@.len(),
        end == from + span(text@.skip(from as int), stops@),
{
    let mut end: usize = from;
    while end < text.len()
        invariant
            from <= end <= text@.len(),
            span(text@.skip(from as int), stops@) == (end - from) + span(
                text@.skip(end as int),
                stops@,
            ),
        decreases text@.len() - end,
    {
        if is_stop(text[end], stops) {
            return end;
        }
        assert(text@.skip(end as int).skip(1) =~= text@.skip(end + 1));
        end += 1;
    }
    end
}

/// Whether the two hold the same bytes.
pub fn same_bytes(left: &[u8], right: &[u8]) -> (same: bool)
    ensures
        same == (left@ == right@),
{
    if left.len() != right.len() {
        return false;
    }
    let mut k: usize = 0;
    while k < left.len()
        invariant
            left@.len() == right@.len(),
            k <= left@.len(),
            forall|j: int| 0 <= j < k ==> left@[j] == right@[j],
        decreases left@.len() - k,
    {
        if left[k] != right[k] {
            return false;
        }
        k += 1;
    }
    assert(left@ =~= right@);
    true
}

/// Whether `text` begins with the bytes of `prefix`.
pub fn starts_with(text: &[u8], prefix: &[u8]) -> (begins: bool)
    ensures
        begins == prefix@.is_prefix_of(text@),
{
    if text.len() < prefix.len() {
        return false;
    }
    same_bytes(slice_subrange(text, 0, prefix.len()), prefix)
}

/// A walk over the pieces of a text, from the first to the last.
pub struct Pieces<'a> {
    text: &'a [u8],
    stops: &'a [u8],
    /// Where the next piece begins, or nothing once the last piece is out.
    start: Option<usize>,
}

impl<'a> Pieces<'a> {
    #[verifier::type_invariant]
    spec fn within_text(self) -> bool {
        match self.start {
            Some(start) => start <= self.text@.len(),
            None => true,
        }
    }

    /// The pieces that are still to come.
    pub closed spec fn rest(self) -> Seq<Seq<u8>> {
        match self.start {
            Some(start) => split(self.text@.skip(start as int), self.stops@),
            None => Seq::empty(),
        }
    }

    /// Starts a walk over the pieces of `text` between its bytes of `stops`.
    pub fn new(text: &'a [u8], stops: &'a [u8]) -> (pieces: Self)
        ensures
            pieces.rest() == split(text@, stops@),
    {
        assert(text@.skip(0) =~= text@);
        Pieces { text, stops, start: Some(0) }
    }

    /// Whether all pieces are out.
    pub fn is_done(&self) -> (done: bool)
        ensures
            done == (self.rest().len() == 0),
    {
        proof {
            if let Some(start) = self.start {
                lemma_split_first(self.text@.skip(start as int), self.stops@);
            }
        }
        self.start.is_none()
    }

    /// Hands out the next piece, or nothing when all are out.
    pub fn next_piece(&mut self) -> (piece: Option<&'a [u8]>)
        ensures
            match piece {
                Some(bytes) => old(self).rest().len() > 0 && bytes@ == old(self).rest()[0]
                    && final(self).rest() == old(self).rest().skip(1),
                None => old(self).rest().len() == 0 && final(self).rest().len() == 0,
            },
    {
        proof {
            use_type_invariant(&*self);
        }
        match self.start {
            None => None,
            Some(start) => {
                let end = find_stop(self.text, start, self.stops);
                let piece = slice_subrange(self.text, start, end);
                let ghost tail = self.text@.skip(start as int);
                proof {
                    if end < self.text@.len() {
                        assert(tail.skip(end - start + 1) =~= self.text@.skip(end + 1));
                    }
                }
                if end < self.text.len() {
                    self.start = Some(end + 1);
                } else {
                    self.start = None;
                }
                Some(piece)
            },
        }
    }
}

} // verus!
