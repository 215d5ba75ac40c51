//! Keeps a remote copy of a rendered document in step with the tree.
//!
//! The synchronizer holds the rendering it last sent and its version. When
//! the rendering changes it describes the change as operations on UTF-16 code
//! units, which a receiver applies in order to its own copy.

use vstd::prelude::*;
use crate::utf16::{
    decode_lossy, encode, encode_utf16, from_utf16_lossy, is_boundary, lemma_encode_well_formed,
    lemma_whole_characters_round_trip,
};

verus! {

/// Renderings shorter than this many bytes are sent whole.
pub const MINIMUM_DIFF_LEN: usize = 1000;

/// Seconds after which a difference is given up for a reset.
pub const MAXIMUM_DIFF_SECS: u64 = 1;

/// The type of an operation.
#[derive(Clone, Copy, Debug, PartialEq, Eq, Structural)]
pub enum DomOperationType {
    /// Reset content
    Reset,
    /// Insert characters
    Insert,
    /// Delete characters
    Delete,
    /// Replace characters
    Replace,
}

/// An operation on the rendered document.
#[derive(Debug, PartialEq, Eq)]
pub struct DomOperation {
    /// The type of operation
    pub kind: DomOperationType,
    /// The position from which the operation is applied
    pub from: Option<usize>,
    /// The position to which the operation is applied; absent for insertions
    pub to: Option<usize>,
    /// The text to put between `from` and `to`; absent for deletions
    pub insert: Option<String>,
}

/// What an operation says, with its text as a sequence of characters.
pub struct DomOperationView {
    pub kind: DomOperationType,
    pub from: Option<usize>,
    pub to: Option<usize>,
    pub insert: Option<Seq<char>>,
}

impl View for DomOperation {
    type V = DomOperationView;

    open spec fn view(&self) -> DomOperationView {
        DomOperationView {
            kind: self.kind,
            from: self.from,
            to: self.to,
            insert: match self.insert {
                Some(s) => Some(s@),
                None => None,
            },
        }
    }
}

impl DomOperationView {
    pub open spec fn reset(text: Seq<char>) -> DomOperationView {
        DomOperationView { kind: DomOperationType::Reset, from: None, to: None, insert: Some(text) }
    }

    pub open spec fn insertion(from: usize, text: Seq<char>) -> DomOperationView {
        DomOperationView {
            kind: DomOperationType::Insert,
            from: Some(from),
            to: None,
            insert: Some(text),
        }
    }

    pub open spec fn deletion(from: usize, to: usize) -> DomOperationView {
        DomOperationView {
            kind: DomOperationType::Delete,
            from: Some(from),
            to: Some(to),
            insert: None,
        }
    }

    pub open spec fn replacement(from: usize, to: usize, text: Seq<char>) -> DomOperationView {
        DomOperationView {
            kind: DomOperationType::Replace,
            from: Some(from),
            to: Some(to),
            insert: Some(text),
        }
    }

    /// The code units that the operation brings.
    pub open spec fn inserted(self) -> Seq<u16> {
        match self.insert {
            Some(text) => encode(text),
            None => Seq::empty(),
        }
    }

    /// The receiver's buffer after the operation. An operation that lacks a
    /// position it needs, or whose positions lie outside the buffer, leaves
    /// the buffer as it is.
    pub open spec fn apply(self, buffer: Seq<u16>) -> Seq<u16> {
        match self.kind {
            DomOperationType::Reset => self.inserted(),
            DomOperationType::Insert => match self.from {
                Some(from) if from <= buffer.len() => buffer.take(from as int) + self.inserted()
                    + buffer.skip(from as int),
                _ => buffer,
            },
            DomOperationType::Delete => match (self.from, self.to) {
                (Some(from), Some(to)) if from <= to <= buffer.len() => buffer.take(from as int)
                    + buffer.skip(to as int),
                _ => buffer,
            },
            DomOperationType::Replace => match (self.from, self.to) {
                (Some(from), Some(to)) if from <= to <= buffer.len() => buffer.take(from as int)
                    + self.inserted() + buffer.skip(to as int),
                _ => buffer,
            },
        }
    }
}

/// The buffer after all of `ops`, applied in order.
pub open spec fn apply_all(ops: Seq<DomOperationView>, buffer: Seq<u16>) -> Seq<u16>
    decreases ops.len(),
{
    if ops.len() == 0 {
        buffer
    } else {
        ops.last().apply(apply_all(ops.drop_last(), buffer))
    }
}

/// The views of a list of operations.
pub open spec fn views(ops: Seq<DomOperation>) -> Seq<DomOperationView> {
    ops.map_values(|op: DomOperation| op@)
}

impl DomOperation {
    /// Create a content reset operation
    pub fn reset_content(value: String) -> (op: DomOperation)
        ensures
            op@ == DomOperationView::reset(value@),
    {
        DomOperation { kind: DomOperationType::Reset, from: None, to: None, insert: Some(value) }
    }

    /// Create a content insert operation
    pub fn insert_content(from: usize, value: String) -> (op: DomOperation)
        ensures
            op@ == DomOperationView::insertion(from, value@),
    {
        DomOperation {
            kind: DomOperationType::Insert,
            from: Some(from),
            to: None,
            insert: Some(value),
        }
    }

    /// Create a content delete operation
    pub fn delete_content(from: usize, to: usize) -> (op: DomOperation)
        ensures
            op@ == DomOperationView::deletion(from, to),
    {
        DomOperation {
            kind: DomOperationType::Delete,
            from: Some(from),
            to: Some(to),
            insert: None,
        }
    }

    /// Create a content replace operation
    pub fn replace_content(from: usize, to: usize, value: String) -> (op: DomOperation)
        ensures
            op@ == DomOperationView::replacement(from, to, value@),
    {
        DomOperation {
            kind: DomOperationType::Replace,
            from: Some(from),
            to: Some(to),
            insert: Some(value),
        }
    }

    /// Apply the operation to a receiver's buffer of code units.
    pub fn apply(&self, buffer: &Vec<u16>) -> (out: Vec<u16>)
        ensures
            out@ == self@.apply(buffer@),
    {
        let inserted: Vec<u16> = match &self.insert {
            Some(text) => encode_utf16(text.as_str()),
            None => Vec::new(),
        };
        let len = buffer.len();
        let (from, to): (usize, usize) = match self.kind {
            DomOperationType::Reset => { return inserted; },
            DomOperationType::Insert => match self.from {
                Some(from) => (from, from),
                None => { return copy_units(buffer, 0, len); },
            },
            DomOperationType::Delete | DomOperationType::Replace => match (self.from, self.to) {
                (Some(from), Some(to)) => (from, to),
                _ => { return copy_units(buffer, 0, len); },
            },
        };
        if !(from <= to && to <= len) {
            return copy_units(buffer, 0, len);
        }
        let mut out = copy_units(buffer, 0, from);
        let mut middle = if self.kind == DomOperationType::Delete {
            Vec::new()
        } else {
            inserted
        };
        out.append(&mut middle);
        let mut tail = copy_units(buffer, to, len);
        out.append(&mut tail);
        out
    }
}

/// A copy of the code units of `units` in `from..to`.
fn copy_units(units: &Vec<u16>, from: usize, to: usize) -> (out: Vec<u16>)
    requires
        from <= to <= units.len(),
    ensures
        out@ == units@.subrange(from as int, to as int),
{
    let mut out: Vec<u16> = Vec::new();
    let mut i = from;
    while i < to
        invariant
            from <= i <= to <= units.len(),
            out@ == units@.subrange(from as int, i as int),
        decreases to - i,
    {
        out.push(units[i]);
        i += 1;
    }
    out
}

/// A patch to apply to the rendered document.
#[derive(Debug, PartialEq, Eq)]
pub struct DomPatch {
    /// The version of the patch
    pub version: u32,
    /// The operations in the patch
    pub ops: Vec<DomOperation>,
}


/// What a span of an edit script does.
#[derive(Clone, Copy, Debug, PartialEq, Eq, Structural)]
pub enum DiffTag {
    /// The old range equals the new range
    Equal,
    /// The old range is dropped
    Delete,
    /// The new range is added
    Insert,
    /// The old range gives way to the new range
    Replace,
}

/// One span of an edit script: a range of the old code units beside the
/// range of the new ones that takes its place.
#[derive(Clone, Copy, Debug, PartialEq, Eq, Structural)]
pub struct DiffSpan {
    pub tag: DiffTag,
    pub old_start: usize,
    pub old_end: usize,
    pub new_start: usize,
    pub new_end: usize,
}

impl DiffSpan {
    /// The span lies inside both texts and does what its tag says.
    pub open spec fn fits(self, old: Seq<u16>, new: Seq<u16>) -> bool {
        &&& self.old_start <= self.old_end <= old.len()
        &&& self.new_start <= self.new_end <= new.len()
        &&& match self.tag {
            DiffTag::Equal => old.subrange(self.old_start as int, self.old_end as int)
                == new.subrange(self.new_start as int, self.new_end as int),
            DiffTag::Delete => self.new_start == self.new_end,
            DiffTag::Insert => self.old_start == self.old_end,
            DiffTag::Replace => true,
        }
    }

    /// The operation that the span asks of a receiver, if any.
    pub open spec fn op(self, new: Seq<u16>) -> Option<DomOperationView> {
        let text = decode_lossy(new.subrange(self.new_start as int, self.new_end as int));
        let to = (self.new_start + (self.old_end - self.old_start)) as usize;
        match self.tag {
            DiffTag::Equal => None,
            DiffTag::Insert => Some(DomOperationView::insertion(self.new_start, text)),
            DiffTag::Delete => Some(DomOperationView::deletion(self.new_start, to)),
            DiffTag::Replace => Some(DomOperationView::replacement(self.new_start, to, text)),
        }
    }

    /// The text that the span's operation carries comes back as the same
    /// code units: true where the new range splits no surrogate pair.
    pub open spec fn carries_exactly(self, new: Seq<u16>) -> bool {
        let range = new.subrange(self.new_start as int, self.new_end as int);
        (self.tag is Insert || self.tag is Replace) ==> encode(decode_lossy(range)) == range
    }

    /// The text that the span's operation carries is made of whole
    /// characters: the span carries none, or its new range starts and ends
    /// on a character boundary of `new`.
    pub open spec fn whole(self, new: Seq<u16>) -> bool {
        (self.tag is Insert || self.tag is Replace) ==> is_boundary(new, self.new_start as int)
            && is_boundary(new, self.new_end as int)
    }
}

/// No span of `spans` carries half of a surrogate pair of `new`.
pub open spec fn whole_characters(spans: Seq<DiffSpan>, new: Seq<u16>) -> bool {
    forall|i: int| 0 <= i < spans.len() ==> (#[trigger] spans[i]).whole(new)
}

/// Where the old and the new text stand after the first `count` spans.
pub open spec fn reached(spans: Seq<DiffSpan>, count: int) -> (int, int) {
    if count <= 0 {
        (0, 0)
    } else {
        (spans[count - 1].old_end as int, spans[count - 1].new_end as int)
    }
}

/// Span `i` fits, and starts where the span before it ends: the first one
/// at the start of both texts.
pub open spec fn span_in_place(spans: Seq<DiffSpan>, old: Seq<u16>, new: Seq<u16>, i: int) -> bool {
    &&& spans[i].fits(old, new)
    &&& spans[i].old_start == reached(spans, i).0
    &&& spans[i].new_start == reached(spans, i).1
}

/// The first `count` spans follow one another from the start of both texts,
/// and each fits.
pub open spec fn is_script_prefix(
    spans: Seq<DiffSpan>,
    old: Seq<u16>,
    new: Seq<u16>,
    count: int,
) -> bool {
    &&& 0 <= count <= spans.len()
    &&& forall|i: int| 0 <= i < count ==> #[trigger] span_in_place(spans, old, new, i)
}

/// `spans` is an edit script from `old` to `new`: the spans follow one
/// another, cover both texts from start to end, and each does what its tag
/// says. The two texts together are short enough for every position that a
/// receiver passes through to fit a `usize`.
pub open spec fn is_edit_script(spans: Seq<DiffSpan>, old: Seq<u16>, new: Seq<u16>) -> bool {
    &&& old.len() + new.len() <= usize::MAX
    &&& is_script_prefix(spans, old, new, spans.len() as int)
    &&& reached(spans, spans.len() as int) == (old.len() as int, new.len() as int)
}

/// The operations of an edit script, span by span.
pub open spec fn script_ops(spans: Seq<DiffSpan>, new: Seq<u16>) -> Seq<DomOperationView>
    decreases spans.len(),
{
    if spans.len() == 0 {
        Seq::empty()
    } else {
        let before = script_ops(spans.drop_last(), new);
        match spans.last().op(new) {
            Some(op) => before.push(op),
            None => before,
        }
    }
}

/// Applied to the old text, the operations of the first `count` spans of an
/// edit script give the new text up to where the spans reach, followed by
/// the old text from there on.
pub proof fn lemma_script_prefix_rebuilds(
    spans: Seq<DiffSpan>,
    old: Seq<u16>,
    new: Seq<u16>,
    count: int,
)
    requires
        old.len() + new.len() <= usize::MAX,
        is_script_prefix(spans, old, new, count),
        forall|i: int| 0 <= i < count ==> (#[trigger] spans[i]).carries_exactly(new),
    ensures
        apply_all(script_ops(spans.take(count), new), old) == new.take(reached(spans, count).1)
            + old.skip(reached(spans, count).0),
    decreases count,
{
    if count == 0 {
        assert(spans.take(0) =~= Seq::<DiffSpan>::empty());
        assert(new.take(0) + old.skip(0) =~= old);
    } else {
        lemma_script_prefix_rebuilds(spans, old, new, count - 1);
        let span = spans[count - 1];
        let before = script_ops(spans.take(count - 1), new);
        let buffer = apply_all(before, old);
        let (os, ns) = reached(spans, count - 1);
        assert(spans.take(count).drop_last() =~= spans.take(count - 1));
        assert(spans.take(count).last() == span);
        assert(span_in_place(spans, old, new, count - 1));
        assert(span.carries_exactly(new));
        assert(span.old_start == os && span.new_start == ns);
        assert(buffer == new.take(ns) + old.skip(os));
        let oe = span.old_end as int;
        let ne = span.new_end as int;
        let range = new.subrange(ns, ne);
        assert(buffer.len() == ns + (old.len() - os));
        assert(buffer.take(ns) =~= new.take(ns));
        assert(buffer.skip(ns + (oe - os)) =~= old.skip(oe));
        assert(new.take(ns) + range =~= new.take(ne));
        match span.tag {
            DiffTag::Equal => {
                assert(old.subrange(os, oe) == range);
                assert(new.take(ne) + old.skip(oe) =~= new.take(ns) + old.skip(os)) by {
                    assert(old.skip(os) =~= old.subrange(os, oe) + old.skip(oe));
                }
            },
            _ => {
                let op = span.op(new)->0;
                assert(script_ops(spans.take(count), new) == before.push(op));
                assert(before.push(op).drop_last() =~= before);
                assert(before.push(op).last() == op);
                assert(op.apply(buffer) =~= new.take(ne) + old.skip(oe));
            },
        }
    }
}

/// Applied to the old text, the operations of an edit script give the new
/// text, provided the text of each insertion and replacement survives being
/// carried as a string.
pub proof fn lemma_script_rebuilds(spans: Seq<DiffSpan>, old: Seq<u16>, new: Seq<u16>)
    requires
        is_edit_script(spans, old, new),
        forall|i: int| 0 <= i < spans.len() ==> (#[trigger] spans[i]).carries_exactly(new),
    ensures
        apply_all(script_ops(spans, new), old) == new,
{
    lemma_script_prefix_rebuilds(spans, old, new, spans.len() as int);
    assert(spans.take(spans.len() as int) =~= spans);
    assert(new.take(new.len() as int) + old.skip(old.len() as int) =~= new);
}

/// Whether the code units of `old` in `old_start..` and of `new` in
/// `new_start..` agree over `len` units.
fn ranges_equal(old: &Vec<u16>, old_start: usize, new: &Vec<u16>, new_start: usize, len: usize) -> (b:
    bool)
    requires
        old_start + len <= old.len(),
        new_start + len <= new.len(),
    ensures
        b == (old@.subrange(old_start as int, old_start + len) == new@.subrange(
            new_start as int,
            new_start + len,
        )),
{
    let mut i: usize = 0;
    while i < len
        invariant
            i <= len,
            old_start + len <= old.len(),
            new_start + len <= new.len(),
            old@.subrange(old_start as int, old_start + i) == new@.subrange(
                new_start as int,
                new_start + i,
            ),
        decreases len - i,
    {
        if old[old_start + i] != new[new_start + i] {
            proof {
                let a = old@.subrange(old_start as int, old_start + len);
                let b = new@.subrange(new_start as int, new_start + len);
                assert(a[i as int] != b[i as int]);
            }
            return false;
        }
        proof {
            let a = old@.subrange(old_start as int, old_start + i);
            let b = new@.subrange(new_start as int, new_start + i);
            assert(old@.subrange(old_start as int, old_start + i + 1) =~= a.push(
                old@[old_start + i],
            ));
            assert(new@.subrange(new_start as int, new_start + i + 1) =~= b.push(
                new@[new_start + i],
            ));
        }
        i += 1;
    }
    true
}

/// Whether `spans` is an edit script from `old` to `new`.
pub fn check_edit_script(spans: &Vec<DiffSpan>, old: &Vec<u16>, new: &Vec<u16>) -> (b: bool)
    ensures
        b == is_edit_script(spans@, old@, new@),
{
    if old.len() > usize::MAX - new.len() {
        return false;
    }
    let mut old_at: usize = 0;
    let mut new_at: usize = 0;
    let mut i: usize = 0;
    while i < spans.len()
        invariant
            i <= spans.len(),
            is_script_prefix(spans@, old@, new@, i as int),
            reached(spans@, i as int) == (old_at as int, new_at as int),
            old_at <= old.len(),
            new_at <= new.len(),
        decreases spans.len() - i,
    {
        let span = spans[i];
        let fits = span.old_start == old_at && span.new_start == new_at && span.old_start
            <= span.old_end && span.old_end <= old.len() && span.new_start <= span.new_end
            && span.new_end <= new.len() && match span.tag {
            DiffTag::Equal => span.old_end - span.old_start == span.new_end - span.new_start
                && ranges_equal(
                old,
                span.old_start,
                new,
                span.new_start,
                span.old_end - span.old_start,
            ),
            DiffTag::Delete => span.new_start == span.new_end,
            DiffTag::Insert => span.old_start == span.old_end,
            DiffTag::Replace => true,
        };
        if !fits {
            proof {
                if span.tag is Equal && span.old_start <= span.old_end <= old.len()
                    && span.new_start <= span.new_end <= new.len() && span.old_end
                    - span.old_start != span.new_end - span.new_start {
                    assert(old@.subrange(span.old_start as int, span.old_end as int).len()
                        != new@.subrange(span.new_start as int, span.new_end as int).len());
                }
                assert(!span_in_place(spans@, old@, new@, i as int));
            }
            return false;
        }
        proof {
            assert(span_in_place(spans@, old@, new@, i as int));
        }
        old_at = span.old_end;
        new_at = span.new_end;
        i += 1;
    }
    old_at == old.len() && new_at == new.len()
}

/// Whether `at` is a character boundary of `units`: a place in it, and not
/// between the two halves of a surrogate pair.
pub fn at_boundary(units: &Vec<u16>, at: usize) -> (b: bool)
    ensures
        b == is_boundary(units@, at as int),
{
    at <= units.len() && !(0 < at && at < units.len() && 0xD800 <= units[at - 1] && units[at - 1]
        <= 0xDBFF && 0xDC00 <= units[at] && units[at] <= 0xDFFF)
}

/// Whether no span of `spans` carries half of a surrogate pair of `new`.
pub fn check_whole_characters(spans: &Vec<DiffSpan>, new: &Vec<u16>) -> (b: bool)
    ensures
        b == whole_characters(spans@, new@),
{
    let mut i: usize = 0;
    while i < spans.len()
        invariant
            i <= spans.len(),
            forall|k: int| 0 <= k < i ==> (#[trigger] spans[k]).whole(new@),
        decreases spans.len() - i,
    {
        let span = spans[i];
        let carries = match span.tag {
            DiffTag::Insert | DiffTag::Replace => true,
            _ => false,
        };
        if carries && !(at_boundary(new, span.new_start) && at_boundary(new, span.new_end)) {
            assert(!spans[i as int].whole(new@));
            return false;
        }
        i += 1;
    }
    true
}

/// The operations that bring a receiver from `old` to `new` along an edit
/// script: none for an equal span, one for each other span, at the place
/// where the span starts in the new text.
pub fn ops_from_diff(spans: &Vec<DiffSpan>, old: &Vec<u16>, new: &Vec<u16>) -> (ops: Vec<
    DomOperation,
>)
    requires
        is_edit_script(spans@, old@, new@),
    ensures
        views(ops@) == script_ops(spans@, new@),
        (forall|i: int| 0 <= i < spans.len() ==> (#[trigger] spans[i]).carries_exactly(new@))
            ==> apply_all(views(ops@), old@) == new@,
{
    let mut ops: Vec<DomOperation> = Vec::new();
    let mut from: usize = 0;
    let mut i: usize = 0;
    proof {
        assert(spans@.take(0) =~= Seq::<DiffSpan>::empty());
        assert(views(ops@) =~= script_ops(spans@.take(0), new@));
    }
    while i < spans.len()
        invariant
            i <= spans.len(),
            is_edit_script(spans@, old@, new@),
            from == reached(spans@, i as int).1,
            views(ops@) == script_ops(spans@.take(i as int), new@),
        decreases spans.len() - i,
    {
        let span = spans[i];
        proof {
            assert(span_in_place(spans@, old@, new@, i as int));
            assert(spans@.take(i + 1).drop_last() =~= spans@.take(i as int));
            assert(spans@.take(i + 1).last() == span);
        }
        let ghost before = ops@;
        match span.tag {
            DiffTag::Equal => {},
            DiffTag::Insert => {
                let text = from_utf16_lossy(new, span.new_start, span.new_end);
                ops.push(DomOperation::insert_content(from, text));
            },
            DiffTag::Delete => {
                ops.push(DomOperation::delete_content(from, from + (span.old_end - span.old_start)));
            },
            DiffTag::Replace => {
                let text = from_utf16_lossy(new, span.new_start, span.new_end);
                ops.push(
                    DomOperation::replace_content(
                        from,
                        from + (span.old_end - span.old_start),
                        text,
                    ),
                );
            },
        }
        proof {
            if !(span.tag is Equal) {
                assert(views(ops@) =~= views(before).push(span.op(new@)->0));
            }
        }
        from = span.new_end;
        i += 1;
    }
    proof {
        assert(spans@.take(spans.len() as int) =~= spans@);
        if forall|i: int| 0 <= i < spans.len() ==> (#[trigger] spans[i]).carries_exactly(new@) {
            lemma_script_rebuilds(spans@, old@, new@);
        }
    }
    ops
}


/// The length of a text in bytes, as `str::len` gives it.
pub open spec fn byte_len(text: Seq<char>) -> usize {
    vstd::utf8::encode_utf8(text).len() as usize
}

/// The operations of an update from the rendering `old` to a different
/// rendering `new`, given what the difference of their code units came to.
///
/// A short rendering is sent whole; so is any rendering when the time for
/// the difference ran out, when `spans` is no edit script between the two,
/// when a span of it carries half of a surrogate pair, which no text can
/// hold, or when the script changes nothing.
pub open spec fn update_ops(
    old: Seq<char>,
    new: Seq<char>,
    spans: Seq<DiffSpan>,
    expired: bool,
) -> Seq<DomOperationView> {
    let diffed = script_ops(spans, encode(new));
    if byte_len(new) < MINIMUM_DIFF_LEN || expired || !is_edit_script(
        spans,
        encode(old),
        encode(new),
    ) || !whole_characters(spans, encode(new)) || diffed.len() == 0 {
        seq![DomOperationView::reset(new)]
    } else {
        diffed
    }
}

/// A receiver that holds the code units of `old` and applies the operations
/// of an update holds the code units of `new`, whatever the difference was.
pub proof fn lemma_update_rebuilds(
    old: Seq<char>,
    new: Seq<char>,
    spans: Seq<DiffSpan>,
    expired: bool,
)
    ensures
        apply_all(update_ops(old, new, spans, expired), encode(old)) == encode(new),
{
    let ops = update_ops(old, new, spans, expired);
    if ops == seq![DomOperationView::reset(new)] {
        assert(ops.drop_last() =~= Seq::<DomOperationView>::empty());
        assert(ops.last() == DomOperationView::reset(new));
    } else {
        lemma_encode_well_formed(new);
        assert forall|i: int| 0 <= i < spans.len() implies (#[trigger] spans[i]).carries_exactly(
            encode(new),
        ) by {
            assert(span_in_place(spans, encode(old), encode(new), i));
            assert(spans[i].whole(encode(new)));
            if spans[i].tag is Insert || spans[i].tag is Replace {
                lemma_whole_characters_round_trip(
                    encode(new),
                    spans[i].new_start as int,
                    spans[i].new_end as int,
                );
            }
        }
        lemma_script_rebuilds(spans, encode(old), encode(new));
    }
}

/// The synchronizer of one rendering: what was last sent, and its version.
#[derive(Debug)]
pub struct DomSync {
    /// The version of the last patch
    pub version: u32,
    /// The rendering as of the last patch
    pub current: String,
}

/// How one update relates the synchronizer before and after it, the new
/// rendering, the patch that came out and the difference it was made from.
pub open spec fn update_outcome(
    before: DomSync,
    after: DomSync,
    new: Seq<char>,
    patch: Option<DomPatch>,
    spans: Seq<DiffSpan>,
    expired: bool,
) -> bool {
    if new == before.current@ {
        &&& patch is None
        &&& after.version == before.version
        &&& after.current@ == before.current@
    } else {
        &&& patch is Some
        &&& after.version == before.version.wrapping_add(1)
        &&& after.current@ == new
        &&& patch->0.version == after.version
        &&& views(patch->0.ops@) == update_ops(before.current@, new, spans, expired)
    }
}

/// A receiver that takes the first patch of a synchronizer, whatever it
/// held, holds the code units of the initial rendering.
pub proof fn lemma_receiver_starts_in_step(initial: Seq<char>, buffer: Seq<u16>)
    ensures
        apply_all(seq![DomOperationView::reset(initial)], buffer) == encode(initial),
{
    let ops = seq![DomOperationView::reset(initial)];
    assert(ops.drop_last() =~= Seq::<DomOperationView>::empty());
    assert(ops.last() == DomOperationView::reset(initial));
}

/// A receiver that is in step with the synchronizer stays in step through
/// an update: where the update gives a patch, the patch has the version
/// that the receiver waits for and brings its copy to the new rendering,
/// code unit for code unit; where it gives none, nothing has changed.
pub proof fn lemma_receiver_keeps_step(
    before: DomSync,
    after: DomSync,
    new: Seq<char>,
    patch: Option<DomPatch>,
    spans: Seq<DiffSpan>,
    expired: bool,
    receiver: DomReceiver,
)
    requires
        update_outcome(before, after, new, patch, spans, expired),
        receiver.version == before.version,
        receiver.content@ == encode(before.current@),
    ensures
        match patch {
            Some(patch) => patch.version == receiver.version.wrapping_add(1) && after.version
                == patch.version && apply_all(views(patch.ops@), receiver.content@) == encode(
                after.current@,
            ),
            None => after.version == receiver.version && encode(after.current@)
                == receiver.content@,
        },
{
    if new != before.current@ {
        lemma_update_rebuilds(before.current@, new, spans, expired);
    }
}

impl DomSync {
    /// Start from an initial rendering: version 1, and the patch that sets
    /// a receiver to that rendering.
    pub fn new(initial: String) -> (out: (DomSync, DomPatch))
        ensures
            out.0.version == 1,
            out.0.current@ == initial@,
            out.1.version == 1,
            views(out.1.ops@) == seq![DomOperationView::reset(initial@)],
    {
        let mut ops: Vec<DomOperation> = Vec::new();
        ops.push(DomOperation::reset_content(initial.clone()));
        proof {
            assert(views(ops@) =~= seq![DomOperationView::reset(initial@)]);
        }
        (DomSync { version: 1, current: initial }, DomPatch { version: 1, ops })
    }

    /// Whether an update to `new_content` needs the difference of the two
    /// renderings: the content has changed and is not short.
    pub fn needs_diff(&self, new_content: &String) -> (b: bool)
        ensures
            b == (new_content@ != self.current@ && byte_len(new_content@) >= MINIMUM_DIFF_LEN),
    {
        !(*new_content == self.current) && new_content.as_str().len() >= MINIMUM_DIFF_LEN
    }

    /// Take a new rendering, with the difference that was computed for it.
    ///
    /// Nothing happens when the rendering has not changed. Otherwise the
    /// version goes up by one, the rendering is kept, and the patch holds
    /// the operations of `update_ops`: applied to the code units of the
    /// rendering before, they give those of the new one.
    pub fn update_with(&mut self, new_content: String, spans: &Vec<DiffSpan>, expired: bool) -> (patch:
        Option<DomPatch>)
        ensures
            update_outcome(*old(self), *final(self), new_content@, patch, spans@, expired),
            patch matches Some(sent) ==> apply_all(views(sent.ops@), encode(old(self).current@))
                == encode(new_content@),
    {
        proof {
            lemma_update_rebuilds(old(self).current@, new_content@, spans@, expired);
        }
        if new_content == self.current {
            return None;
        }
        let mut ops: Vec<DomOperation> = Vec::new();
        if new_content.as_str().len() >= MINIMUM_DIFF_LEN && !expired {
            let old_units = encode_utf16(self.current.as_str());
            let new_units = encode_utf16(new_content.as_str());
            if check_edit_script(spans, &old_units, &new_units) && check_whole_characters(
                spans,
                &new_units,
            ) {
                ops = ops_from_diff(spans, &old_units, &new_units);
            }
        }
        if ops.len() == 0 {
            ops.push(DomOperation::reset_content(new_content.clone()));
            proof {
                assert(views(ops@) =~= seq![DomOperationView::reset(new_content@)]);
            }
        }
        self.version = self.version.wrapping_add(1);
        self.current = new_content;
        Some(DomPatch { version: self.version, ops })
    }

    /// Take a new rendering: compute the difference where one is needed,
    /// within `MAXIMUM_DIFF_SECS`, and update with it.
    ///
    /// Which difference comes back is not known beforehand, so the patch is
    /// that of `update_with` for some difference. Whatever it was, the
    /// operations of the patch, applied to the code units of the rendering
    /// before, give those of the new one. A short rendering is always sent
    /// whole.
    pub fn update(&mut self, new_content: String) -> (patch: Option<DomPatch>)
        ensures
            exists|spans: Seq<DiffSpan>, expired: bool| #[trigger]
                update_outcome(*old(self), *final(self), new_content@, patch, spans, expired),
            patch matches Some(sent) ==> apply_all(views(sent.ops@), encode(old(self).current@))
                == encode(new_content@),
            new_content@ != old(self).current@ && byte_len(new_content@) < MINIMUM_DIFF_LEN
                ==> views(patch->0.ops@) == seq![DomOperationView::reset(new_content@)],
    {
        let mut spans: Vec<DiffSpan> = Vec::new();
        let mut expired = false;
        if self.needs_diff(&new_content) {
            let old_units = encode_utf16(self.current.as_str());
            let new_units = encode_utf16(new_content.as_str());
            let deadline = deadline_in(MAXIMUM_DIFF_SECS);
            spans = capture_diff(&old_units, &new_units, &deadline);
            expired = match &deadline {
                Some(at) => deadline_passed(at),
                None => false,
            };
        }
        self.update_with(new_content, &spans, expired)
    }
}

/// A receiver's copy of the rendering, as code units, and the version of
/// the last patch it applied.
#[derive(Debug)]
pub struct DomReceiver {
    pub version: u32,
    pub content: Vec<u16>,
}

impl DomReceiver {
    /// A receiver that has seen nothing yet: version 0, no content.
    pub fn new() -> (receiver: DomReceiver)
        ensures
            receiver.version == 0,
            receiver.content@ == Seq::<u16>::empty(),
    {
        DomReceiver { version: 0, content: Vec::new() }
    }

    /// Take a patch. One whose version is exactly one more than the
    /// receiver's is applied, operation by operation, and `true` comes back.
    /// Any other is rejected: the receiver stays as it is and `false` comes
    /// back, upon which the receiver asks for a reset.
    pub fn receive(&mut self, patch: &DomPatch) -> (applied: bool)
        ensures
            applied == (patch.version == old(self).version.wrapping_add(1)),
            applied ==> final(self).version == patch.version && final(self).content@ == apply_all(
                views(patch.ops@),
                old(self).content@,
            ),
            !applied ==> *final(self) == *old(self),
    {
        if patch.version != self.version.wrapping_add(1) {
            return false;
        }
        let mut i: usize = 0;
        proof {
            assert(views(patch.ops@).take(0) =~= Seq::<DomOperationView>::empty());
        }
        while i < patch.ops.len()
            invariant
                i <= patch.ops.len(),
                self.version == old(self).version,
                self.content@ == apply_all(views(patch.ops@).take(i as int), old(self).content@),
            decreases patch.ops.len() - i,
        {
            proof {
                let all = views(patch.ops@);
                assert(all.take(i + 1).drop_last() =~= all.take(i as int));
                assert(all.take(i + 1).last() == patch.ops@[i as int]@);
            }
            self.content = patch.ops[i].apply(&self.content);
            i += 1;
        }
        proof {
            assert(views(patch.ops@).take(patch.ops.len() as int) =~= views(patch.ops@));
        }
        self.version = patch.version;
        true
    }
}

/// A point in time of the monotonic clock.
#[verifier::external_type_specification]
#[verifier::external_body]
pub struct ExInstant(std::time::Instant);

/// The time `secs` seconds from now, by `Instant::now` and
/// `Instant::checked_add`; `None` where the clock cannot represent it.
/// Nothing is claimed of the time that comes back.
#[verifier::external_body]
fn deadline_in(secs: u64) -> Option<std::time::Instant> {
    std::time::Instant::now().checked_add(std::time::Duration::from_secs(secs))
}

/// Whether the clock, read by `Instant::now`, has reached `deadline`.
/// Nothing is claimed of the answer.
#[verifier::external_body]
fn deadline_passed(deadline: &std::time::Instant) -> bool {
    std::time::Instant::now() >= *deadline
}

/// The difference between two texts by `similar::capture_diff_slices_deadline`
/// with the Myers algorithm, each operation handed on as a span with its
/// tag and its two ranges. Nothing is claimed of the spans: their callers
/// check them.
#[verifier::external_body]
fn capture_diff(old: &Vec<u16>, new: &Vec<u16>, deadline: &Option<std::time::Instant>) -> Vec<
    DiffSpan,
> {
    let mut spans = Vec::new();
    for op in similar::capture_diff_slices_deadline(similar::Algorithm::Myers, old, new, *deadline) {
        let (tag, o, n) = op.as_tag_tuple();
        let tag = match tag {
            similar::DiffTag::Equal => DiffTag::Equal,
            similar::DiffTag::Delete => DiffTag::Delete,
            similar::DiffTag::Insert => DiffTag::Insert,
            similar::DiffTag::Replace => DiffTag::Replace,
        };
        spans.push(DiffSpan { tag, old_start: o.start, old_end: o.end, new_start: n.start, new_end: n.end });
    }
    spans
}

} // verus!
