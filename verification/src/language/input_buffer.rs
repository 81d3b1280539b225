use vstd::prelude::*;
use vstd::slice::slice_subrange;
use vstd::string::StringSliceAdditionalSpecFns;
use vstd::utf8::valid_utf8;

use crate::language::text::text_of;

verus! {

/// The full current source text, held as bytes and edited in place.
pub struct InputBuffer {
    bytes: Vec<u8>,
    edit_start: usize,
}

impl View for InputBuffer {
    type V = Seq<u8>;

    closed spec fn view(&self) -> Seq<u8> {
        self.bytes@
    }
}

impl InputBuffer {
    /// Offset at which the most recent edit began.
    pub closed spec fn spec_edit_start(&self) -> usize {
        self.edit_start
    }

    /// The stored text after an edit: the old bytes cut at `edit_pos`,
    /// followed by `text[edit_pos..new_end]`.
    pub open spec fn edited(old_bytes: Seq<u8>, text: Seq<u8>, edit_pos: int, new_end: int) -> Seq<
        u8,
    > {
        let kept = if edit_pos <= old_bytes.len() {
            old_bytes.subrange(0, edit_pos)
        } else {
            old_bytes
        };
        kept + text.subrange(edit_pos, new_end)
    }

    /// An empty buffer.
    pub fn new() -> (buffer: Self)
        ensures
            buffer@ == Seq::<u8>::empty(),
            buffer.spec_edit_start() == 0,
    {
        InputBuffer { bytes: Vec::with_capacity(1024), edit_start: 0 }
    }

    /// Applies one edit. `new_input` is the whole text after the edit; the
    /// changed region starts at `edit_pos` and ends at `new_end` in it
    /// (`old_end` is where it ended in the previous text).
    pub fn update(&mut self, new_input: &str, edit_pos: usize, old_end: usize, new_end: usize)
        requires
            edit_pos <= new_end <= new_input.spec_bytes().len(),
        ensures
            final(self)@ == Self::edited(
                old(self)@,
                new_input.spec_bytes(),
                edit_pos as int,
                new_end as int,
            ),
            final(self).spec_edit_start() == edit_pos,
    {
        let text = new_input.as_bytes();
        let slice = slice_subrange(text, edit_pos, new_end);
        self.bytes.truncate(edit_pos);
        self.bytes.reserve(new_end - edit_pos);
        let ghost kept = self.bytes@;
        self.bytes.extend_from_slice(slice);
        self.edit_start = edit_pos;
        assert(self.bytes@ =~= kept + slice@);
    }

    /// Offset at which the most recent edit began.
    #[verifier::when_used_as_spec(spec_edit_start)]
    pub fn edit_start(&self) -> (r: usize)
        ensures
            r == self.spec_edit_start(),
    {
        self.edit_start
    }

    /// The stored bytes.
    pub fn as_bytes(&self) -> (r: &[u8])
        ensures
            r@ == self@,
    {
        self.bytes.as_slice()
    }

    /// The stored text, where the stored bytes are well-formed UTF-8.
    pub fn as_str(&self) -> (r: &str)
        requires
            valid_utf8(self@),
        ensures
            r.spec_bytes() == self@,
    {
        match text_of(self.bytes.as_slice()) {
            Some(s) => s,
            None => "",
        }
    }

    /// A buffer that agrees with the new text before the edit holds, after an
    /// edit that reaches the end of the new text, exactly the new text.
    pub proof fn lemma_edit_converges(old_bytes: Seq<u8>, text: Seq<u8>, edit_pos: int)
        requires
            (TextEdit { text, edit_pos }).fits(old_bytes),
        ensures
            Self::edited(old_bytes, text, edit_pos, text.len() as int) == text,
    {
        assert(text.subrange(0, edit_pos) + text.subrange(edit_pos, text.len() as int) =~= text);
    }

    /// Whatever the buffer held, a text typed in by edits, each of which
    /// fits the text before it, is held as it is after one edit that
    /// replaces everything by that text.
    pub proof fn lemma_incremental_equals_full(
        start: Seq<u8>,
        edits: Seq<TextEdit>,
        other: Seq<u8>,
    )
        requires
            edits.len() > 0,
            edits_fit(start, edits),
        ensures
            replayed(start, edits) == edits.last().text,
            replayed(start, edits) == replayed(other, seq![TextEdit::whole(edits.last().text)]),
        decreases edits.len(),
    {
        let last = edits.last();
        let earlier = edits.drop_last();
        if earlier.len() > 0 {
            Self::lemma_incremental_equals_full(start, earlier, other);
        }
        Self::lemma_edit_converges(replayed(start, earlier), last.text, last.edit_pos);
        let whole = seq![TextEdit::whole(last.text)];
        assert(whole.drop_last() =~= Seq::<TextEdit>::empty());
        assert(replayed(other, whole.drop_last()) == other);
        assert(other.subrange(0, 0) =~= last.text.subrange(0, 0));
        Self::lemma_edit_converges(other, last.text, 0);
    }
}

/// An edit that reaches the end of the text: the whole text after the edit,
/// and where the changed region starts in it.
pub struct TextEdit {
    pub text: Seq<u8>,
    pub edit_pos: int,
}

impl TextEdit {
    /// The edit that replaces everything by `text`.
    pub open spec fn whole(text: Seq<u8>) -> TextEdit {
        TextEdit { text, edit_pos: 0 }
    }

    /// Whether the edit fits a buffer that holds `old_bytes`: the two texts
    /// are the same before the changed region.
    pub open spec fn fits(self, old_bytes: Seq<u8>) -> bool {
        &&& 0 <= self.edit_pos <= self.text.len()
        &&& self.edit_pos <= old_bytes.len()
        &&& old_bytes.subrange(0, self.edit_pos) == self.text.subrange(0, self.edit_pos)
    }
}

/// What a buffer that held `start` holds after the edits, from first to
/// last.
pub open spec fn replayed(start: Seq<u8>, edits: Seq<TextEdit>) -> Seq<u8>
    decreases edits.len(),
{
    if edits.len() == 0 {
        start
    } else {
        InputBuffer::edited(
            replayed(start, edits.drop_last()),
            edits.last().text,
            edits.last().edit_pos,
            edits.last().text.len() as int,
        )
    }
}

/// Whether each of the edits fits what the buffer holds when it is applied.
pub open spec fn edits_fit(start: Seq<u8>, edits: Seq<TextEdit>) -> bool
    decreases edits.len(),
{
    edits.len() == 0 || (edits_fit(start, edits.drop_last()) && edits.last().fits(
        replayed(start, edits.drop_last()),
    ))
}

} // verus!
