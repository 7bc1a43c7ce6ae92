//! Bounded boot diagnostics, independent of firmware interfaces.
//!
//! A report accepts whole strings while they fit below the byte limit (with
//! room kept for the truncation marker). The first string that does not fit
//! truncates the report for good: it and everything after it are dropped, so
//! the text is always made of whole strings and never of a cut UTF-8 sequence.

use vstd::prelude::*;
use vstd::string::*;
use vstd::utf8::*;

verus! {

/// Largest size, in bytes, of a finished report.
pub const MAX_REPORT_BYTES: usize = 16 * 1024;

/// Bytes kept free below `MAX_REPORT_BYTES` for the truncation marker.
pub const RESERVED_BYTES: usize = 32;

/// Size in bytes of the UTF-8 encoding of `s`.
pub open spec fn byte_len(s: Seq<char>) -> nat {
    encode_utf8(s).len()
}

/// Largest number of bytes of text a report holds before it is finished.
pub open spec fn capacity() -> nat {
    (MAX_REPORT_BYTES - RESERVED_BYTES) as nat
}

/// What a report holds after `value` is offered to a report that holds
/// `text` and whose truncation flag is `truncated`.
pub open spec fn after_write(state: (Seq<char>, bool), value: Seq<char>) -> (Seq<char>, bool) {
    if state.1 || byte_len(value) > capacity() - byte_len(state.0) {
        (state.0, true)
    } else {
        (state.0 + value, false)
    }
}

/// What a report holds after each of `parts` is offered in turn.
pub open spec fn after_writes(state: (Seq<char>, bool), parts: Seq<Seq<char>>) -> (Seq<char>, bool)
    decreases parts.len(),
{
    if parts.len() == 0 {
        state
    } else {
        after_writes(after_write(state, parts[0]), parts.drop_first())
    }
}

/// What a report holds after a line made of `parts` is added: the parts in
/// turn, then a newline.
pub open spec fn after_line(state: (Seq<char>, bool), parts: Seq<Seq<char>>) -> (Seq<char>, bool) {
    after_write(after_writes(state, parts), seq!['\n'])
}

/// The marker that ends a truncated report.
pub open spec fn truncation_marker() -> Seq<char> {
    seq!['\n', '[', 'r', 'e', 'p', 'o', 'r', 't', ' ', 't', 'r', 'u', 'n', 'c', 'a', 't', 'e', 'd', ']', '\n']
}

/// The finished text of a report.
pub open spec fn finished(state: (Seq<char>, bool)) -> Seq<char> {
    if state.1 {
        state.0 + truncation_marker()
    } else {
        state.0
    }
}

/// The UTF-8 encoding of a concatenation is the concatenation of the encodings.
pub proof fn lemma_encode_concat(a: Seq<char>, b: Seq<char>)
    ensures
        encode_utf8(a + b) == encode_utf8(a) + encode_utf8(b),
    decreases a.len(),
{
    if a.len() == 0 {
        assert(a + b =~= b);
        assert(encode_utf8(a) =~= Seq::<u8>::empty());
        assert(encode_utf8(a) + encode_utf8(b) =~= encode_utf8(b));
    } else {
        assert((a + b).drop_first() =~= a.drop_first() + b);
        assert((a + b)[0] == a[0]);
        lemma_encode_concat(a.drop_first(), b);
        assert(encode_utf8(a + b) =~= encode_utf8(a) + encode_utf8(b));
    }
}

proof fn lemma_marker_bytes()
    ensures
        byte_len(truncation_marker()) == 20,
{
    let m = truncation_marker();
    assert(is_ascii_chars(m));
    is_ascii_chars_encode_utf8(m);
}

/// Truncation is final: once a string has been dropped, every later string
/// is refused and the text stays as it is.
pub proof fn lemma_truncation_is_final(state: (Seq<char>, bool), value: Seq<char>)
    requires
        state.1,
    ensures
        after_write(state, value) == state,
{
}

/// Strings are kept whole: offering a string appends all of it or nothing,
/// so the text is always a sequence of whole strings and never ends in part
/// of a character.
pub proof fn lemma_whole_strings(state: (Seq<char>, bool), value: Seq<char>)
    ensures
        after_write(state, value).0 == state.0 || after_write(state, value).0 == state.0 + value,
        !after_write(state, value).1 ==> after_write(state, value).0 == state.0 + value,
        after_write(state, value).1 ==> after_write(state, value).0 == state.0,
{
}

/// A string that fits in the room left of a report that is not truncated
/// is accepted.
pub proof fn lemma_fitting_string_is_kept(state: (Seq<char>, bool), value: Seq<char>)
    requires
        !state.1,
        byte_len(state.0) + byte_len(value) <= capacity(),
    ensures
        after_write(state, value) == (state.0 + value, false),
{
}

/// Text once in a report stays at its start: whatever lines are added
/// later, and in the finished report.
pub proof fn lemma_text_is_kept(state: (Seq<char>, bool), parts: Seq<Seq<char>>)
    ensures
        state.0.is_prefix_of(after_line(state, parts).0),
        state.0.is_prefix_of(finished(after_line(state, parts))),
{
    lemma_writes_keep_text(state, parts);
    let mid = after_writes(state, parts);
    lemma_whole_strings(mid, seq!['\n']);
    let end = after_line(state, parts);
    assert(state.0.is_prefix_of(end.0)) by {
        assert(end.0 =~= mid.0 || end.0 =~= mid.0 + seq!['\n']);
        if end.0 == mid.0 + seq!['\n'] {
            assert((mid.0 + seq!['\n']).subrange(0, state.0.len() as int) =~= mid.0.subrange(
                0,
                state.0.len() as int,
            ));
        }
    }
    let fin = finished(end);
    if end.1 {
        assert(fin.subrange(0, state.0.len() as int) =~= end.0.subrange(0, state.0.len() as int));
    }
}

proof fn lemma_writes_keep_text(state: (Seq<char>, bool), parts: Seq<Seq<char>>)
    ensures
        state.0.is_prefix_of(after_writes(state, parts).0),
    decreases parts.len(),
{
    if parts.len() == 0 {
        assert(state.0.subrange(0, state.0.len() as int) =~= state.0);
    } else {
        let next = after_write(state, parts[0]);
        lemma_whole_strings(state, parts[0]);
        lemma_writes_keep_text(next, parts.drop_first());
        let end = after_writes(next, parts.drop_first()).0;
        assert(next.0.subrange(0, state.0.len() as int) =~= state.0);
        assert(end.subrange(0, state.0.len() as int) =~= next.0.subrange(0, next.0.len() as int).subrange(
            0,
            state.0.len() as int,
        ));
    }
}

/// A finished report never holds more than `MAX_REPORT_BYTES` bytes.
pub proof fn lemma_finished_is_bounded(state: (Seq<char>, bool))
    requires
        byte_len(state.0) <= capacity(),
    ensures
        byte_len(finished(state)) <= MAX_REPORT_BYTES,
{
    lemma_encode_concat(state.0, truncation_marker());
    lemma_marker_bytes();
}

/// The error returned when a string no longer fits in a report.
#[derive(Debug, PartialEq, Eq, Clone, Copy)]
pub struct ReportFull;

/// A boot report of at most `MAX_REPORT_BYTES` bytes.
pub struct Report {
    text: String,
    truncated: bool,
}

impl View for Report {
    /// The text held so far, and whether some string has been dropped.
    type V = (Seq<char>, bool);

    closed spec fn view(&self) -> (Seq<char>, bool) {
        (self.text@, self.truncated)
    }
}

impl Report {
    #[verifier::type_invariant]
    spec fn fits(self) -> bool {
        byte_len(self.text@) <= capacity()
    }

    /// An empty report.
    pub fn new() -> (report: Self)
        ensures
            report@ == (Seq::<char>::empty(), false),
    {
        let report = Report { text: String::new(), truncated: false };
        proof {
            assert(encode_utf8(Seq::<char>::empty()) =~= Seq::<u8>::empty());
        }
        report
    }

    /// Offers `value` to the report. It is appended whole when the report is
    /// not truncated and the value fits in the room left; otherwise the
    /// report becomes truncated and `Err` is returned.
    pub fn write_str(&mut self, value: &str) -> (result: Result<(), ReportFull>)
        ensures
            final(self)@ == after_write(old(self)@, value@),
            result is Ok <==> !final(self)@.1,
            byte_len(final(self)@.0) <= capacity(),
    {
        proof {
            use_type_invariant(&*self);
        }
        let used = self.text.as_str().as_bytes().len();
        let size = value.as_bytes().len();
        if self.truncated || size > MAX_REPORT_BYTES - RESERVED_BYTES - used {
            self.truncated = true;
            return Err(ReportFull);
        }
        let mut text = String::new();
        std::mem::swap(&mut text, &mut self.text);
        let ghost before = text@;
        text.append(value);
        proof {
            lemma_encode_concat(before, value@);
        }
        self.text = text;
        Ok(())
    }

    /// Adds a line made of `parts` followed by a newline. Each part is
    /// offered in turn, as a formatter offers the pieces of a format string.
    pub fn line(&mut self, parts: &[&str])
        ensures
            final(self)@ == after_line(old(self)@, parts@.map_values(|p: &str| p@)),
            byte_len(final(self)@.0) <= capacity(),
    {
        let ghost start = self@;
        let ghost all = parts@.map_values(|p: &str| p@);
        let mut i: usize = 0;
        assert(all.skip(0) =~= all);
        while i < parts.len()
            invariant
                i <= parts.len(),
                all == parts@.map_values(|p: &str| p@),
                after_writes(start, all) == after_writes(self@, all.skip(i as int)),
            decreases parts.len() - i,
        {
            let ghost rest = all.skip(i as int);
            assert(rest[0] == parts[i as int]@);
            assert(rest.drop_first() =~= all.skip(i + 1));
            let _ = self.write_str(parts[i]);
            i = i + 1;
        }
        assert(all.skip(i as int) =~= Seq::<Seq<char>>::empty());
        let newline = "\n";
        proof {
            reveal_strlit("\n");
            assert(newline@ =~= seq!['\n']);
        }
        let _ = self.write_str(newline);
    }

    /// The finished text: everything accepted, followed by a marker when
    /// some string was dropped.
    pub fn finish(self) -> (text: String)
        ensures
            text@ == finished(self@),
            byte_len(text@) <= MAX_REPORT_BYTES,
    {
        proof {
            use_type_invariant(&self);
        }
        let mut text = self.text;
        if self.truncated {
            let ghost before = text@;
            let marker = "\n[report truncated]\n";
            proof {
                reveal_strlit("\n[report truncated]\n");
                assert(marker@ =~= truncation_marker());
                lemma_encode_concat(before, truncation_marker());
                lemma_marker_bytes();
            }
            text.append(marker);
        }
        text
    }
}

} // verus!
