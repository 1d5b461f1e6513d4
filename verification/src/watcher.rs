//! Finding the turn prompt on the standard error of `larql chat`.
//!
//! The prompt `"> "` is written without a line feed, so the stream is read in raw chunks, and a
//! small rolling buffer holds what may still turn out to be the beginning of a prompt.
use crate::text::{chars_of, string_of};
use vstd::prelude::*;
use vstd::string::StringExecFns;
use vstd::utf8::{decode_utf8, encode_scalar, encode_utf8, valid_utf8};

verus! {

/// The number of bytes that may be pending.
pub const PENDING_LIMIT: usize = 4096;

/// The number of bytes that stay pending where there were more than [`PENDING_LIMIT`].
pub const PENDING_TAIL: usize = 256;

/// Whether the turn prompt stands at position `i` of `s`.
pub open spec fn prompt_at(s: Seq<char>, i: int) -> bool {
    0 <= i < s.len() - 1 && s[i] == '>' && s[i + 1] == ' '
}

/// Whether the turn prompt stands anywhere in `s`.
pub open spec fn has_prompt(s: Seq<char>) -> bool {
    exists|i: int| prompt_at(s, i)
}

/// The longest end of `s` that takes no more than [`PENDING_TAIL`] bytes.
pub open spec fn kept_tail(s: Seq<char>) -> Seq<char>
    decreases s.len(),
{
    if s.len() == 0 || encode_utf8(s).len() <= PENDING_TAIL {
        s
    } else {
        kept_tail(s.drop_first())
    }
}

/// What is pending after `text` has arrived, and whether a turn prompt was seen. Nothing stays
/// pending after a prompt.
pub open spec fn watch_step(pending: Seq<char>, text: Seq<char>) -> (Seq<char>, bool) {
    let seen = pending + text;
    if has_prompt(seen) {
        (Seq::empty(), true)
    } else if encode_utf8(seen).len() > PENDING_LIMIT {
        (kept_tail(seen), false)
    } else {
        (seen, false)
    }
}

/// Stands for anything outside ASCII.
pub const NON_ASCII: u8 = 0x80;

/// `bytes`, with [`NON_ASCII`] for each byte outside ASCII.
pub open spec fn byte_marks(bytes: Seq<u8>) -> Seq<u8> {
    bytes.map_values(|b: u8| if b < NON_ASCII { b } else { NON_ASCII })
}

/// The code points of `text`, with [`NON_ASCII`] for each character outside ASCII.
pub open spec fn char_marks(text: Seq<char>) -> Seq<u8> {
    text.map_values(|c: char| if (c as u32) < NON_ASCII { c as u8 } else { NON_ASCII })
}

/// `marks`, with every run of [`NON_ASCII`] shortened to one.
pub open spec fn outline(marks: Seq<u8>) -> Seq<u8>
    decreases marks.len(),
{
    if marks.len() == 0 {
        marks
    } else {
        let before = outline(marks.drop_last());
        if marks.last() == NON_ASCII && before.len() > 0 && before.last() == NON_ASCII {
            before
        } else {
            before.push(marks.last())
        }
    }
}

/// Whether `bytes` and `text` hold the same ASCII in the same order, and have something else
/// between, before or behind it in the same places.
pub open spec fn same_outline(bytes: Seq<u8>, text: Seq<char>) -> bool {
    outline(byte_marks(bytes)) == outline(char_marks(text))
}

/// The text that `String::from_utf8_lossy` makes of `bytes`.
pub uninterp spec fn lossy_utf8(bytes: Seq<u8>) -> Seq<char>;

/// Calls `String::from_utf8_lossy`: valid UTF-8 is decoded, and invalid sequences are replaced by
/// U+FFFD. The result depends on the bytes alone. ASCII bytes, which are always valid, come through
/// unchanged and in place, and the bytes between them become one or more characters outside ASCII;
/// how many replacements an invalid sequence gets is not stated.
#[verifier::external_body]
fn decode_lossy(bytes: &[u8]) -> (text: String)
    ensures
        text@ == lossy_utf8(bytes@),
        valid_utf8(bytes@) ==> text@ == decode_utf8(bytes@),
        same_outline(bytes@, text@),
{
    String::from_utf8_lossy(bytes).into_owned()
}

/// Watches a stream for turn prompts.
pub struct TurnWatcher {
    pending: String,
}

impl View for TurnWatcher {
    type V = Seq<char>;

    closed spec fn view(&self) -> Seq<char> {
        self.pending@
    }
}

impl TurnWatcher {
    /// A watcher that has seen nothing yet.
    pub fn new() -> (watcher: TurnWatcher)
        ensures
            watcher@ == Seq::<char>::empty(),
    {
        TurnWatcher { pending: String::new() }
    }

    /// Takes in the next chunk of the stream; tells whether a turn prompt was seen.
    pub fn observe(&mut self, chunk: &[u8]) -> (signal: bool)
        ensures
            (final(self)@, signal) == watch_step(old(self)@, lossy_utf8(chunk@)),
            valid_utf8(chunk@) ==> lossy_utf8(chunk@) == decode_utf8(chunk@),
            same_outline(chunk@, lossy_utf8(chunk@)),
            encode_utf8(final(self)@).len() <= PENDING_LIMIT,
    {
        let text = decode_lossy(chunk);
        self.observe_text(text.as_str())
    }

    /// Takes in the next piece of text; tells whether a turn prompt was seen. What stays pending
    /// never takes more than [`PENDING_LIMIT`] bytes.
    pub fn observe_text(&mut self, text: &str) -> (signal: bool)
        ensures
            (final(self)@, signal) == watch_step(old(self)@, text@),
            encode_utf8(final(self)@).len() <= PENDING_LIMIT,
    {
        self.pending.append(text);
        let seen = chars_of(self.pending.as_str());
        if contains_prompt(&seen) {
            self.pending = String::new();
            return true;
        }
        let bytes = self.pending.as_str().as_bytes().len();
        if bytes > PENDING_LIMIT {
            let from = tail_start(&seen, bytes);
            self.pending = string_of(&seen, from, seen.len());
            proof {
                assert(seen@.subrange(from as int, seen@.len() as int) =~= seen@.skip(from as int));
                lemma_kept_tail(seen@);
            }
        }
        false
    }
}

/// Whether the turn prompt stands anywhere in `s`.
fn contains_prompt(s: &Vec<char>) -> (yes: bool)
    ensures
        yes == has_prompt(s@),
{
    let mut i: usize = 1;
    while i < s.len()
        invariant
            1 <= i,
            forall|j: int| 0 <= j < i - 1 ==> !prompt_at(s@, j),
        decreases s@.len() - i,
    {
        if s[i - 1] == '>' && s[i] == ' ' {
            assert(prompt_at(s@, i - 1));
            return true;
        }
        i += 1;
    }
    false
}

/// The number of bytes that `c` takes in UTF-8.
fn utf8_width(c: char) -> (width: usize)
    ensures
        width == encode_scalar(c as u32).len(),
{
    let scalar = c as u32;
    if scalar <= 0x7f {
        1
    } else if scalar <= 0x7ff {
        2
    } else if scalar <= 0xffff {
        3
    } else {
        4
    }
}

/// Where the kept tail of `s` begins; `bytes` is the number of bytes that `s` takes.
fn tail_start(s: &Vec<char>, bytes: usize) -> (from: usize)
    requires
        bytes == encode_utf8(s@).len(),
    ensures
        from <= s@.len(),
        s@.skip(from as int) == kept_tail(s@),
{
    let len = s.len();
    let mut from: usize = 0;
    let mut left: usize = bytes;
    assert(s@.skip(0) =~= s@);
    while left > PENDING_TAIL
        invariant
            from <= len == s@.len(),
            left == encode_utf8(s@.skip(from as int)).len(),
            kept_tail(s@) == kept_tail(s@.skip(from as int)),
        decreases len - from,
    {
        let ghost rest = s@.skip(from as int);
        proof {
            assert(rest.len() > 0);
            assert(rest.drop_first() =~= s@.skip(from + 1));
            assert(rest[0] == s@[from as int]);
        }
        left -= utf8_width(s[from]);
        from += 1;
    }
    from
}

// ---------------------------------------------------------------------------
// Nothing meaningful is lost
// ---------------------------------------------------------------------------

/// Dropping the first character of a text drops its bytes.
proof fn lemma_encode_drop_first(s: Seq<char>)
    requires
        s.len() > 0,
    ensures
        encode_utf8(s.drop_first()).len() < encode_utf8(s).len() <= encode_utf8(s.drop_first()).len()
            + 4,
{
}

/// The kept tail is an end of the text, short enough, and empty only where the text is.
proof fn lemma_kept_tail(s: Seq<char>)
    ensures
        kept_tail(s).len() <= s.len(),
        kept_tail(s) == s.skip(s.len() - kept_tail(s).len()),
        encode_utf8(kept_tail(s)).len() <= PENDING_TAIL,
        s.len() > 0 ==> kept_tail(s).len() > 0,
    decreases s.len(),
{
    if s.len() == 0 || encode_utf8(s).len() <= PENDING_TAIL {
        assert(s.skip(0) =~= s);
    } else {
        let rest = s.drop_first();
        lemma_encode_drop_first(s);
        lemma_kept_tail(rest);
        assert(s.skip(s.len() - kept_tail(s).len()) =~= rest.skip(
            rest.len() - kept_tail(rest).len(),
        ));
        if rest.len() == 0 {
            assert(encode_utf8(rest).len() == 0);
        }
    }
}

/// Where the last [`PENDING_TAIL`] bytes of a text are whole characters, they are what is kept.
pub proof fn tail_is_the_last_bytes(s: Seq<char>, from: int)
    requires
        0 <= from <= s.len(),
        encode_utf8(s.skip(from)).len() == PENDING_TAIL,
    ensures
        kept_tail(s) == s.skip(from),
    decreases from,
{
    if from == 0 {
        assert(s.skip(0) =~= s);
    } else {
        let rest = s.drop_first();
        assert(rest.skip(from - 1) =~= s.skip(from));
        tail_is_the_last_bytes(rest, from - 1);
        lemma_encode_skip(s, from);
    }
}

/// A proper end of a text takes fewer bytes than the text.
proof fn lemma_encode_skip(s: Seq<char>, n: int)
    requires
        0 < n <= s.len(),
    ensures
        encode_utf8(s.skip(n)).len() < encode_utf8(s).len(),
    decreases n,
{
    lemma_encode_drop_first(s);
    if n == 1 {
        assert(s.skip(1) =~= s.drop_first());
    } else {
        lemma_encode_skip(s.drop_first(), n - 1);
        assert(s.drop_first().skip(n - 1) =~= s.skip(n));
    }
}

/// What is pending after `texts` have arrived, and the signal that each of them gave.
pub open spec fn watch_run(texts: Seq<Seq<char>>) -> (Seq<char>, Seq<bool>)
    decreases texts.len(),
{
    if texts.len() == 0 {
        (Seq::empty(), Seq::empty())
    } else {
        let (pending, signals) = watch_run(texts.drop_last());
        let (after, signal) = watch_step(pending, texts.last());
        (after, signals.push(signal))
    }
}

/// All text since the last signal, and the signals, of a watcher that forgets nothing in between.
pub open spec fn untrimmed_run(texts: Seq<Seq<char>>) -> (Seq<char>, Seq<bool>)
    decreases texts.len(),
{
    if texts.len() == 0 {
        (Seq::empty(), Seq::empty())
    } else {
        let (since, signals) = untrimmed_run(texts.drop_last());
        let seen = since + texts.last();
        if has_prompt(seen) {
            (Seq::empty(), signals.push(true))
        } else {
            (seen, signals.push(false))
        }
    }
}

/// Bounding the buffer loses no turn prompt, however the stream is cut into chunks: the watcher
/// signals exactly where one that keeps all text since the last signal does.
pub proof fn trimming_loses_no_prompt(texts: Seq<Seq<char>>)
    ensures
        watch_run(texts).1 == untrimmed_run(texts).1,
{
    lemma_runs_agree(texts);
}

proof fn lemma_runs_agree(texts: Seq<Seq<char>>)
    ensures
        watch_run(texts).1 == untrimmed_run(texts).1,
        is_live_end(watch_run(texts).0, untrimmed_run(texts).0),
    decreases texts.len(),
{
    if texts.len() == 0 {
        assert(Seq::<char>::empty().skip(0) =~= Seq::empty());
        assert(forall|i: int| !prompt_at(Seq::empty(), i));
    } else {
        lemma_runs_agree(texts.drop_last());
        let pending = watch_run(texts.drop_last()).0;
        let since = untrimmed_run(texts.drop_last()).0;
        let text = texts.last();
        lemma_prompt_at_the_end(pending, since, text);
        lemma_kept_tail(pending + text);
        assert(Seq::<char>::empty().skip(0) =~= Seq::empty());
        assert(forall|i: int| !prompt_at(Seq::empty(), i));
        if !has_prompt(since + text) {
            let seen = since + text;
            let kept = watch_run(texts).0;
            let cut = since.len() - pending.len();
            assert(pending + text =~= seen.skip(cut));
            assert(kept =~= seen.skip(seen.len() - kept.len())) by {
                let whole = pending + text;
                if encode_utf8(whole).len() > PENDING_LIMIT {
                    assert(kept == whole.skip(whole.len() - kept.len()));
                }
            }
        }
    }
}

/// Whether `pending` is an end of `since` that can stand for it: there is no prompt in `since`,
/// and its last character is not lost.
spec fn is_live_end(pending: Seq<char>, since: Seq<char>) -> bool {
    &&& pending.len() <= since.len()
    &&& pending == since.skip(since.len() - pending.len())
    &&& since.len() > 0 ==> pending.len() > 0
    &&& !has_prompt(since)
}

/// A prompt that `text` completes is seen from a live end as well as from the whole.
proof fn lemma_prompt_at_the_end(pending: Seq<char>, since: Seq<char>, text: Seq<char>)
    requires
        is_live_end(pending, since),
    ensures
        has_prompt(pending + text) == has_prompt(since + text),
{
    let cut = since.len() - pending.len();
    assert(pending + text =~= (since + text).skip(cut));
    if has_prompt(pending + text) {
        let i = choose|i: int| prompt_at(pending + text, i);
        assert(prompt_at(since + text, i + cut));
    }
    if has_prompt(since + text) {
        let i = choose|i: int| prompt_at(since + text, i);
        if i < since.len() - 1 {
            assert(prompt_at(since, i));
        }
        assert(prompt_at(pending + text, i - cut));
    }
}

// ---------------------------------------------------------------------------
// Prompts in the raw bytes
// ---------------------------------------------------------------------------

/// Whether the turn prompt stands at position `i` of `bytes`.
pub open spec fn byte_prompt_at(bytes: Seq<u8>, i: int) -> bool {
    0 <= i < bytes.len() - 1 && bytes[i] == '>' as u8 && bytes[i + 1] == ' ' as u8
}

/// Whether the turn prompt stands anywhere in `bytes`.
pub open spec fn has_byte_prompt(bytes: Seq<u8>) -> bool {
    exists|i: int| byte_prompt_at(bytes, i)
}

/// All bytes since the last signal, and the signals, where `chunks` are searched for prompts as
/// raw bytes.
pub open spec fn byte_run(chunks: Seq<Seq<u8>>) -> (Seq<u8>, Seq<bool>)
    decreases chunks.len(),
{
    if chunks.len() == 0 {
        (Seq::empty(), Seq::empty())
    } else {
        let (since, signals) = byte_run(chunks.drop_last());
        let seen = since + chunks.last();
        if has_byte_prompt(seen) {
            (Seq::empty(), signals.push(true))
        } else {
            (seen, signals.push(false))
        }
    }
}

/// The watcher signals exactly where the raw bytes of the stream hold a prompt, even where chunks
/// cut characters or prompts in two or hold invalid bytes. `texts` are the chunks as decoded.
pub proof fn signals_are_those_of_the_byte_stream(chunks: Seq<Seq<u8>>, texts: Seq<Seq<char>>)
    requires
        texts.len() == chunks.len(),
        forall|i: int| 0 <= i < chunks.len() ==> same_outline(#[trigger] chunks[i], texts[i]),
    ensures
        watch_run(texts).1 == byte_run(chunks).1,
{
    trimming_loses_no_prompt(texts);
    lemma_byte_run_agrees(chunks, texts);
}

/// A turn prompt is signalled at some chunk exactly where the stream as a whole holds one.
pub proof fn a_prompt_anywhere_is_signalled(chunks: Seq<Seq<u8>>)
    ensures
        byte_run(chunks).1.contains(true) <==> has_byte_prompt(stream(chunks)),
{
    lemma_byte_run_of_stream(chunks);
}

/// The chunks one after the other.
pub open spec fn stream(chunks: Seq<Seq<u8>>) -> Seq<u8>
    decreases chunks.len(),
{
    if chunks.len() == 0 {
        Seq::empty()
    } else {
        stream(chunks.drop_last()) + chunks.last()
    }
}

proof fn lemma_byte_run_of_stream(chunks: Seq<Seq<u8>>)
    ensures
        ({
            let (since, signals) = byte_run(chunks);
            let all = stream(chunks);
            &&& since.len() <= all.len()
            &&& since == all.skip(all.len() - since.len())
            &&& signals.contains(true) ==> has_byte_prompt(all)
            &&& !signals.contains(true) ==> since == all && !has_byte_prompt(all)
        }),
    decreases chunks.len(),
{
    let (since, signals) = byte_run(chunks);
    let all = stream(chunks);
    if chunks.len() == 0 {
        assert(since =~= all.skip(0));
        assert(forall|i: int| !byte_prompt_at(all, i));
    } else {
        lemma_byte_run_of_stream(chunks.drop_last());
        let (earlier_since, earlier) = byte_run(chunks.drop_last());
        let before = stream(chunks.drop_last());
        let chunk = chunks.last();
        let seen = earlier_since + chunk;
        let cut = before.len() - earlier_since.len();
        assert(seen =~= all.skip(cut));
        assert(signals.drop_last() =~= earlier);
        assert(signals[signals.len() - 1] == has_byte_prompt(seen));
        if has_byte_prompt(seen) {
            let i = choose|i: int| byte_prompt_at(seen, i);
            assert(byte_prompt_at(all, i + cut));
            assert(since =~= all.skip(all.len() as int));
        } else {
            assert(since =~= all.skip(all.len() - since.len()));
        }
        if earlier.contains(true) {
            let k = choose|k: int| 0 <= k < earlier.len() && earlier[k] == true;
            assert(signals[k] == true);
            let i = choose|i: int| byte_prompt_at(before, i);
            assert(byte_prompt_at(all, i));
        }
        if signals.contains(true) && !has_byte_prompt(seen) {
            let k = choose|k: int| 0 <= k < signals.len() && signals[k] == true;
            assert(earlier[k] == true);
        }
        if !signals.contains(true) {
            assert(!earlier.contains(true));
        }
    }
}

proof fn lemma_byte_run_agrees(chunks: Seq<Seq<u8>>, texts: Seq<Seq<char>>)
    requires
        texts.len() == chunks.len(),
        forall|i: int| 0 <= i < chunks.len() ==> same_outline(#[trigger] chunks[i], texts[i]),
    ensures
        untrimmed_run(texts).1 == byte_run(chunks).1,
        same_outline(byte_run(chunks).0, untrimmed_run(texts).0),
    decreases chunks.len(),
{
    assert(byte_marks(Seq::empty()) =~= char_marks(Seq::empty()));
    if chunks.len() > 0 {
        let chunk_init = chunks.drop_last();
        let text_init = texts.drop_last();
        assert forall|i: int| 0 <= i < chunk_init.len() implies same_outline(
            #[trigger] chunk_init[i],
            text_init[i],
        ) by {
            assert(same_outline(chunks[i], texts[i]));
        }
        lemma_byte_run_agrees(chunk_init, text_init);
        let bytes = byte_run(chunk_init).0;
        let text = untrimmed_run(text_init).0;
        assert(same_outline(chunks[chunks.len() - 1], texts[texts.len() - 1]));
        lemma_outlines_concat(bytes, text, chunks.last(), texts.last());
        lemma_outline_decides_prompt(bytes + chunks.last(), text + texts.last());
    }
}

/// Outlines of two pieces make the outline of the whole.
proof fn lemma_outlines_concat(a: Seq<u8>, s: Seq<char>, b: Seq<u8>, t: Seq<char>)
    requires
        same_outline(a, s),
        same_outline(b, t),
    ensures
        same_outline(a + b, s + t),
{
    assert(byte_marks(a + b) =~= byte_marks(a) + byte_marks(b));
    assert(char_marks(s + t) =~= char_marks(s) + char_marks(t));
    lemma_outline_concat(byte_marks(a), byte_marks(b));
    lemma_outline_concat(char_marks(s), char_marks(t));
}

/// Two outlines one after the other, with a run that goes over the seam shortened to one.
spec fn glued(a: Seq<u8>, b: Seq<u8>) -> Seq<u8> {
    if a.len() > 0 && b.len() > 0 && a.last() == NON_ASCII && b[0] == NON_ASCII {
        a + b.skip(1)
    } else {
        a + b
    }
}

proof fn lemma_outline_concat(a: Seq<u8>, b: Seq<u8>)
    ensures
        outline(a + b) == glued(outline(a), outline(b)),
    decreases b.len(),
{
    if b.len() == 0 {
        assert(a + b =~= a);
        assert(glued(outline(a), outline(b)) =~= outline(a));
    } else {
        let init = b.drop_last();
        let m = b.last();
        lemma_outline_concat(a, init);
        assert((a + b).drop_last() =~= a + init);
        lemma_outline_last(init);
        lemma_outline_last(b);
        let x = outline(a);
        let y = outline(init);
        let before = glued(x, y);
        if init.len() == 0 {
            assert(y =~= Seq::empty());
            assert(before =~= x);
            assert(outline(b) =~= seq![m]);
            assert(glued(x, seq![m]) =~= outline(a + b));
        } else {
            assert(before.len() > 0 && before.last() == y.last());
            assert(glued(x, y.push(m)) =~= before.push(m));
        }
    }
}

/// An outline ends as what it outlines, and is empty only where that is.
proof fn lemma_outline_last(marks: Seq<u8>)
    ensures
        outline(marks).len() == 0 <==> marks.len() == 0,
        marks.len() > 0 ==> outline(marks).last() == marks.last(),
    decreases marks.len(),
{
    if marks.len() > 0 {
        lemma_outline_last(marks.drop_last());
    }
}

/// A prompt can be seen in the outline.
proof fn lemma_outline_keeps_prompt(marks: Seq<u8>)
    ensures
        has_byte_prompt(marks) <==> has_byte_prompt(outline(marks)),
    decreases marks.len(),
{
    if marks.len() == 0 {
        assert(forall|i: int| !byte_prompt_at(marks, i));
    } else {
        let init = marks.drop_last();
        let n = marks.len() as int;
        lemma_outline_keeps_prompt(init);
        lemma_outline_last(init);
        let before = outline(init);
        let after = outline(marks);
        let k = before.len() as int;
        if has_byte_prompt(init) {
            let i = choose|i: int| byte_prompt_at(init, i);
            assert(byte_prompt_at(marks, i));
            let j = choose|j: int| byte_prompt_at(before, j);
            assert(byte_prompt_at(after, j));
        } else {
            if has_byte_prompt(marks) {
                let i = choose|i: int| byte_prompt_at(marks, i);
                if i < n - 2 {
                    assert(byte_prompt_at(init, i));
                }
                assert(init[n - 2] == marks[n - 2] && before.last() == init.last());
                assert(byte_prompt_at(after, k - 1));
            }
            if has_byte_prompt(after) {
                let j = choose|j: int| byte_prompt_at(after, j);
                if j < k - 1 {
                    assert(byte_prompt_at(before, j));
                }
                assert(after.len() == k + 1 && j == k - 1);
                assert(init.last() == before.last());
                assert(byte_prompt_at(marks, n - 2));
            }
        }
    }
}

/// A character is known by its code point.
proof fn lemma_ascii_mark(c: char)
    ensures
        (c as u32) < NON_ASCII && c as u8 == '>' as u8 ==> c == '>',
        (c as u32) < NON_ASCII && c as u8 == ' ' as u8 ==> c == ' ',
{
}

/// Bytes and text of the same outline hold a prompt or hold none together.
proof fn lemma_outline_decides_prompt(bytes: Seq<u8>, text: Seq<char>)
    requires
        same_outline(bytes, text),
    ensures
        has_byte_prompt(bytes) <==> has_prompt(text),
{
    lemma_outline_keeps_prompt(byte_marks(bytes));
    lemma_outline_keeps_prompt(char_marks(text));
    if has_byte_prompt(bytes) {
        let i = choose|i: int| byte_prompt_at(bytes, i);
        assert(byte_prompt_at(byte_marks(bytes), i));
    }
    if has_byte_prompt(byte_marks(bytes)) {
        let i = choose|i: int| byte_prompt_at(byte_marks(bytes), i);
        assert(byte_prompt_at(bytes, i));
    }
    if has_prompt(text) {
        let i = choose|i: int| prompt_at(text, i);
        assert(byte_prompt_at(char_marks(text), i));
    }
    if has_byte_prompt(char_marks(text)) {
        let i = choose|i: int| byte_prompt_at(char_marks(text), i);
        lemma_ascii_mark(text[i]);
        lemma_ascii_mark(text[i + 1]);
        assert(prompt_at(text, i));
    }
}

// ---------------------------------------------------------------------------
// What one step does
// ---------------------------------------------------------------------------

/// There is a prompt in a text exactly where a `>` is followed by a space.
pub proof fn prompts_are_angles_before_spaces(before: Seq<char>, after: Seq<char>, s: Seq<char>)
    ensures
        has_prompt(before + seq!['>', ' '] + after),
        has_prompt(s) <==> exists|k: int|
            0 <= k < s.len() - 1 && #[trigger] s.subrange(k, k + 2) == seq!['>', ' '],
{
    assert(prompt_at(before + seq!['>', ' '] + after, before.len() as int));
    if has_prompt(s) {
        let k = choose|k: int| prompt_at(s, k);
        assert(s.subrange(k, k + 2) =~= seq!['>', ' ']);
    }
    if exists|k: int| 0 <= k < s.len() - 1 && #[trigger] s.subrange(k, k + 2) == seq!['>', ' '] {
        let k = choose|k: int|
            0 <= k < s.len() - 1 && #[trigger] s.subrange(k, k + 2) == seq!['>', ' '];
        let pair = s.subrange(k, k + 2);
        assert(pair[0] == s[k] && pair[1] == s[k + 1]);
        assert(prompt_at(s, k));
    }
}

/// The watcher signals exactly where what was pending and what arrives hold a prompt together, and
/// forgets both then. Otherwise it keeps everything up to 4096 bytes, and beyond that as many
/// characters from the end as take no more than 256 bytes.
pub proof fn watching_keeps_what_may_matter(pending: Seq<char>, text: Seq<char>)
    ensures
        ({
            let seen = pending + text;
            let (kept, signal) = watch_step(pending, text);
            &&& signal <==> exists|k: int|
                0 <= k < seen.len() - 1 && #[trigger] seen.subrange(k, k + 2) == seq!['>', ' ']
            &&& signal ==> kept.len() == 0
            &&& !signal && encode_utf8(seen).len() <= 4096 ==> kept == seen
            &&& !signal && encode_utf8(seen).len() > 4096 ==> {
                &&& kept.len() <= seen.len()
                &&& kept == seen.skip(seen.len() - kept.len())
                &&& encode_utf8(kept).len() <= 256
                &&& forall|k: int|
                    0 <= k < seen.len() - kept.len() ==> encode_utf8(#[trigger] seen.skip(k)).len()
                        > 256
            }
        }),
{
    let seen = pending + text;
    prompts_are_angles_before_spaces(Seq::empty(), Seq::empty(), seen);
    lemma_kept_tail(seen);
    lemma_kept_tail_is_longest(seen);
}

proof fn lemma_kept_tail_is_longest(s: Seq<char>)
    ensures
        forall|k: int|
            0 <= k < s.len() - kept_tail(s).len() ==> encode_utf8(#[trigger] s.skip(k)).len()
                > PENDING_TAIL,
    decreases s.len(),
{
    if s.len() > 0 && encode_utf8(s).len() > PENDING_TAIL {
        let rest = s.drop_first();
        lemma_kept_tail_is_longest(rest);
        assert forall|k: int| 0 <= k < s.len() - kept_tail(s).len() implies encode_utf8(
            #[trigger] s.skip(k),
        ).len() > PENDING_TAIL by {
            if k == 0 {
                assert(s.skip(0) =~= s);
            } else {
                assert(s.skip(k) =~= rest.skip(k - 1));
            }
        }
    }
}

} // verus!
