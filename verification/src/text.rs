//! Text as sequences of characters: white space, lines, joining, decimal numbers.
use vstd::prelude::*;
use vstd::string::StringExecFns;

verus! {

// ---------------------------------------------------------------------------
// What the text operations mean
// ---------------------------------------------------------------------------

/// Whether `c` has the Unicode property `White_Space`.
pub open spec fn is_white_space(c: char) -> bool {
    ||| '\u{9}' <= c <= '\u{d}'
    ||| c == '\u{20}'
    ||| c == '\u{85}'
    ||| c == '\u{a0}'
    ||| c == '\u{1680}'
    ||| '\u{2000}' <= c <= '\u{200a}'
    ||| c == '\u{2028}'
    ||| c == '\u{2029}'
    ||| c == '\u{202f}'
    ||| c == '\u{205f}'
    ||| c == '\u{3000}'
}

/// Whether `s` holds nothing but white space.
pub open spec fn is_blank(s: Seq<char>) -> bool {
    forall|i: int| 0 <= i < s.len() ==> is_white_space(#[trigger] s[i])
}

/// `s` without its leading white space.
pub open spec fn trim_start(s: Seq<char>) -> Seq<char>
    decreases s.len(),
{
    if s.len() > 0 && is_white_space(s[0]) {
        trim_start(s.drop_first())
    } else {
        s
    }
}

/// `s` without its trailing white space.
pub open spec fn trim_end(s: Seq<char>) -> Seq<char>
    decreases s.len(),
{
    if s.len() > 0 && is_white_space(s.last()) {
        trim_end(s.drop_last())
    } else {
        s
    }
}

/// `s` without white space at either end.
pub open spec fn trim(s: Seq<char>) -> Seq<char> {
    trim_end(trim_start(s))
}

/// `s` with every line feed turned into a space.
pub open spec fn one_line(s: Seq<char>) -> Seq<char> {
    s.map_values(|c: char| if c == '\n' { ' ' } else { c })
}

/// Whether `s` holds no line feed.
pub open spec fn is_single_line(s: Seq<char>) -> bool {
    forall|i: int| 0 <= i < s.len() ==> #[trigger] s[i] != '\n'
}

/// `parts` one after the other, with `sep` between neighbours.
pub open spec fn joined(parts: Seq<Seq<char>>, sep: Seq<char>) -> Seq<char>
    decreases parts.len(),
{
    if parts.len() <= 1 {
        if parts.len() == 0 { Seq::empty() } else { parts[0] }
    } else {
        joined(parts.drop_last(), sep) + (sep + parts.last())
    }
}

/// Whether a word (a maximal run without white space) begins at position `i` of `s`.
pub open spec fn word_begins(s: Seq<char>, i: int) -> bool {
    !is_white_space(s[i]) && (i == 0 || is_white_space(s[i - 1]))
}

/// The number of words in `s`.
pub open spec fn word_count(s: Seq<char>) -> nat
    decreases s.len(),
{
    if s.len() == 0 {
        0
    } else {
        word_count(s.drop_last()) + (if word_begins(s, s.len() - 1) { 1nat } else { 0nat })
    }
}

/// Whether `c` is an ASCII decimal digit.
pub open spec fn is_digit(c: char) -> bool {
    '0' <= c <= '9'
}

/// The number that the decimal digits `s` write down, most significant first.
pub open spec fn digits_value(s: Seq<char>) -> nat
    decreases s.len(),
{
    if s.len() == 0 {
        0
    } else {
        10 * digits_value(s.drop_last()) + (s.last() as nat - '0' as nat) as nat
    }
}

/// Whether `s` is one or more decimal digits.
pub open spec fn is_digits(s: Seq<char>) -> bool {
    s.len() > 0 && forall|i: int| 0 <= i < s.len() ==> is_digit(#[trigger] s[i])
}

/// `s` without a leading `+`.
pub open spec fn unsigned(s: Seq<char>) -> Seq<char> {
    if s.len() > 0 && s[0] == '+' { s.skip(1) } else { s }
}

/// The `u64` that `s` writes down: an optional `+`, then one or more decimal digits, and nothing
/// else. `None` for any other text and for numbers that are too large.
pub open spec fn parsed_u64(s: Seq<char>) -> Option<u64> {
    if is_digits(unsigned(s)) && digits_value(unsigned(s)) <= u64::MAX {
        Some(digits_value(unsigned(s)) as u64)
    } else {
        None
    }
}

/// `n` in decimal, without leading zeros.
pub open spec fn decimal(n: nat) -> Seq<char>
    decreases n,
{
    let digit = ('0' as nat + n % 10) as char;
    if n < 10 {
        seq![digit]
    } else {
        decimal(n / 10).push(digit)
    }
}

// ---------------------------------------------------------------------------
// Strings and characters
// ---------------------------------------------------------------------------

/// [`String::push`] appends one character to the end of the string.
pub assume_specification[ String::push ](s: &mut String, c: char)
    ensures
        final(s)@ == old(s)@.push(c),
;

/// The characters of `s`, in order.
pub fn chars_of(s: &str) -> (out: Vec<char>)
    ensures
        out@ == s@,
{
    let mut out: Vec<char> = Vec::new();
    for c in it: s.chars()
        invariant
            it.seq() == s@,
            out@ == s@.take(it.index()),
    {
        proof {
            assert(s@.take(it.index() + 1) =~= s@.take(it.index()).push(c));
        }
        out.push(c);
    }
    assert(s@.take(s@.len() as int) =~= s@);
    out
}

/// The string that holds `chars[from..to]`.
pub fn string_of(chars: &Vec<char>, from: usize, to: usize) -> (out: String)
    requires
        from <= to <= chars@.len(),
    ensures
        out@ == chars@.subrange(from as int, to as int),
{
    let mut out = String::new();
    for i in from..to
        invariant
            from <= to <= chars@.len(),
            out@ == chars@.subrange(from as int, i as int),
    {
        proof {
            assert(chars@.subrange(from as int, i + 1) =~= chars@.subrange(from as int, i as int).push(
                chars@[i as int],
            ));
        }
        out.push(chars[i]);
    }
    out
}

/// Whether `a` and `b` hold the same text.
pub fn same_text(a: &str, b: &str) -> (same: bool)
    ensures
        same == (a@ == b@),
{
    let left = chars_of(a);
    let right = chars_of(b);
    if left.len() != right.len() {
        return false;
    }
    for i in 0..left.len()
        invariant
            left@ == a@,
            right@ == b@,
            left@.len() == right@.len(),
            forall|j: int| 0 <= j < i ==> left@[j] == right@[j],
    {
        if left[i] != right[i] {
            return false;
        }
    }
    assert(left@ =~= right@);
    true
}

/// Whether `c` is white space, as [`char::is_whitespace`] has it.
pub fn white_space(c: char) -> (yes: bool)
    ensures
        yes == is_white_space(c),
{
    ('\u{9}' <= c && c <= '\u{d}') || c == '\u{20}' || c == '\u{85}' || c == '\u{a0}' || c
        == '\u{1680}' || ('\u{2000}' <= c && c <= '\u{200a}') || c == '\u{2028}' || c == '\u{2029}'
        || c == '\u{202f}' || c == '\u{205f}' || c == '\u{3000}'
}

// ---------------------------------------------------------------------------
// Trimming
// ---------------------------------------------------------------------------

/// Skipping `n` leading white-space characters does not change the trimmed start.
pub proof fn lemma_trim_start_skip(s: Seq<char>, n: int)
    requires
        0 <= n <= s.len(),
        forall|i: int| 0 <= i < n ==> is_white_space(#[trigger] s[i]),
    ensures
        trim_start(s) == trim_start(s.skip(n)),
    decreases n,
{
    if n == 0 {
        assert(s.skip(0) =~= s);
    } else {
        assert(is_white_space(s[0]));
        assert forall|i: int| 0 <= i < n - 1 implies is_white_space(
            #[trigger] s.drop_first()[i],
        ) by {
            assert(s.drop_first()[i] == s[i + 1]);
        }
        lemma_trim_start_skip(s.drop_first(), n - 1);
        assert(s.drop_first().skip(n - 1) =~= s.skip(n));
    }
}

/// Dropping trailing white space from position `n` on does not change the trimmed end.
proof fn lemma_trim_end_take(s: Seq<char>, n: int)
    requires
        0 <= n <= s.len(),
        forall|i: int| n <= i < s.len() ==> is_white_space(#[trigger] s[i]),
    ensures
        trim_end(s) == trim_end(s.take(n)),
    decreases s.len() - n,
{
    if n == s.len() {
        assert(s.take(n) =~= s);
    } else {
        assert(is_white_space(s[s.len() - 1]));
        lemma_trim_end_take(s.drop_last(), n);
        assert(s.drop_last().take(n) =~= s.take(n));
    }
}

/// `s` without white space at either end, as [`str::trim`] has it.
pub fn trimmed(s: &str) -> (out: String)
    ensures
        out@ == trim(s@),
{
    let chars = chars_of(s);
    let mut from: usize = 0;
    while from < chars.len() && white_space(chars[from])
        invariant
            from <= chars@.len(),
            forall|i: int| 0 <= i < from ==> is_white_space(#[trigger] chars@[i]),
        decreases chars@.len() - from,
    {
        from += 1;
    }
    let mut to: usize = chars.len();
    while to > from && white_space(chars[to - 1])
        invariant
            from <= to <= chars@.len(),
            forall|i: int| to <= i < chars@.len() ==> is_white_space(#[trigger] chars@[i]),
        decreases to,
    {
        to -= 1;
    }
    proof {
        let rest = chars@.skip(from as int);
        lemma_trim_start_skip(chars@, from as int);
        if rest.len() > 0 {
            assert(rest[0] == chars@[from as int]);
        }
        assert(trim_start(chars@) == rest);
        assert forall|i: int| to - from <= i < rest.len() implies is_white_space(
            #[trigger] rest[i],
        ) by {
            assert(rest[i] == chars@[i + from]);
        }
        lemma_trim_end_take(rest, to - from);
        let middle = rest.take(to - from);
        assert(middle =~= chars@.subrange(from as int, to as int));
        if middle.len() > 0 {
            assert(middle.last() == chars@[to - 1]);
        }
        assert(trim_end(middle) == middle);
    }
    string_of(&chars, from, to)
}

/// What is left of a text after trimming is empty exactly where the text is blank.
pub proof fn trimming_empties_blank_text_only(s: Seq<char>)
    ensures
        trim(s).len() == 0 <==> is_blank(s),
{
    lemma_trim_start_parts(s);
    let rest = trim_start(s);
    lemma_trim_end_parts(rest);
    let k = s.len() - rest.len();
    if is_blank(s) {
        if rest.len() > 0 {
            assert(rest[0] == s[k]);
        }
    } else {
        let i = choose|i: int| 0 <= i < s.len() && !is_white_space(#[trigger] s[i]);
        assert(i >= k);
        assert(rest[i - k] == s[i]);
    }
}

/// Trimming the start removes white space only, and stops at the first other character.
pub proof fn lemma_trim_start_parts(s: Seq<char>)
    ensures
        trim_start(s).len() <= s.len(),
        trim_start(s) == s.skip(s.len() - trim_start(s).len()),
        forall|i: int| 0 <= i < s.len() - trim_start(s).len() ==> is_white_space(#[trigger] s[i]),
        trim_start(s).len() > 0 ==> !is_white_space(trim_start(s)[0]),
    decreases s.len(),
{
    if s.len() > 0 && is_white_space(s[0]) {
        let rest = s.drop_first();
        lemma_trim_start_parts(rest);
        assert(s.skip(s.len() - trim_start(s).len()) =~= rest.skip(
            rest.len() - trim_start(rest).len(),
        ));
        assert forall|i: int| 0 <= i < s.len() - trim_start(s).len() implies is_white_space(
            #[trigger] s[i],
        ) by {
            if i > 0 {
                assert(rest[i - 1] == s[i]);
            }
        }
    } else {
        assert(s.skip(0) =~= s);
    }
}

/// Trimming the end removes white space only, and stops at the last other character.
pub proof fn lemma_trim_end_parts(s: Seq<char>)
    ensures
        trim_end(s).len() <= s.len(),
        trim_end(s) == s.take(trim_end(s).len() as int),
        forall|i: int| trim_end(s).len() <= i < s.len() ==> is_white_space(#[trigger] s[i]),
        trim_end(s).len() > 0 ==> !is_white_space(trim_end(s).last()),
    decreases s.len(),
{
    if s.len() > 0 && is_white_space(s.last()) {
        let rest = s.drop_last();
        lemma_trim_end_parts(rest);
        assert(s.take(trim_end(s).len() as int) =~= rest.take(trim_end(rest).len() as int));
        assert forall|i: int| trim_end(s).len() <= i < s.len() implies is_white_space(
            #[trigger] s[i],
        ) by {
            if i < s.len() - 1 {
                assert(rest[i] == s[i]);
            }
        }
    } else {
        assert(s.take(s.len() as int) =~= s);
    }
}

/// Text that neither begins nor ends in white space is left as it is.
pub proof fn tight_text_is_not_trimmed(s: Seq<char>)
    requires
        s.len() > 0 ==> !is_white_space(s[0]) && !is_white_space(s.last()),
    ensures
        trim(s) == s,
{
}

/// Trimming undoes padding: a trimmed text with white space put around it is trimmed back to
/// itself.
pub proof fn trimming_undoes_padding(before: Seq<char>, s: Seq<char>, after: Seq<char>)
    requires
        is_blank(before),
        is_blank(after),
        trim(s) == s,
    ensures
        trim(before + s + after) == s,
{
    let padded = before + s + after;
    let n = before.len() as int;
    assert forall|i: int| 0 <= i < n implies is_white_space(#[trigger] padded[i]) by {
        assert(padded[i] == before[i]);
    }
    lemma_trim_start_skip(padded, n);
    let rest = padded.skip(n);
    assert(rest =~= s + after);
    lemma_trim_start_parts(s);
    lemma_trim_end_parts(trim_start(s));
    if s.len() == 0 {
        assert(rest =~= after);
        trimming_empties_blank_text_only(after);
        lemma_trim_start_skip(after, after.len() as int);
        assert(after.skip(after.len() as int) =~= s);
        assert(trim(padded) == trim(after));
        assert(trim(after) =~= s);
    } else {
        assert(trim_start(s) =~= s);
        assert(rest[0] == s[0]);
        assert(trim_start(rest) == rest);
        assert forall|i: int| s.len() <= i < rest.len() implies is_white_space(
            #[trigger] rest[i],
        ) by {
            assert(rest[i] == after[i - s.len()]);
        }
        lemma_trim_end_take(rest, s.len() as int);
        assert(rest.take(s.len() as int) =~= s);
    }
}

// ---------------------------------------------------------------------------
// Lines, words, joining
// ---------------------------------------------------------------------------

/// Whether `s` is empty or white space throughout.
pub fn blank(s: &str) -> (yes: bool)
    ensures
        yes == is_blank(s@),
{
    let chars = chars_of(s);
    for i in 0..chars.len()
        invariant
            chars@ == s@,
            forall|j: int| 0 <= j < i ==> is_white_space(#[trigger] chars@[j]),
    {
        if !white_space(chars[i]) {
            return false;
        }
    }
    true
}

/// `s` with every line feed turned into a space.
pub fn to_one_line(s: &str) -> (out: String)
    ensures
        out@ == one_line(s@),
{
    let chars = chars_of(s);
    let mut out = String::new();
    for i in 0..chars.len()
        invariant
            chars@ == s@,
            out@ == one_line(s@).take(i as int),
    {
        let c = if chars[i] == '\n' { ' ' } else { chars[i] };
        proof {
            assert(one_line(s@).take(i + 1) =~= one_line(s@).take(i as int).push(c));
        }
        out.push(c);
    }
    assert(one_line(s@).take(s@.len() as int) =~= one_line(s@));
    out
}

/// The texts of a list of strings.
pub open spec fn texts(list: Seq<String>) -> Seq<Seq<char>> {
    list.map_values(|s: String| s@)
}

/// The strings of `parts` one after the other, with `sep` between neighbours.
pub fn join(parts: &Vec<String>, sep: &str) -> (out: String)
    ensures
        out@ == joined(texts(parts@), sep@),
{
    let mut out = String::new();
    for i in 0..parts.len()
        invariant
            out@ == joined(texts(parts@).take(i as int), sep@),
    {
        let ghost done = texts(parts@).take(i as int);
        let ghost more = texts(parts@).take(i + 1);
        proof {
            assert(more.drop_last() =~= done);
            assert(more.last() == parts@[i as int]@);
        }
        if i > 0 {
            out.append(sep);
        }
        out.append(parts[i].as_str());
        assert(out@ =~= joined(more, sep@));
    }
    assert(texts(parts@).take(parts@.len() as int) =~= texts(parts@));
    out
}

/// The number of words in `s`, as [`str::split_whitespace`] finds them.
pub fn count_words(s: &str) -> (count: usize)
    ensures
        count == word_count(s@),
{
    let chars = chars_of(s);
    let mut count: usize = 0;
    for i in 0..chars.len()
        invariant
            chars@ == s@,
            count <= i,
            count == word_count(s@.take(i as int)),
    {
        proof {
            let more = s@.take(i + 1);
            assert(more.drop_last() =~= s@.take(i as int));
        }
        if !white_space(chars[i]) && (i == 0 || white_space(chars[i - 1])) {
            count += 1;
        }
    }
    assert(s@.take(s@.len() as int) =~= s@);
    count
}

/// Words do not run over white space: where `a` ends in white space, the words of `a + b` are
/// those of `a` and those of `b`.
pub proof fn words_do_not_cross_white_space(a: Seq<char>, b: Seq<char>)
    requires
        a.len() == 0 || is_white_space(a.last()),
    ensures
        word_count(a + b) == word_count(a) + word_count(b),
    decreases b.len(),
{
    if b.len() == 0 {
        assert(a + b =~= a);
    } else {
        words_do_not_cross_white_space(a, b.drop_last());
        assert((a + b).drop_last() =~= a + b.drop_last());
        assert((a + b).last() == b.last());
    }
}

// ---------------------------------------------------------------------------
// Decimal numbers
// ---------------------------------------------------------------------------

/// Reads a `u64` in decimal, as its `FromStr` does.
pub fn parse_u64(s: &str) -> (number: Option<u64>)
    ensures
        number == parsed_u64(s@),
{
    let chars = chars_of(s);
    let from: usize = if chars.len() > 0 && chars[0] == '+' { 1 } else { 0 };
    let ghost digits = unsigned(s@);
    proof {
        assert(digits =~= s@.skip(from as int));
    }
    if chars.len() == from {
        return None;
    }
    let mut value: u64 = 0;
    for i in from..chars.len()
        invariant
            chars@ == s@,
            from <= 1,
            from < chars@.len(),
            digits == unsigned(s@),
            digits == s@.skip(from as int),
            forall|j: int| 0 <= j < i - from ==> is_digit(#[trigger] digits[j]),
            value == digits_value(digits.take(i - from)),
    {
        let c = chars[i];
        let ghost k = i - from;
        assert(digits[k] == c);
        if !('0' <= c && c <= '9') {
            return None;
        }
        let digit: u64 = (c as u32 - '0' as u32) as u64;
        proof {
            let more = digits.take(k + 1);
            assert(more.drop_last() =~= digits.take(k));
            assert(more.last() == c);
            assert(digits_value(more) == 10 * value + digit);
            lemma_digits_value_grows(digits, k + 1);
        }
        if value > (u64::MAX - digit) / 10 {
            return None;
        }
        value = 10 * value + digit;
    }
    assert(digits.take(digits.len() as int) =~= digits);
    Some(value)
}

/// More digits never make a number smaller.
proof fn lemma_digits_value_grows(s: Seq<char>, n: int)
    requires
        0 <= n <= s.len(),
    ensures
        digits_value(s.take(n)) <= digits_value(s),
    decreases s.len() - n,
{
    if n == s.len() {
        assert(s.take(n) =~= s);
    } else {
        lemma_digits_value_grows(s.drop_last(), n);
        assert(s.drop_last().take(n) =~= s.take(n));
    }
}

/// `n` in decimal.
pub fn decimal_string(n: u64) -> (out: String)
    ensures
        out@ == decimal(n as nat),
    decreases n,
{
    let digit = ('0' as u8 + (n % 10) as u8) as char;
    let mut out = if n < 10 { String::new() } else { decimal_string(n / 10) };
    out.push(digit);
    assert(n < 10 ==> out@ =~= seq![digit]);
    out
}

/// A number written in decimal reads back as itself.
pub proof fn written_numbers_read_back(n: u64)
    ensures
        parsed_u64(decimal(n as nat)) == Some(n),
{
    lemma_decimal_digits(n as nat);
    assert(is_digit(decimal(n as nat)[0]));
}

/// `decimal(n)` is made of digits whose value is `n`.
pub proof fn lemma_decimal_digits(n: nat)
    ensures
        is_digits(decimal(n)),
        digits_value(decimal(n)) == n,
    decreases n,
{
    let digit = ('0' as nat + n % 10) as char;
    assert(is_digit(digit) && digit as nat - '0' as nat == n % 10);
    let text = decimal(n);
    if n < 10 {
        assert(text.drop_last() =~= Seq::empty());
        assert(digits_value(text.drop_last()) == 0);
    } else {
        lemma_decimal_digits(n / 10);
        assert(text.drop_last() =~= decimal(n / 10));
        assert forall|i: int| 0 <= i < text.len() implies is_digit(#[trigger] text[i]) by {
            if i < text.len() - 1 {
                assert(text[i] == decimal(n / 10)[i]);
            }
        }
    }
}

// ---------------------------------------------------------------------------
// What pins the operations down
// ---------------------------------------------------------------------------

/// Trimming takes away white space at either end, all of it, and nothing else.
pub proof fn trimming_leaves_the_core(before: Seq<char>, core: Seq<char>, after: Seq<char>)
    requires
        forall|i: int| 0 <= i < before.len() ==> is_white_space(#[trigger] before[i]),
        forall|i: int| 0 <= i < after.len() ==> is_white_space(#[trigger] after[i]),
        core.len() > 0 ==> !is_white_space(core[0]) && !is_white_space(core.last()),
    ensures
        trim(before + core + after) == core,
{
    tight_text_is_not_trimmed(core);
    trimming_undoes_padding(before, core, after);
}

/// Every text is white space, a core that neither begins nor ends in white space, and white space.
pub proof fn every_text_has_a_core(s: Seq<char>) -> (parts: (Seq<char>, Seq<char>, Seq<char>))
    ensures
        s == parts.0 + parts.1 + parts.2,
        forall|i: int| 0 <= i < parts.0.len() ==> is_white_space(#[trigger] parts.0[i]),
        forall|i: int| 0 <= i < parts.2.len() ==> is_white_space(#[trigger] parts.2[i]),
        parts.1.len() > 0 ==> !is_white_space(parts.1[0]) && !is_white_space(parts.1.last()),
        trim(s) == parts.1,
{
    let rest = trim_start(s);
    let core = trim_end(rest);
    lemma_trim_start_parts(s);
    lemma_trim_end_parts(rest);
    let before = s.take(s.len() - rest.len());
    let after = rest.skip(core.len() as int);
    assert(s =~= before + core + after);
    assert forall|i: int| 0 <= i < after.len() implies is_white_space(#[trigger] after[i]) by {
        assert(after[i] == rest[i + core.len()]);
    }
    (before, core, after)
}

/// White space put around a text does not change what trimming leaves of it.
pub proof fn padding_is_trimmed_away(before: Seq<char>, s: Seq<char>, after: Seq<char>)
    requires
        is_blank(before),
        is_blank(after),
    ensures
        trim(before + s + after) == trim(s),
{
    let (left, core, right) = every_text_has_a_core(s);
    assert(before + s + after =~= (before + left) + core + (right + after));
    trimming_leaves_the_core(before + left, core, right + after);
}

/// Blank text is text without any character but white space.
pub proof fn blank_text_is_white_space(s: Seq<char>)
    ensures
        is_blank(s) <==> !exists|i: int| 0 <= i < s.len() && !is_white_space(#[trigger] s[i]),
{
}

/// Turning line feeds into spaces changes nothing else.
pub proof fn line_feeds_become_spaces(s: Seq<char>)
    ensures
        one_line(s).len() == s.len(),
        forall|i: int| 0 <= i < s.len() && s[i] == '\n' ==> #[trigger] one_line(s)[i] == ' ',
        forall|i: int| 0 <= i < s.len() && s[i] != '\n' ==> #[trigger] one_line(s)[i] == s[i],
        !one_line(s).contains('\n'),
{
}

/// A text is a single line exactly where it holds no line feed.
pub proof fn single_lines_hold_no_line_feed(s: Seq<char>)
    ensures
        is_single_line(s) <==> !s.contains('\n'),
{
}

/// Joining nothing gives nothing, and a single text stays as it is.
pub proof fn joining_none_or_one(text: Seq<char>, sep: Seq<char>)
    ensures
        joined(Seq::empty(), sep) == Seq::<char>::empty(),
        joined(seq![text], sep) == text,
{
}

/// Joining two runs of texts puts the separator between what each run joins to.
pub proof fn joining_two_runs(first: Seq<Seq<char>>, second: Seq<Seq<char>>, sep: Seq<char>)
    requires
        first.len() > 0,
        second.len() > 0,
    ensures
        joined(first + second, sep) == joined(first, sep) + sep + joined(second, sep),
    decreases second.len(),
{
    assert((first + second).drop_last() =~= first + second.drop_last());
    assert((first + second).last() == second.last());
    if second.len() == 1 {
        assert(first + second.drop_last() =~= first);
        assert(joined(first, sep) + (sep + second.last()) =~= joined(first, sep) + sep
            + second.last());
    } else {
        joining_two_runs(first, second.drop_last(), sep);
        let middle = joined(second.drop_last(), sep);
        assert((joined(first, sep) + sep + middle) + (sep + second.last()) =~= joined(first, sep)
            + sep + (middle + (sep + second.last())));
    }
}

/// The texts of a list are those of its strings, one for one.
pub proof fn texts_are_those_of_the_strings(list: Seq<String>)
    ensures
        texts(list).len() == list.len(),
        forall|i: int| 0 <= i < list.len() ==> #[trigger] texts(list)[i] == list[i]@,
{
}

/// White space alone has no words.
pub proof fn white_space_has_no_words(s: Seq<char>)
    requires
        forall|i: int| 0 <= i < s.len() ==> is_white_space(#[trigger] s[i]),
    ensures
        word_count(s) == 0,
    decreases s.len(),
{
    if s.len() > 0 {
        let init = s.drop_last();
        assert forall|i: int| 0 <= i < init.len() implies is_white_space(#[trigger] init[i]) by {
            assert(init[i] == s[i]);
        }
        white_space_has_no_words(init);
        assert(is_white_space(s[s.len() - 1]));
    }
}

/// Characters without white space between them are one word, however many they are.
pub proof fn unbroken_text_is_one_word(s: Seq<char>)
    requires
        s.len() > 0,
        forall|i: int| 0 <= i < s.len() ==> !is_white_space(#[trigger] s[i]),
    ensures
        word_count(s) == 1,
    decreases s.len(),
{
    assert(!is_white_space(s[s.len() - 1]));
    let init = s.drop_last();
    if s.len() == 1 {
        assert(word_count(init) == 0);
    } else {
        assert(!is_white_space(s[s.len() - 2]));
        assert forall|i: int| 0 <= i < init.len() implies !is_white_space(#[trigger] init[i]) by {
            assert(init[i] == s[i]);
        }
        unbroken_text_is_one_word(init);
    }
}

/// Where two texts meet at white space, on either side, their words add up.
pub proof fn words_add_up_at_white_space(a: Seq<char>, b: Seq<char>)
    requires
        (a.len() > 0 && is_white_space(a.last())) || (b.len() > 0 && is_white_space(b[0])),
    ensures
        word_count(a + b) == word_count(a) + word_count(b),
    decreases b.len(),
{
    if a.len() > 0 && is_white_space(a.last()) {
        words_do_not_cross_white_space(a, b);
    } else {
        let init = b.drop_last();
        assert((a + b).drop_last() =~= a + init);
        assert((a + b).last() == b.last());
        if b.len() == 1 {
            assert(a + init =~= a);
            assert(word_count(init) == 0);
        } else {
            words_add_up_at_white_space(a, init);
            assert((a + b)[a.len() + b.len() - 2] == b[b.len() - 2]);
        }
    }
}

/// A digit by itself reads as its own value.
pub proof fn single_digits_are_read(c: char)
    requires
        '0' <= c <= '9',
    ensures
        parsed_u64(seq![c]) == Some((c as u64 - '0' as u64) as u64),
{
    let s = seq![c];
    assert(s.drop_last() =~= Seq::empty());
    assert(digits_value(s.drop_last()) == 0);
    assert(is_digits(s));
}

/// One more digit makes ten times the number, and the digit, as long as that fits.
pub proof fn digits_are_read_in_order(s: Seq<char>, c: char)
    requires
        s.len() > 0,
        forall|i: int| 0 <= i < s.len() ==> '0' <= #[trigger] s[i] <= '9',
        '0' <= c <= '9',
    ensures
        match parsed_u64(s) {
            Some(n) => {
                let more = 10 * n + (c as int - '0' as int);
                parsed_u64(s.push(c)) == if more <= u64::MAX {
                    Some(more as u64)
                } else {
                    None
                }
            },
            None => parsed_u64(s.push(c)) is None,
        },
{
    assert(s[0] != '+' && s.push(c)[0] == s[0]);
    assert(is_digits(s));
    assert(s.push(c).drop_last() =~= s);
    assert forall|i: int| 0 <= i < s.push(c).len() implies is_digit(#[trigger] s.push(c)[i]) by {
        if i < s.len() {
            assert(s.push(c)[i] == s[i]);
        }
    }
    assert(digits_value(s.push(c)) == 10 * digits_value(s) + (c as nat - '0' as nat) as nat);
}

/// A plus sign before the digits changes nothing.
pub proof fn plus_signs_do_not_matter(s: Seq<char>)
    requires
        s.len() > 0,
        forall|i: int| 0 <= i < s.len() ==> '0' <= #[trigger] s[i] <= '9',
    ensures
        parsed_u64(seq!['+'] + s) == parsed_u64(s),
{
    assert((seq!['+'] + s).skip(1) =~= s);
    assert(s[0] != '+');
}

/// Nothing is read as a number but digits, with or without a plus sign before them.
pub proof fn only_digits_are_read(s: Seq<char>)
    requires
        parsed_u64(s) is Some,
    ensures
        s.len() > 0,
        s[0] == '+' || '0' <= s[0] <= '9',
        s[0] == '+' ==> s.len() > 1,
        forall|i: int| 1 <= i < s.len() ==> '0' <= #[trigger] s[i] <= '9',
{
    let digits = unsigned(s);
    assert(is_digit(digits[0]));
    assert forall|i: int| 1 <= i < s.len() implies '0' <= #[trigger] s[i] <= '9' by {
        let at = i - (s.len() - digits.len());
        assert(is_digit(digits[at]));
        assert(digits[at] == s[i]);
    }
}

/// Decimal numbers are digits without leading zeros.
pub proof fn decimals_have_no_leading_zeros(n: nat)
    ensures
        decimal(n).len() > 0,
        forall|i: int| 0 <= i < decimal(n).len() ==> '0' <= #[trigger] decimal(n)[i] <= '9',
        decimal(n)[0] == '0' ==> n == 0 && decimal(n).len() == 1,
    decreases n,
{
    lemma_decimal_digits(n);
    let text = decimal(n);
    assert forall|i: int| 0 <= i < text.len() implies '0' <= #[trigger] text[i] <= '9' by {
        assert(is_digit(text[i]));
    }
    if n >= 10 {
        decimals_have_no_leading_zeros(n / 10);
        assert(text[0] == decimal(n / 10)[0]);
    } else {
        assert(text[0] as nat - '0' as nat == n);
    }
}

} // verus!
