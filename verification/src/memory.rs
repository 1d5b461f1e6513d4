//! Available memory, as `/proc/meminfo` reports it.
use crate::text::{
    chars_of, decimal, is_blank, is_digit, is_single_line, is_white_space, joined,
    lemma_decimal_digits, lemma_trim_start_skip, padding_is_trimmed_away, parse_u64, parsed_u64,
    string_of, texts, tight_text_is_not_trimmed, trim, trimmed, written_numbers_read_back,
};
use vstd::prelude::*;

verus! {

/// The lines of `s`: the texts between its line feeds.
pub open spec fn lines(s: Seq<char>) -> Seq<Seq<char>>
    decreases s.len(),
{
    if s.len() == 0 {
        seq![Seq::empty()]
    } else {
        let before = lines(s.drop_last());
        if s.last() == '\n' {
            before.push(Seq::empty())
        } else {
            before.drop_last().push(before.last().push(s.last()))
        }
    }
}

/// What stands behind the label `MemAvailable:` on the first line that begins with it.
pub open spec fn available_field(lines: Seq<Seq<char>>) -> Option<Seq<char>>
    decreases lines.len(),
{
    if lines.len() == 0 {
        None
    } else if "MemAvailable:"@.is_prefix_of(lines[0]) {
        Some(lines[0].skip("MemAvailable:"@.len() as int))
    } else {
        available_field(lines.drop_first())
    }
}

/// `s` without the unit at its end, however often it stands there.
pub open spec fn without_unit(s: Seq<char>) -> Seq<char>
    decreases s.len(),
{
    let n = s.len() as int;
    if n >= 3 && s[n - 3] == ' ' && s[n - 2] == 'k' && s[n - 1] == 'B' {
        without_unit(s.take(n - 3))
    } else {
        s
    }
}

/// The number in a field such as `"   123 kB"`, and 0 where there is none.
pub open spec fn field_kib(field: Seq<char>) -> u64 {
    match parsed_u64(without_unit(trim(field))) {
        Some(kib) => kib,
        None => 0,
    }
}

/// The available memory in KiB that the text of `/proc/meminfo` reports, and 0 where it reports
/// none.
pub open spec fn available_kib(meminfo: Seq<char>) -> u64 {
    match available_field(lines(meminfo)) {
        Some(field) => field_kib(field),
        None => 0,
    }
}

/// The lines of `s`.
pub fn split_lines(s: &str) -> (out: Vec<String>)
    ensures
        texts(out@) == lines(s@),
{
    let chars = chars_of(s);
    let mut out: Vec<String> = Vec::new();
    let mut line = String::new();
    for i in 0..chars.len()
        invariant
            chars@ == s@,
            texts(out@).push(line@) == lines(s@.take(i as int)),
    {
        let ghost before = texts(out@);
        let ghost so_far = line@;
        proof {
            assert(s@.take(i + 1).drop_last() =~= s@.take(i as int));
            assert(before.push(so_far).drop_last() =~= before);
        }
        let c = chars[i];
        if c == '\n' {
            out.push(line);
            line = String::new();
            assert(texts(out@) =~= before.push(so_far));
        } else {
            line.push(c);
        }
    }
    let ghost before = texts(out@);
    let ghost so_far = line@;
    out.push(line);
    assert(s@.take(s@.len() as int) =~= s@);
    assert(texts(out@) =~= before.push(so_far));
    out
}

/// What follows `prefix` in `s`, where `s` begins with it.
fn strip_prefix(s: &str, prefix: &str) -> (rest: Option<String>)
    ensures
        match rest {
            Some(rest) => prefix@.is_prefix_of(s@) && rest@ == s@.skip(prefix@.len() as int),
            None => !prefix@.is_prefix_of(s@),
        },
{
    let chars = chars_of(s);
    let start = chars_of(prefix);
    if chars.len() < start.len() {
        return None;
    }
    for i in 0..start.len()
        invariant
            chars@ == s@,
            start@ == prefix@,
            start@.len() <= chars@.len(),
            forall|j: int| 0 <= j < i ==> start@[j] == chars@[j],
    {
        if chars[i] != start[i] {
            assert(prefix@[i as int] != s@.subrange(0, prefix@.len() as int)[i as int]);
            return None;
        }
    }
    assert(prefix@ =~= s@.subrange(0, prefix@.len() as int));
    let rest = string_of(&chars, start.len(), chars.len());
    assert(rest@ =~= s@.skip(prefix@.len() as int));
    Some(rest)
}

/// `s` without the unit at its end.
fn strip_unit(s: &str) -> (out: String)
    ensures
        out@ == without_unit(s@),
{
    let chars = chars_of(s);
    let mut n = chars.len();
    assert(s@.take(n as int) =~= s@);
    while n >= 3 && chars[n - 3] == ' ' && chars[n - 2] == 'k' && chars[n - 1] == 'B'
        invariant
            chars@ == s@,
            n <= chars@.len(),
            without_unit(s@) == without_unit(s@.take(n as int)),
        decreases n,
    {
        assert(s@.take(n as int).take(n - 3) =~= s@.take(n - 3));
        n -= 3;
    }
    assert(s@.subrange(0, n as int) =~= s@.take(n as int));
    string_of(&chars, 0, n)
}

/// Reads the available memory in KiB from the text of `/proc/meminfo`.
pub fn parse_available_kib(meminfo: &str) -> (kib: u64)
    ensures
        kib == available_kib(meminfo@),
{
    let list = split_lines(meminfo);
    let ghost all = lines(meminfo@);
    assert(all.skip(0) =~= all);
    for i in 0..list.len()
        invariant
            texts(list@) == all,
            all == lines(meminfo@),
            available_field(all) == available_field(all.skip(i as int)),
    {
        proof {
            assert(all.skip(i as int)[0] == list@[i as int]@);
            assert(all.skip(i as int).drop_first() =~= all.skip(i + 1));
        }
        if let Some(field) = strip_prefix(list[i].as_str(), "MemAvailable:") {
            let number = strip_unit(trimmed(field.as_str()).as_str());
            return match parse_u64(number.as_str()) {
                Some(kib) => kib,
                None => 0,
            };
        }
    }
    0
}

// ---------------------------------------------------------------------------
// What is reported is what is read
// ---------------------------------------------------------------------------

/// Texts without line feeds, joined by line feeds, are the lines of the result.
pub proof fn joined_lines_split_again(list: Seq<Seq<char>>)
    requires
        list.len() > 0,
        forall|i: int| 0 <= i < list.len() ==> is_single_line(#[trigger] list[i]),
    ensures
        lines(joined(list, "\n"@)) == list,
    decreases list.len(),
{
    reveal_strlit("\n");
    let last = list[list.len() - 1];
    if list.len() == 1 {
        lemma_lines_append(Seq::empty(), last);
        assert(Seq::empty() + last =~= last);
        assert(lines(Seq::empty()) =~= seq![Seq::empty()]);
        assert(seq![Seq::<char>::empty()].drop_last().push(Seq::<char>::empty() + last) =~= list);
    } else {
        let init = list.drop_last();
        assert forall|i: int| 0 <= i < init.len() implies is_single_line(#[trigger] init[i]) by {
            assert(init[i] == list[i]);
        }
        joined_lines_split_again(init);
        let head = joined(init, "\n"@);
        assert(joined(list, "\n"@) =~= head.push('\n') + last);
        assert(head.push('\n').drop_last() =~= head);
        assert(lines(head.push('\n')) =~= init.push(Seq::empty()));
        lemma_lines_append(head.push('\n'), last);
        assert(init.push(Seq::<char>::empty()).drop_last().push(Seq::<char>::empty() + last)
            =~= list);
    }
}

/// Text without line feeds goes to the end of the last line.
proof fn lemma_lines_append(s: Seq<char>, more: Seq<char>)
    requires
        is_single_line(more),
    ensures
        lines(s).len() > 0,
        lines(s + more) == lines(s).drop_last().push(lines(s).last() + more),
    decreases more.len(),
{
    lemma_lines_nonempty(s);
    if more.len() == 0 {
        assert(s + more =~= s);
        assert(lines(s).last() + more =~= lines(s).last());
        assert(lines(s).drop_last().push(lines(s).last()) =~= lines(s));
    } else {
        lemma_lines_append(s, more.drop_last());
        assert((s + more).drop_last() =~= s + more.drop_last());
        assert(more[more.len() - 1] != '\n');
        let before = lines(s + more.drop_last());
        assert(before.drop_last() =~= lines(s).drop_last());
        assert(before.last().push(more.last()) =~= lines(s).last() + more);
    }
}

proof fn lemma_lines_nonempty(s: Seq<char>)
    ensures
        lines(s).len() > 0,
    decreases s.len(),
{
    if s.len() > 0 {
        lemma_lines_nonempty(s.drop_last());
    }
}

/// A field made of white space, a decimal number and the unit reads as that number.
pub proof fn reported_amount_reads_back(pad: Seq<char>, kib: u64)
    requires
        is_blank(pad),
    ensures
        field_kib(pad + (decimal(kib as nat) + " kB"@)) == kib,
{
    reveal_strlit(" kB");
    lemma_decimal_digits(kib as nat);
    let number = decimal(kib as nat);
    let amount = number + " kB"@;
    let field = pad + amount;
    assert forall|i: int| 0 <= i < pad.len() implies is_white_space(
        #[trigger] field[i],
    ) by {
        assert(field[i] == pad[i]);
    }
    lemma_trim_start_skip(field, pad.len() as int);
    assert(field.skip(pad.len() as int) =~= amount);
    assert(amount[0] == number[0]);
    assert(trim(field) == amount);
    assert(amount.take(amount.len() - 3) =~= number);
    assert(is_digit(number[number.len() - 1]));
    assert(without_unit(number) == number);
    assert(without_unit(amount) == number);
    written_numbers_read_back(kib);
}

/// The first line with the label decides, whatever stands around it.
pub proof fn first_labelled_line_decides(
    before: Seq<Seq<char>>,
    field: Seq<char>,
    after: Seq<Seq<char>>,
)
    requires
        forall|i: int| 0 <= i < before.len() ==> is_single_line(#[trigger] before[i]),
        forall|i: int|
            0 <= i < before.len() ==> !"MemAvailable:"@.is_prefix_of(#[trigger] before[i]),
        is_single_line(field),
        forall|i: int| 0 <= i < after.len() ==> is_single_line(#[trigger] after[i]),
    ensures
        available_kib(joined(before.push("MemAvailable:"@ + field) + after, "\n"@)) == field_kib(
            field,
        ),
{
    reveal_strlit("MemAvailable:");
    let line = "MemAvailable:"@ + field;
    let all = before.push(line) + after;
    assert(is_single_line(line));
    assert forall|i: int| 0 <= i < all.len() implies is_single_line(#[trigger] all[i]) by {
        if i < before.len() {
            assert(all[i] == before[i]);
        } else if i > before.len() {
            assert(all[i] == after[i - before.len() - 1]);
        }
    }
    joined_lines_split_again(all);
    lemma_field_found(before, line, after);
    assert("MemAvailable:"@ =~= line.subrange(0, "MemAvailable:"@.len() as int));
    assert(line.skip("MemAvailable:"@.len() as int) =~= field);
}

proof fn lemma_field_found(before: Seq<Seq<char>>, line: Seq<char>, after: Seq<Seq<char>>)
    requires
        forall|i: int|
            0 <= i < before.len() ==> !"MemAvailable:"@.is_prefix_of(#[trigger] before[i]),
        "MemAvailable:"@.is_prefix_of(line),
    ensures
        available_field(before.push(line) + after) == Some(
            line.skip("MemAvailable:"@.len() as int),
        ),
    decreases before.len(),
{
    let all = before.push(line) + after;
    if before.len() == 0 {
        assert(all[0] == line);
    } else {
        assert(all[0] == before[0]);
        let rest = before.drop_first();
        assert forall|i: int| 0 <= i < rest.len() implies !"MemAvailable:"@.is_prefix_of(
            #[trigger] rest[i],
        ) by {
            assert(rest[i] == before[i + 1]);
        }
        lemma_field_found(rest, line, after);
        assert(all.drop_first() =~= rest.push(line) + after);
    }
}

/// White space around a field does not matter.
pub proof fn padding_of_fields_does_not_matter(
    before: Seq<char>,
    field: Seq<char>,
    after: Seq<char>,
)
    requires
        is_blank(before),
        is_blank(after),
    ensures
        field_kib(before + field + after) == field_kib(field),
{
    padding_is_trimmed_away(before, field, after);
}

/// A unit behind a field that does not end in white space does not matter.
pub proof fn units_do_not_matter(field: Seq<char>)
    requires
        field.len() > 0,
        !is_white_space(field[0]),
        !is_white_space(field.last()),
    ensures
        field_kib(field + seq![' ', 'k', 'B']) == field_kib(field),
{
    let amount = field + seq![' ', 'k', 'B'];
    assert(amount[0] == field[0] && amount.last() == 'B');
    tight_text_is_not_trimmed(amount);
    tight_text_is_not_trimmed(field);
    assert(amount.take(amount.len() - 3) =~= field);
}

/// A field without white space around it, and without a unit, is read as a whole: the number that
/// it is, or 0.
pub proof fn bare_fields_are_read_whole(field: Seq<char>)
    requires
        field.len() > 0 ==> !is_white_space(field[0]) && !is_white_space(field.last()),
        !seq![' ', 'k', 'B'].is_suffix_of(field),
    ensures
        field_kib(field) == match parsed_u64(field) {
            Some(kib) => kib,
            None => 0,
        },
{
    tight_text_is_not_trimmed(field);
    let n = field.len() as int;
    if n >= 3 && field[n - 3] == ' ' && field[n - 2] == 'k' && field[n - 1] == 'B' {
        assert(field.subrange(n - 3, n) =~= seq![' ', 'k', 'B']);
    }
}

/// Where no line begins with the label, nothing is available.
pub proof fn without_the_label_nothing_is_available(list: Seq<Seq<char>>)
    requires
        list.len() > 0,
        forall|i: int| 0 <= i < list.len() ==> !(#[trigger] list[i]).contains('\n'),
        forall|i: int| 0 <= i < list.len() ==> !"MemAvailable:"@.is_prefix_of(#[trigger] list[i]),
    ensures
        available_kib(joined(list, seq!['\n'])) == 0,
{
    reveal_strlit("\n");
    assert("\n"@ =~= seq!['\n']);
    assert forall|i: int| 0 <= i < list.len() implies is_single_line(#[trigger] list[i]) by {
        assert(!list[i].contains('\n'));
    }
    joined_lines_split_again(list);
    lemma_field_missing(list);
}

proof fn lemma_field_missing(list: Seq<Seq<char>>)
    requires
        forall|i: int| 0 <= i < list.len() ==> !"MemAvailable:"@.is_prefix_of(#[trigger] list[i]),
    ensures
        available_field(list) is None,
    decreases list.len(),
{
    if list.len() > 0 {
        let rest = list.drop_first();
        assert forall|i: int| 0 <= i < rest.len() implies !"MemAvailable:"@.is_prefix_of(
            #[trigger] rest[i],
        ) by {
            assert(rest[i] == list[i + 1]);
        }
        assert(!"MemAvailable:"@.is_prefix_of(list[0]));
        lemma_field_missing(rest);
    }
}

} // verus!
