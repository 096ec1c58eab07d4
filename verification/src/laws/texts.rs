//! Texts: which words names hold, and how numbers and lists are written.

use crate::text::{
    contains_text, decimal, hex, hex_bytes, hex_digit, is_space, joined, lower, lower_char,
    occurs_at, trim_end, trim_start,
};
use vstd::arithmetic::power::pow;
use vstd::prelude::*;

verus! {

/// Whether one letter is the other in lower case; what is no capital letter stays as it is.
pub open spec fn is_lower_of(d: char, c: char) -> bool {
    if 'A' <= c && c <= 'Z' {
        d as int == c as int + 32
    } else {
        d == c
    }
}

/// Whether a word, in lower case, stands somewhere in a name, whatever the case there.
pub open spec fn mentions(name: Seq<char>, word: Seq<char>) -> bool {
    exists|at: int| #[trigger] mentions_at(name, word, at)
}

pub open spec fn mentions_at(name: Seq<char>, word: Seq<char>, at: int) -> bool {
    &&& 0 <= at <= name.len() - word.len()
    &&& forall|k: int| 0 <= k < word.len() ==> is_lower_of(#[trigger] word[k], name[at + k])
}

/// Whether a word stands somewhere in a name as it is.
pub open spec fn holds_word(name: Seq<char>, word: Seq<char>) -> bool {
    exists|at: int| #[trigger] holds_word_at(name, word, at)
}

pub open spec fn holds_word_at(name: Seq<char>, word: Seq<char>, at: int) -> bool {
    &&& 0 <= at <= name.len() - word.len()
    &&& forall|k: int| 0 <= k < word.len() ==> #[trigger] word[k] == name[at + k]
}

pub proof fn lemma_lower_char(c: char, d: char)
    ensures
        lower_char(c) == d <==> is_lower_of(d, c),
{
    if 'A' <= c && c <= 'Z' {
        let n = c as u8;
        assert(n as int == c as int);
        assert(((n + 32) as u8) as char as int == n as int + 32);
    }
}

proof fn lemma_occurs(name: Seq<char>, word: Seq<char>, at: int)
    ensures
        occurs_at(name, word, at) <==> holds_word_at(name, word, at),
{
    if 0 <= at <= name.len() - word.len() {
        let part = name.subrange(at, at + word.len());
        if holds_word_at(name, word, at) {
            assert forall|k: int| 0 <= k < word.len() implies part[k] == word[k] by {
                assert(word[k] == name[at + k]);
            }
            assert(part =~= word);
        }
        if occurs_at(name, word, at) {
            assert forall|k: int| 0 <= k < word.len() implies #[trigger] word[k] == name[at + k] by {
                assert(part[k] == name[at + k]);
            }
        }
    }
}

/// A text is searched for a word letter by letter.
pub proof fn words_are_found_as_they_are(name: Seq<char>, word: Seq<char>)
    ensures
        contains_text(name, word) <==> holds_word(name, word),
{
    reveal(contains_text);
    if contains_text(name, word) {
        let at = choose|at: int| #[trigger] occurs_at(name, word, at);
        lemma_occurs(name, word, at);
        assert(holds_word_at(name, word, at));
    }
    if holds_word(name, word) {
        let at = choose|at: int| #[trigger] holds_word_at(name, word, at);
        lemma_occurs(name, word, at);
        assert(occurs_at(name, word, at));
    }
}

/// A name is searched for a word letter by letter, whatever the case of the name.
pub proof fn words_are_found_in_any_case(name: Seq<char>, word: Seq<char>)
    ensures
        contains_text(lower(name), word) <==> mentions(name, word),
{
    words_are_found_as_they_are(lower(name), word);
    assert forall|at: int|
        holds_word_at(lower(name), word, at) <==> #[trigger] mentions_at(name, word, at) by {
        if 0 <= at <= name.len() - word.len() {
            assert forall|k: int| 0 <= k < word.len() implies (word[k] == lower(name)[at + k]
                <==> is_lower_of(#[trigger] word[k], name[at + k])) by {
                lemma_lower_char(name[at + k], word[k]);
            }
        }
    }
    if holds_word(lower(name), word) {
        let at = choose|at: int| #[trigger] holds_word_at(lower(name), word, at);
        assert(mentions_at(name, word, at));
    }
    if mentions(name, word) {
        let at = choose|at: int| #[trigger] mentions_at(name, word, at);
        assert(holds_word_at(lower(name), word, at));
    }
}

/// The number that a row of digits stands for.
pub open spec fn number_in(digits: Seq<char>, base: nat) -> nat
    decreases digits.len(),
{
    if digits.len() == 0 {
        0
    } else {
        number_in(digits.drop_last(), base) * base + digit_value(digits.last())
    }
}

/// What a digit counts, up to `f`.
pub open spec fn digit_value(c: char) -> nat {
    if '0' <= c && c <= '9' {
        (c as int - '0' as int) as nat
    } else if 'a' <= c && c <= 'f' {
        (c as int - 'a' as int + 10) as nat
    } else {
        0
    }
}

/// A number is written so that its digits stand for it, without a leading zero.
pub proof fn decimals_stand_for_the_number(n: nat)
    ensures
        number_in(decimal(n), 10) == n,
        decimal(n).len() > 0,
        decimal(n)[0] == '0' ==> n == 0,
        forall|i: int| 0 <= i < decimal(n).len() ==> '0' <= #[trigger] decimal(n)[i] <= '9',
    decreases n,
{
    if n < 10 {
        assert(decimal(n).drop_last() =~= Seq::empty());
        assert(number_in(Seq::empty(), 10) == 0);
        assert(decimal(n).last() as int == 48 + n);
    } else {
        decimals_stand_for_the_number(n / 10);
        assert(decimal(n).drop_last() =~= decimal(n / 10));
        assert(decimal(n).last() as int == 48 + n % 10);
        assert(decimal(n)[0] == decimal(n / 10)[0]);
        assert forall|i: int| 0 <= i < decimal(n).len() implies '0' <= #[trigger] decimal(n)[i] <= '9' by {
            if i < decimal(n).len() - 1 {
                assert(decimal(n)[i] == decimal(n / 10)[i]);
            }
        }
    }
}

proof fn lemma_hex_digit(d: nat)
    requires
        d < 16,
    ensures
        digit_value(hex_digit(d)) == d,
{
    if d < 10 {
        assert(hex_digit(d) as int == 48 + d);
    } else {
        assert(hex_digit(d) as int == 87 + d);
    }
}

/// A number that `count` hexadecimal digits can hold is written with that many, which stand for it.
pub proof fn hex_stands_for_the_number(n: nat, count: nat)
    requires
        n < pow(16, count),
    ensures
        hex(n, count).len() == count,
        number_in(hex(n, count), 16) == n,
    decreases count,
{
    reveal(pow);
    if count > 0 {
        let rest = pow(16, (count - 1) as nat);
        assert(pow(16, count) == 16 * rest);
        hex_stands_for_the_number(n / 16, (count - 1) as nat);
        lemma_hex_digit(n % 16);
        assert(hex(n, count).drop_last() =~= hex(n / 16, (count - 1) as nat));
    }
}

/// Bytes are written with two digits each.
pub proof fn bytes_are_written_in_pairs(bytes: Seq<u8>, i: int)
    requires
        0 <= i < bytes.len(),
    ensures
        hex_bytes(bytes).len() == 2 * bytes.len(),
        digit_value(hex_bytes(bytes)[2 * i]) * 16 + digit_value(hex_bytes(bytes)[2 * i + 1])
            == bytes[i],
    decreases bytes.len(),
{
    let front = hex_bytes(bytes.drop_last());
    if bytes.len() > 1 {
        bytes_are_written_in_pairs(
            bytes.drop_last(),
            if i < bytes.len() - 1 {
                i
            } else {
                0
            },
        );
    } else {
        assert(bytes.drop_last().len() == 0);
    }
    lemma_hex_digit((bytes.last() / 16) as nat);
    lemma_hex_digit((bytes.last() % 16) as nat);
    if i < bytes.len() - 1 {
        assert(hex_bytes(bytes)[2 * i] == front[2 * i]);
        assert(hex_bytes(bytes)[2 * i + 1] == front[2 * i + 1]);
        assert(bytes.drop_last()[i] == bytes[i]);
    }
}

/// Lists are written with the separator between neighbours only.
pub proof fn lists_are_joined_between(a: Seq<Seq<char>>, b: Seq<Seq<char>>, sep: Seq<char>)
    requires
        a.len() > 0,
        b.len() > 0,
    ensures
        joined(a + b, sep) == joined(a, sep) + sep + joined(b, sep),
        joined(seq![a[0]], sep) == a[0],
        joined(Seq::empty(), sep) == Seq::<char>::empty(),
    decreases b.len(),
{
    assert((a + b).last() == b.last());
    if b.len() == 1 {
        assert((a + b).drop_last() =~= a);
    } else {
        lists_are_joined_between(a, b.drop_last(), sep);
        assert((a + b).drop_last() =~= a + b.drop_last());
        assert(joined(a, sep) + sep + joined(b.drop_last(), sep) + sep + b.last() =~= joined(a, sep)
            + sep + (joined(b.drop_last(), sep) + sep + b.last()));
    }
}

/// White space is what texts are trimmed of.
pub open spec fn is_blank(c: char) -> bool {
    c == ' ' || c == '\t' || c == '\n' || c == '\r' || c as int == 11 || c as int == 12 || c as int
        == 0x85 || c as int == 0xa0 || c as int == 0x1680 || 0x2000 <= c as int <= 0x200a
        || c as int == 0x2028 || c as int == 0x2029 || c as int == 0x202f || c as int == 0x205f
        || c as int == 0x3000
}

proof fn lemma_trim_start(s: Seq<char>) -> (from: int)
    ensures
        0 <= from <= s.len(),
        trim_start(s) == s.skip(from),
        forall|i: int| 0 <= i < from ==> is_blank(#[trigger] s[i]),
        from < s.len() ==> !is_blank(s[from]),
    decreases s.len(),
{
    if s.len() > 0 && is_space(s[0]) {
        let rest = s.drop_first();
        let at = lemma_trim_start(rest);
        assert(rest.skip(at) =~= s.skip(at + 1));
        assert forall|i: int| 0 <= i < at + 1 implies is_blank(#[trigger] s[i]) by {
            if i > 0 {
                assert(s[i] == rest[i - 1]);
            }
        }
        at + 1
    } else {
        assert(s.skip(0) =~= s);
        0
    }
}

proof fn lemma_trim_end(s: Seq<char>) -> (to: int)
    ensures
        0 <= to <= s.len(),
        trim_end(s) == s.take(to),
        forall|i: int| to <= i < s.len() ==> is_blank(#[trigger] s[i]),
        to > 0 ==> !is_blank(s[to - 1]),
    decreases s.len(),
{
    if s.len() > 0 && is_space(s.last()) {
        let rest = s.drop_last();
        let at = lemma_trim_end(rest);
        assert(rest.take(at) =~= s.take(at));
        assert forall|i: int| at <= i < s.len() implies is_blank(#[trigger] s[i]) by {
            if i < s.len() - 1 {
                assert(s[i] == rest[i]);
            }
        }
        at
    } else {
        assert(s.take(s.len() as int) =~= s);
        s.len() as int
    }
}

/// Trimming leaves what stands between the first and the last letter that is not white space.
pub proof fn trimming_takes_off_blanks_only(s: Seq<char>) -> (ends: (int, int))
    ensures
        0 <= ends.0 <= ends.1 <= s.len(),
        trim_end(trim_start(s)) == s.subrange(ends.0, ends.1),
        forall|i: int| 0 <= i < ends.0 || ends.1 <= i < s.len() ==> is_blank(#[trigger] s[i]),
        ends.0 < ends.1 ==> !is_blank(s[ends.0]) && !is_blank(s[ends.1 - 1]),
{
    let from = lemma_trim_start(s);
    let rest = s.skip(from);
    let to = lemma_trim_end(rest);
    assert(rest.take(to) =~= s.subrange(from, from + to));
    assert forall|i: int| 0 <= i < from || from + to <= i < s.len() implies is_blank(
        #[trigger] s[i],
    ) by {
        if i >= from + to {
            assert(s[i] == rest[i - from]);
        }
    }
    if to > 0 {
        assert(s[from + to - 1] == rest[to - 1]);
    }
    (from, from + to)
}

} // verus!
