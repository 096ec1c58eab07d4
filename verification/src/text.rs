//! Text: building, searching and comparing strings, and writing numbers.

use crate::model::views;
use crate::u256::{lemma_u256_of, lemma_u256_view, U256};
use vstd::prelude::*;

verus! {

/// `String::push`: appends one character at the end.
pub assume_specification[ String::push ](s: &mut String, c: char)
    ensures
        final(s)@ == old(s)@.push(c),
;

/// The characters of a string.
pub fn chars_of(s: &str) -> (r: Vec<char>)
    ensures
        r@ == s@,
{
    let mut v: Vec<char> = Vec::new();
    for c in it: s.chars()
        invariant
            v@ == it.seq().take(it.index() as int),
            it.seq() == s@,
    {
        v.push(c);
    }
    v
}

/// Whether two strings hold the same characters.
pub fn same_text(a: &str, b: &str) -> (r: bool)
    ensures
        r == (a@ == b@),
{
    a.to_owned() == b.to_owned()
}

/// An ASCII upper-case letter in lower case; any other character as it is.
pub open spec fn lower_char(c: char) -> char {
    if 'A' <= c && c <= 'Z' {
        ((c as u8) + 32) as u8 as char
    } else {
        c
    }
}

/// `s` with its ASCII letters in lower case.
pub open spec fn lower(s: Seq<char>) -> Seq<char> {
    Seq::new(s.len(), |i: int| lower_char(s[i]))
}

pub fn to_lower(s: &str) -> (r: String)
    ensures
        r@ == lower(s@),
{
    let cs: Vec<char> = chars_of(s);
    let mut out: String = String::new();
    let mut i: usize = 0;
    while i < cs.len()
        invariant
            i <= cs@.len(),
            cs@ == s@,
            out@ =~= lower(s@).take(i as int),
        decreases cs@.len() - i,
    {
        let c: char = cs[i];
        let l: char = if 'A' <= c && c <= 'Z' {
            ((c as u8) + 32) as char
        } else {
            c
        };
        out.push(l);
        i = i + 1;
    }
    out
}

/// Whether `needle` stands in `hay` at position `at`.
pub open spec fn occurs_at(hay: Seq<char>, needle: Seq<char>, at: int) -> bool {
    0 <= at <= hay.len() - needle.len() && hay.subrange(at, at + needle.len()) == needle
}

/// Whether `needle` stands somewhere in `hay`.
#[verifier::opaque]
pub open spec fn contains_text(hay: Seq<char>, needle: Seq<char>) -> bool {
    exists|at: int| #[trigger] occurs_at(hay, needle, at)
}

pub fn contains(hay: &str, needle: &str) -> (r: bool)
    ensures
        r == contains_text(hay@, needle@),
{
    reveal(contains_text);
    let h: Vec<char> = chars_of(hay);
    let n: Vec<char> = chars_of(needle);
    if n.len() > h.len() {
        return false;
    }
    let total: usize = h.len();
    let mut at: usize = 0;
    while at <= total - n.len()
        invariant
            total == h@.len(),
            h@ == hay@,
            n@ == needle@,
            n@.len() <= h@.len(),
            at <= h@.len() - n@.len() + 1,
            forall|k: int| 0 <= k < at ==> !occurs_at(hay@, needle@, k),
        decreases h@.len() - n@.len() + 1 - at,
    {
        let mut j: usize = 0;
        let mut equal: bool = true;
        while j < n.len()
            invariant
                total == h@.len(),
                h@ == hay@,
                n@ == needle@,
                at + n@.len() <= total,
                j <= n@.len(),
                equal == (forall|k: int| 0 <= k < j ==> h@[at + k] == n@[k]),
            decreases n@.len() - j,
        {
            if h[at + j] != n[j] {
                equal = false;
            }
            j = j + 1;
        }
        if equal {
            assert(hay@.subrange(at as int, at + needle@.len()) =~= needle@);
            assert(occurs_at(hay@, needle@, at as int));
            proof {
                reveal(contains_text);
            }
            return true;
        }
        assert(!occurs_at(hay@, needle@, at as int)) by {
            if occurs_at(hay@, needle@, at as int) {
                let sub = hay@.subrange(at as int, at + needle@.len());
                assert forall|k: int| 0 <= k < j implies h@[at + k] == n@[k] by {
                    assert(sub[k] == h@[at + k]);
                }
            }
        }
        at = at + 1;
    }
    false
}

/// Whether `a` comes before `b` in the order by characters.
pub open spec fn text_before(a: Seq<char>, b: Seq<char>) -> bool
    decreases a.len(),
{
    if b.len() == 0 {
        false
    } else if a.len() == 0 {
        true
    } else if a[0] != b[0] {
        (a[0] as int) < (b[0] as int)
    } else {
        text_before(a.drop_first(), b.drop_first())
    }
}

/// No text comes before itself.
pub proof fn lemma_before_irreflexive(a: Seq<char>)
    ensures
        !text_before(a, a),
    decreases a.len(),
{
    if a.len() > 0 {
        lemma_before_irreflexive(a.drop_first());
    }
}

/// The order of texts is transitive.
pub proof fn lemma_before_transitive(a: Seq<char>, b: Seq<char>, c: Seq<char>)
    requires
        text_before(a, b),
        text_before(b, c),
    ensures
        text_before(a, c),
    decreases a.len(),
{
    if a.len() > 0 && a[0] == b[0] && b[0] == c[0] {
        lemma_before_transitive(a.drop_first(), b.drop_first(), c.drop_first());
    }
}

/// Of two different texts, one comes before the other.
pub proof fn lemma_before_total(a: Seq<char>, b: Seq<char>)
    ensures
        text_before(a, b) || a == b || text_before(b, a),
    decreases a.len(),
{
    if a.len() > 0 && b.len() > 0 && a[0] == b[0] {
        lemma_before_total(a.drop_first(), b.drop_first());
        if a.drop_first() == b.drop_first() {
            assert(a =~= seq![a[0]] + a.drop_first());
            assert(b =~= seq![b[0]] + b.drop_first());
        }
    } else if a.len() == 0 && b.len() == 0 {
        assert(a =~= b);
    }
}

pub fn before(a: &str, b: &str) -> (r: bool)
    ensures
        r == text_before(a@, b@),
{
    let x: Vec<char> = chars_of(a);
    let y: Vec<char> = chars_of(b);
    let mut i: usize = 0;
    assert(x@.skip(0) =~= x@);
    assert(y@.skip(0) =~= y@);
    while i < x.len() && i < y.len()
        invariant
            x@ == a@,
            y@ == b@,
            i <= x@.len(),
            i <= y@.len(),
            text_before(x@.skip(i as int), y@.skip(i as int)) == text_before(a@, b@),
        decreases x@.len() - i,
    {
        if x[i] != y[i] {
            return x[i] < y[i];
        }
        assert(x@.skip(i as int).drop_first() =~= x@.skip(i + 1));
        assert(y@.skip(i as int).drop_first() =~= y@.skip(i + 1));
        i = i + 1;
    }
    i < y.len()
}

/// The decimal digit for a number below ten.
pub open spec fn digit(d: nat) -> char {
    (48 + d) as u8 as char
}

/// A number in decimal, without leading zeros.
pub open spec fn decimal(n: nat) -> Seq<char>
    decreases n,
{
    if n < 10 {
        seq![digit(n)]
    } else {
        decimal(n / 10).push(digit(n % 10))
    }
}

fn push_decimal(s: &mut String, n: U256)
    ensures
        final(s)@ == old(s)@ + decimal(n@),
    decreases n@,
{
    let ten: U256 = U256::from_u128(10);
    if n.lt(ten) {
        let d: u8 = n.low_byte();
        s.push((48 + d) as char);
        assert(s@ =~= old(s)@ + decimal(n@));
        return;
    }
    proof {
        lemma_u256_view(n);
        lemma_u256_of(n@ / 10);
        lemma_u256_of(n@ % 10);
    }
    let q: Option<U256> = n.checked_div(ten);
    let m: Option<U256> = n.checked_rem(ten);
    match (q, m) {
        (Some(q), Some(m)) => {
            push_decimal(s, q);
            let d: u8 = m.low_byte();
            s.push((48 + d) as char);
            assert(s@ =~= old(s)@ + decimal(n@));
        },
        _ => {},
    }
}

pub fn write_u256(n: U256) -> (r: String)
    ensures
        r@ == decimal(n@),
{
    let mut s: String = String::new();
    push_decimal(&mut s, n);
    assert(s@ =~= decimal(n@));
    s
}

pub fn write_u128(n: u128) -> (r: String)
    ensures
        r@ == decimal(n as nat),
{
    write_u256(U256::from_u128(n))
}

/// The hexadecimal digit for a number below sixteen.
pub open spec fn hex_digit(d: nat) -> char {
    if d < 10 {
        (48 + d) as u8 as char
    } else {
        (87 + d) as u8 as char
    }
}

/// The low `count` hexadecimal digits of `n`, the highest first.
pub open spec fn hex(n: nat, count: nat) -> Seq<char>
    decreases count,
{
    if count == 0 {
        Seq::empty()
    } else {
        hex(n / 16, (count - 1) as nat).push(hex_digit(n % 16))
    }
}

fn push_hex_digit(s: &mut String, d: u8)
    requires
        d < 16,
    ensures
        final(s)@ == old(s)@.push(hex_digit(d as nat)),
{
    if d < 10 {
        s.push((48 + d) as char);
    } else {
        s.push((87 + d) as char);
    }
}

/// The last hexadecimal digit of a number is that of its last byte.
proof fn lemma_last_digit(n: nat)
    ensures
        n % 256 % 16 == n % 16,
{
    assert(n == (n / 256) * 256 + n % 256);
    assert(n == ((n / 256) * 16) * 16 + n % 256);
}

fn push_hex(s: &mut String, n: U256, count: u8)
    ensures
        final(s)@ == old(s)@ + hex(n@, count as nat),
    decreases count,
{
    if count == 0 {
        assert(s@ =~= old(s)@ + hex(n@, 0));
        return;
    }
    let sixteen: U256 = U256::from_u128(16);
    let ghost start = s@;
    if let Some(q) = n.checked_div(sixteen) {
        proof {
            lemma_u256_view(n);
            lemma_u256_of(n@ / 16);
        }
        push_hex(s, q, count - 1);
        let ghost middle = s@;
        let last: u8 = n.low_byte();
        proof {
            lemma_last_digit(n@);
        }
        push_hex_digit(s, last % 16);
        assert(s@ =~= start + hex(n@ / 16, (count - 1) as nat).push(hex_digit(n@ % 16)));
    }
}

/// A 256-bit number as sixty-four hexadecimal digits.
pub fn write_hash(n: U256) -> (r: String)
    ensures
        r@ == hex(n@, 64),
{
    let mut s: String = String::new();
    push_hex(&mut s, n, 64);
    assert(s@ =~= hex(n@, 64));
    s
}

/// The parts in order, with `sep` between each two.
pub open spec fn joined(parts: Seq<Seq<char>>, sep: Seq<char>) -> Seq<char>
    decreases parts.len(),
{
    if parts.len() == 0 {
        Seq::empty()
    } else if parts.len() == 1 {
        parts[0]
    } else {
        joined(parts.drop_last(), sep) + sep + parts.last()
    }
}

pub fn join(parts: &Vec<String>, sep: &str) -> (r: String)
    ensures
        r@ == joined(views(parts@), sep@),
{
    let ghost all = views(parts@);
    let mut out: String = String::new();
    let mut i: usize = 0;
    while i < parts.len()
        invariant
            i <= parts@.len(),
            all == views(parts@),
            out@ =~= joined(all.take(i as int), sep@),
        decreases parts@.len() - i,
    {
        assert(all.take(i + 1).drop_last() =~= all.take(i as int));
        if i > 0 {
            out.append(sep);
        }
        out.append(parts[i].as_str());
        i = i + 1;
    }
    assert(all.take(i as int) =~= all);
    out
}

/// The characters that Unicode counts as white space.
pub open spec fn is_space(c: char) -> bool {
    let n = c as int;
    9 <= n <= 13 || n == 0x20 || n == 0x85 || n == 0xa0 || n == 0x1680 || 0x2000 <= n <= 0x200a || n
        == 0x2028 || n == 0x2029 || n == 0x202f || n == 0x205f || n == 0x3000
}

fn space(c: char) -> (r: bool)
    ensures
        r == is_space(c),
{
    let n: u32 = c as u32;
    (9 <= n && n <= 13) || n == 0x20 || n == 0x85 || n == 0xa0 || n == 0x1680 || (0x2000 <= n && n
        <= 0x200a) || n == 0x2028 || n == 0x2029 || n == 0x202f || n == 0x205f || n == 0x3000
}

/// `s` without white space at its start.
pub open spec fn trim_start(s: Seq<char>) -> Seq<char>
    decreases s.len(),
{
    if s.len() > 0 && is_space(s[0]) {
        trim_start(s.drop_first())
    } else {
        s
    }
}

/// `s` without white space at its end.
pub open spec fn trim_end(s: Seq<char>) -> Seq<char>
    decreases s.len(),
{
    if s.len() > 0 && is_space(s.last()) {
        trim_end(s.drop_last())
    } else {
        s
    }
}

pub fn trim(s: &str) -> (r: String)
    ensures
        r@ == trim_end(trim_start(s@)),
{
    let cs: Vec<char> = chars_of(s);
    let mut from: usize = 0;
    assert(s@.skip(0) =~= s@);
    while from < cs.len() && space(cs[from])
        invariant
            cs@ == s@,
            from <= cs@.len(),
            trim_start(s@) == trim_start(s@.skip(from as int)),
        decreases cs@.len() - from,
    {
        assert(s@.skip(from as int).drop_first() =~= s@.skip(from + 1));
        from = from + 1;
    }
    let ghost rest = s@.skip(from as int);
    assert(trim_start(s@) == rest);
    let mut to: usize = cs.len();
    assert(s@.subrange(from as int, to as int) =~= rest);
    while to > from && space(cs[to - 1])
        invariant
            cs@ == s@,
            from <= to <= cs@.len(),
            trim_end(rest) == trim_end(s@.subrange(from as int, to as int)),
        decreases to,
    {
        assert(s@.subrange(from as int, to as int).drop_last() =~= s@.subrange(
            from as int,
            to - 1,
        ));
        to = to - 1;
    }
    let mut r: String = String::new();
    let mut i: usize = from;
    while i < to
        invariant
            cs@ == s@,
            from <= i <= to <= cs@.len(),
            r@ =~= s@.subrange(from as int, i as int),
        decreases to - i,
    {
        r.push(cs[i]);
        i = i + 1;
    }
    r
}

/// The two hexadecimal digits of each byte, in order.
pub open spec fn hex_bytes(bytes: Seq<u8>) -> Seq<char>
    decreases bytes.len(),
{
    if bytes.len() == 0 {
        Seq::empty()
    } else {
        hex_bytes(bytes.drop_last()) + seq![
            hex_digit((bytes.last() / 16) as nat),
            hex_digit((bytes.last() % 16) as nat),
        ]
    }
}

pub fn write_hex_bytes(bytes: &Vec<u8>) -> (r: String)
    ensures
        r@ == hex_bytes(bytes@),
{
    let mut r: String = String::new();
    let mut i: usize = 0;
    while i < bytes.len()
        invariant
            i <= bytes@.len(),
            r@ =~= hex_bytes(bytes@.take(i as int)),
        decreases bytes@.len() - i,
    {
        assert(bytes@.take(i + 1).drop_last() =~= bytes@.take(i as int));
        let b: u8 = bytes[i];
        push_hex_digit(&mut r, b / 16);
        push_hex_digit(&mut r, b % 16);
        i = i + 1;
    }
    assert(bytes@.take(i as int) =~= bytes@);
    r
}

/// Insertion into a list in the order of texts, after those that are equal.
pub open spec fn insert_sorted(sorted: Seq<Seq<char>>, text: Seq<char>) -> Seq<Seq<char>>
    decreases sorted.len(),
{
    if sorted.len() > 0 && text_before(text, sorted.last()) {
        insert_sorted(sorted.drop_last(), text).push(sorted.last())
    } else {
        sorted.push(text)
    }
}

/// The texts in order.
pub open spec fn sorted_texts(texts: Seq<Seq<char>>) -> Seq<Seq<char>>
    decreases texts.len(),
{
    if texts.len() == 0 {
        Seq::empty()
    } else {
        insert_sorted(sorted_texts(texts.drop_last()), texts.last())
    }
}

proof fn lemma_insert_at(sorted: Seq<Seq<char>>, text: Seq<char>, at: int)
    requires
        0 <= at <= sorted.len(),
        forall|i: int| at <= i < sorted.len() ==> text_before(text, #[trigger] sorted[i]),
        at > 0 ==> !text_before(text, sorted[at - 1]),
    ensures
        insert_sorted(sorted, text) == sorted.insert(at, text),
    decreases sorted.len(),
{
    if at < sorted.len() {
        assert(text_before(text, sorted[sorted.len() - 1]));
        lemma_insert_at(sorted.drop_last(), text, at);
        assert(sorted.drop_last().insert(at, text).push(sorted.last()) =~= sorted.insert(at, text));
    } else {
        assert(sorted.push(text) =~= sorted.insert(at, text));
    }
}

pub fn sort_texts(texts: &Vec<String>) -> (r: Vec<String>)
    ensures
        views(r@) == sorted_texts(views(texts@)),
{
    let ghost all = views(texts@);
    let mut r: Vec<String> = Vec::new();
    let mut i: usize = 0;
    assert(views(r@) =~= sorted_texts(all.take(0)));
    while i < texts.len()
        invariant
            i <= texts@.len(),
            all == views(texts@),
            views(r@) == sorted_texts(all.take(i as int)),
        decreases texts@.len() - i,
    {
        let ghost start = views(r@);
        assert(all.take(i + 1).drop_last() =~= all.take(i as int));
        let mut at: usize = r.len();
        while at > 0 && before(texts[i].as_str(), r[at - 1].as_str())
            invariant
                at <= r@.len(),
                i < texts@.len(),
                all == views(texts@),
                start == views(r@),
                forall|j: int| at <= j < start.len() ==> text_before(all[i as int], #[trigger] start[j]),
            decreases at,
        {
            at = at - 1;
        }
        proof {
            lemma_insert_at(start, all[i as int], at as int);
        }
        r.insert(at, texts[i].clone());
        assert(views(r@) =~= start.insert(at as int, all[i as int]));
        i = i + 1;
    }
    assert(all.take(i as int) =~= all);
    r
}

proof fn lemma_insert_multiset(sorted: Seq<Seq<char>>, text: Seq<char>)
    ensures
        insert_sorted(sorted, text).to_multiset() == sorted.to_multiset().insert(text),
    decreases sorted.len(),
{
    broadcast use vstd::seq_lib::group_to_multiset_ensures;

    if sorted.len() > 0 && text_before(text, sorted.last()) {
        lemma_insert_multiset(sorted.drop_last(), text);
        assert(sorted.drop_last().push(sorted.last()) =~= sorted);
        assert(sorted.to_multiset() =~= sorted.drop_last().to_multiset().insert(sorted.last()));
        assert(insert_sorted(sorted, text).to_multiset() =~= sorted.to_multiset().insert(text));
    }
}

/// Whether no text comes before an earlier one.
pub open spec fn in_order(texts: Seq<Seq<char>>) -> bool {
    forall|i: int, j: int|
        #![trigger texts[i], texts[j]]
        0 <= i < j < texts.len() ==> !text_before(texts[j], texts[i])
}

proof fn lemma_insert_in_order(sorted: Seq<Seq<char>>, text: Seq<char>)
    requires
        in_order(sorted),
    ensures
        in_order(insert_sorted(sorted, text)),
        forall|k: int|
            0 <= k < insert_sorted(sorted, text).len() ==> (#[trigger] insert_sorted(sorted, text)[k]
                == text || sorted.contains(insert_sorted(sorted, text)[k])),
    decreases sorted.len(),
{
    let r = insert_sorted(sorted, text);
    if sorted.len() > 0 && text_before(text, sorted.last()) {
        let front = sorted.drop_last();
        assert(in_order(front)) by {
            assert forall|i: int, j: int|
                #![trigger front[i], front[j]]
                0 <= i < j < front.len() implies !text_before(front[j], front[i]) by {
                assert(front[i] == sorted[i] && front[j] == sorted[j]);
            }
        }
        lemma_insert_in_order(front, text);
        let inner = insert_sorted(front, text);
        assert forall|k: int| 0 <= k < inner.len() implies !text_before(
            sorted.last(),
            #[trigger] inner[k],
        ) by {
            if inner[k] == text {
                if text_before(sorted.last(), text) {
                    lemma_before_transitive(text, sorted.last(), text);
                    lemma_before_irreflexive(text);
                }
            } else {
                let m = choose|m: int| 0 <= m < front.len() && front[m] == inner[k];
                assert(sorted[m] == inner[k] && sorted[sorted.len() - 1] == sorted.last());
            }
        }
        assert forall|i: int, j: int|
            #![trigger r[i], r[j]]
            0 <= i < j < r.len() implies !text_before(r[j], r[i]) by {
            if j == inner.len() {
                assert(r[i] == inner[i]);
            } else {
                assert(r[i] == inner[i] && r[j] == inner[j]);
            }
        }
        assert forall|k: int| 0 <= k < r.len() implies (#[trigger] r[k] == text || sorted.contains(
            r[k],
        )) by {
            if k < inner.len() {
                assert(r[k] == inner[k]);
                if inner[k] != text {
                    let m = choose|m: int| 0 <= m < front.len() && front[m] == inner[k];
                    assert(sorted[m] == r[k]);
                }
            } else {
                assert(sorted[sorted.len() - 1] == r[k]);
            }
        }
    } else {
        assert forall|i: int, j: int|
            #![trigger r[i], r[j]]
            0 <= i < j < r.len() implies !text_before(r[j], r[i]) by {
            if j == sorted.len() && text_before(text, sorted[i]) {
                if i < sorted.len() - 1 {
                    lemma_before_total(sorted[i], sorted.last());
                    assert(sorted[i] == sorted[i] && sorted[sorted.len() - 1] == sorted.last());
                    if sorted[i] != sorted.last() {
                        lemma_before_transitive(text, sorted[i], sorted.last());
                    }
                }
            }
        }
        assert forall|k: int| 0 <= k < r.len() implies (#[trigger] r[k] == text || sorted.contains(
            r[k],
        )) by {
            if k < sorted.len() {
                assert(sorted[k] == r[k]);
            }
        }
    }
}

/// Sorting gives the same texts, each as often, in order.
pub proof fn sorting_orders_the_same_texts(texts: Seq<Seq<char>>)
    ensures
        in_order(sorted_texts(texts)),
        sorted_texts(texts).to_multiset() == texts.to_multiset(),
    decreases texts.len(),
{
    broadcast use vstd::seq_lib::group_to_multiset_ensures;

    if texts.len() > 0 {
        sorting_orders_the_same_texts(texts.drop_last());
        lemma_insert_in_order(sorted_texts(texts.drop_last()), texts.last());
        lemma_insert_multiset(sorted_texts(texts.drop_last()), texts.last());
        assert(texts.drop_last().push(texts.last()) =~= texts);
    } else {
        assert(sorted_texts(texts) =~= texts);
    }
}

} // verus!
