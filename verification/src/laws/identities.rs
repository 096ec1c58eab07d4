//! Identities: the order of texts, and what tells risks and quantities apart.

use crate::ast::Loc;
use crate::domain::formula::{var_id, ExprOp};
use crate::domain::hash::{hash_step, hash_text, stable_hash_spec};
use crate::domain::risk::{origin_key_spec, RiskKind};
use crate::domain::value::ValueStateView;
use crate::laws::texts::{decimals_stand_for_the_number, hex_stands_for_the_number, number_in};
use crate::text::{decimal, hex, text_before};
use crate::transfer::formulas::{binary_node_spec, root_spec};
use crate::transfer::risks::keys_tell_the_kind;
use crate::u256::{lemma_u256_injective, lemma_u256_view, U256};
use vstd::arithmetic::power::pow;
use vstd::prelude::*;

verus! {

/// Of two texts the one comes first whose character is less at the first place where they differ; a
/// text comes before those that go on after it.
pub proof fn texts_are_ordered_by_character(a: Seq<char>, b: Seq<char>, k: int)
    requires
        0 <= k <= a.len(),
        k <= b.len(),
        forall|i: int| 0 <= i < k ==> a[i] == b[i],
    ensures
        k < a.len() && k < b.len() && a[k] != b[k] ==> (text_before(a, b) <==> (a[k] as int) < (
        b[k] as int)),
        k == a.len() && k < b.len() ==> text_before(a, b) && !text_before(b, a),
        k == a.len() && k == b.len() ==> !text_before(a, b),
    decreases k,
{
    if k > 0 {
        let (ra, rb) = (a.drop_first(), b.drop_first());
        assert(a[0] == b[0]);
        assert forall|i: int| 0 <= i < k - 1 implies ra[i] == rb[i] by {
            assert(a[i + 1] == b[i + 1]);
        }
        texts_are_ordered_by_character(ra, rb, k - 1);
        assert(text_before(a, b) == text_before(ra, rb));
        assert(text_before(b, a) == text_before(rb, ra));
    }
}

proof fn lemma_pow()
    ensures
        pow(16, 64)
            == 0x1_0000_0000_0000_0000_0000_0000_0000_0000_0000_0000_0000_0000_0000_0000_0000_0000,
{
    reveal(pow);
    assert(pow(16, 1) == 16 * pow(16, 0));
    assert(pow(16, 2) == 16 * pow(16, 1));
    assert(pow(16, 4) == 0x1_0000) by {
        assert(pow(16, 3) == 16 * pow(16, 2));
        assert(pow(16, 4) == 16 * pow(16, 3));
    }
    vstd::arithmetic::power::lemma_pow_adds(16, 4, 4);
    assert(0x1_0000 * 0x1_0000
        == 0x1_0000_0000) by (nonlinear_arith);
    assert(pow(16, 8) == 0x1_0000_0000);
    vstd::arithmetic::power::lemma_pow_adds(16, 8, 8);
    assert(0x1_0000_0000 * 0x1_0000_0000
        == 0x1_0000_0000_0000_0000) by (nonlinear_arith);
    assert(pow(16, 16) == 0x1_0000_0000_0000_0000);
    vstd::arithmetic::power::lemma_pow_adds(16, 16, 16);
    assert(0x1_0000_0000_0000_0000 * 0x1_0000_0000_0000_0000
        == 0x1_0000_0000_0000_0000_0000_0000_0000_0000) by (nonlinear_arith);
    assert(pow(16, 32) == 0x1_0000_0000_0000_0000_0000_0000_0000_0000);
    vstd::arithmetic::power::lemma_pow_adds(16, 32, 32);
    assert(0x1_0000_0000_0000_0000_0000_0000_0000_0000 * 0x1_0000_0000_0000_0000_0000_0000_0000_0000
        == 0x1_0000_0000_0000_0000_0000_0000_0000_0000_0000_0000_0000_0000_0000_0000_0000_0000) by (nonlinear_arith);
    assert(pow(16, 64) == 0x1_0000_0000_0000_0000_0000_0000_0000_0000_0000_0000_0000_0000_0000_0000_0000_0000);
}

/// A key tells the kind of a risk and its place: the file and where in it.
pub proof fn keys_tell_the_place(a: RiskKind, at: Loc, b: RiskKind, other: Loc)
    requires
        origin_key_spec(a, at) == origin_key_spec(b, other),
    ensures
        a == b,
        at.file_hash == other.file_hash,
        at.start == other.start,
{
    keys_tell_the_kind(a, at, b, other);
    let key = origin_key_spec(a, at);
    let (f, g) = (hex(at.file_hash@, 64), hex(other.file_hash@, 64));
    let (m, n) = (decimal(at.start as nat), decimal(other.start as nat));
    lemma_pow();
    lemma_u256_view(at.file_hash);
    lemma_u256_view(other.file_hash);
    hex_stands_for_the_number(at.file_hash@, 64);
    hex_stands_for_the_number(other.file_hash@, 64);
    decimals_stand_for_the_number(at.start as nat);
    decimals_stand_for_the_number(other.start as nat);
    reveal_strlit(":");
    let r = a.rule_id_spec().len();
    assert(key.len() == r + 66 + m.len());
    assert(key.len() == r + 66 + n.len());
    assert forall|i: int| 0 <= i < 64 implies f[i] == g[i] by {
        assert(key[r + 1 + i] == f[i]);
        assert(origin_key_spec(b, other)[r + 1 + i] == g[i]);
    }
    assert(f =~= g);
    assert forall|i: int| 0 <= i < m.len() implies m[i] == n[i] by {
        assert(key[r + 66 + i] == m[i]);
        assert(origin_key_spec(b, other)[r + 66 + i] == n[i]);
    }
    assert(m =~= n);
    assert(number_in(f, 16) == number_in(g, 16));
    assert(number_in(m, 10) == number_in(n, 10));
    lemma_u256_injective(at.file_hash, other.file_hash);
}

proof fn lemma_factor(x: nat)
    requires
        x < 0x1_0000_0000_0000_0000,
    ensures
        ((x * 0x100_0000_01b3) % 0x1_0000_0000_0000_0000 * 0xce96_5057_aff6_957b)
            % 0x1_0000_0000_0000_0000 == x,
{
    let (p, q, m) = (
        0x100_0000_01b3int,
        0xce96_5057_aff6_957bint,
        0x1_0000_0000_0000_0000int,
    );
    vstd::arithmetic::div_mod::lemma_mul_mod_noop_left(x * p, q, m);
    assert((x * p) * q == x + m * (887285111055 * x)) by (nonlinear_arith)
        requires
            p == 0x100_0000_01b3,
            q == 0xce96_5057_aff6_957b,
            m == 0x1_0000_0000_0000_0000,
    ;
    vstd::arithmetic::div_mod::lemma_mod_multiples_vanish((887285111055 * x) as int, x as int, m);
    vstd::arithmetic::div_mod::lemma_small_mod(x, m as nat);
}

/// A step of the hash tells apart the symbols that it takes in, and what came before them.
pub proof fn steps_tell_apart(h: u64, g: u64, a: u64, b: u64)
    ensures
        hash_step(h, a) == hash_step(h, b) ==> a == b,
        hash_step(h, a) == hash_step(g, a) ==> h == g,
{
    lemma_factor((h ^ a) as nat);
    lemma_factor((h ^ b) as nat);
    lemma_factor((g ^ a) as nat);
    assert(h ^ a == h ^ b ==> a == b) by (bit_vector);
    assert(h ^ a == g ^ a ==> h == g) by (bit_vector);
}

proof fn lemma_hash_ends(h: u64, s: Seq<char>, a: char, b: char)
    requires
        a != b,
    ensures
        hash_text(h, s.push(a)) != hash_text(h, s.push(b)),
{
    assert(s.push(a).drop_last() =~= s);
    assert(s.push(b).drop_last() =~= s);
    steps_tell_apart(hash_text(h, s), 0, a as u64, b as u64);
}

/// The hash of a list depends on each of its texts: another last character of the last text gives
/// another hash, and so does another hash of the texts before it.
pub proof fn hashes_tell_apart(
    before: Seq<Seq<char>>,
    other: Seq<Seq<char>>,
    s: Seq<char>,
    a: char,
    b: char,
)
    ensures
        a != b ==> stable_hash_spec(before.push(s.push(a))) != stable_hash_spec(
            before.push(s.push(b)),
        ),
        stable_hash_spec(before) != stable_hash_spec(other) ==> stable_hash_spec(before.push(s))
            != stable_hash_spec(other.push(s)),
{
    let h = stable_hash_spec(before);
    assert(before.push(s.push(a)).drop_last() =~= before);
    assert(before.push(s.push(b)).drop_last() =~= before);
    assert(before.push(s).drop_last() =~= before);
    assert(other.push(s).drop_last() =~= other);
    if a != b {
        lemma_hash_ends(h, s, a, b);
        steps_tell_apart(hash_text(h, s.push(a)), hash_text(h, s.push(b)), 0x11_0000, 0);
    }
    if h != stable_hash_spec(other) {
        lemma_starts_differ(h, stable_hash_spec(other), s);
        steps_tell_apart(
            hash_text(h, s),
            hash_text(stable_hash_spec(other), s),
            0x11_0000,
            0,
        );
    }
}

proof fn lemma_starts_differ(h: u64, g: u64, s: Seq<char>)
    requires
        h != g,
    ensures
        hash_text(h, s) != hash_text(g, s),
    decreases s.len(),
{
    if s.len() > 0 {
        lemma_starts_differ(h, g, s.drop_last());
        steps_tell_apart(
            hash_text(h, s.drop_last()),
            hash_text(g, s.drop_last()),
            s.last() as u64,
            0,
        );
    }
}

/// Variables whose names differ in the last character alone are different quantities.
pub proof fn variables_are_told_apart(name: Seq<char>, a: char, b: char)
    requires
        a != b,
    ensures
        var_id(name.push(a)) != var_id(name.push(b)),
{
    hashes_tell_apart(seq!["var"@], seq![], name, a, b);
    assert(seq!["var"@].push(name.push(a)) =~= seq!["var"@, name.push(a)]);
    assert(seq!["var"@].push(name.push(b)) =~= seq!["var"@, name.push(b)]);
}

/// Numbers that differ in the last digit alone are different quantities.
pub proof fn numbers_are_told_apart(a: ValueStateView, b: ValueStateView, n: U256, m: U256)
    requires
        a.formula_facts is None,
        b.formula_facts is None,
        a.exact_value_spec() == Some(n),
        b.exact_value_spec() == Some(m),
        n@ / 10 == m@ / 10,
        n@ != m@,
    ensures
        root_spec(a)->0.id != root_spec(b)->0.id,
{
    let (x, y) = (decimal(n@), decimal(m@));
    let (s, t) = (x.drop_last(), y.drop_last());
    decimals_stand_for_the_number(n@);
    decimals_stand_for_the_number(m@);
    assert(n@ < 10 <==> m@ < 10);
    assert(s =~= t);
    assert(x =~= s.push(x.last()));
    assert(y =~= s.push(y.last()));
    hashes_tell_apart(seq!["const"@], seq![], s, x.last(), y.last());
    assert(seq!["const"@].push(x) =~= seq!["const"@, x]);
    assert(seq!["const"@].push(y) =~= seq!["const"@, y]);
}

/// Operations on expressions that are told apart by their numbers' last digit alone are different
/// quantities too, as far as the order of the operands counts.
pub proof fn operands_tell_operations_apart(
    op: ExprOp,
    lhs: ValueStateView,
    a: ValueStateView,
    b: ValueStateView,
    debug: Seq<char>,
    other: Seq<char>,
)
    requires
        !(op is Add || op is Mul),
        root_spec(lhs) is Some,
        root_spec(a) is Some,
        root_spec(b) is Some,
        root_spec(a)->0.id / 10 == root_spec(b)->0.id / 10,
        root_spec(a)->0.id != root_spec(b)->0.id,
    ensures
        binary_node_spec(op, lhs, a, debug)->0.id != binary_node_spec(op, lhs, b, other)->0.id,
{
    let (n, m) = (root_spec(a)->0.id as nat, root_spec(b)->0.id as nat);
    let (x, y) = (decimal(n), decimal(m));
    let (s, t) = (x.drop_last(), y.drop_last());
    let before = seq![op.name_spec(), decimal(root_spec(lhs)->0.id as nat)];
    decimals_stand_for_the_number(n);
    decimals_stand_for_the_number(m);
    assert(n < 10 <==> m < 10);
    assert(s =~= t);
    assert(x =~= s.push(x.last()));
    assert(y =~= s.push(y.last()));
    hashes_tell_apart(before, seq![], s, x.last(), y.last());
    assert(before.push(x) =~= seq![op.name_spec(), decimal(root_spec(lhs)->0.id as nat), x]);
    assert(before.push(y) =~= seq![op.name_spec(), decimal(root_spec(lhs)->0.id as nat), y]);
}

} // verus!
