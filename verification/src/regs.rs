//! The discipline of dynamic registers on the value stack.
//!
//! Values computed during translation live in dynamic registers, which are
//! allocated like a stack: the dynamic registers that stand on the value
//! stack are, from bottom to top, exactly `base, base + 1, ...`. This module
//! states that discipline and proves how it survives pushing, popping,
//! truncating and rewriting the value stack.
use vstd::prelude::*;
use crate::value::{Provider, Reg};

verus! {

/// The register index of a provider, or `-1` for a constant.
pub open spec fn reg_index(p: Provider) -> int {
    match p {
        Provider::Register(r) => r.0 as int,
        Provider::Const(_) => -1,
    }
}

/// A provider is a dynamic register if it is a register in `nl .. hi`.
pub open spec fn is_dyn(p: Provider, nl: int, hi: int) -> bool {
    match p {
        Provider::Register(r) => nl <= r.0 && r.0 < hi,
        Provider::Const(_) => false,
    }
}

/// The number of dynamic registers in a sequence of providers.
pub open spec fn count_dyn(s: Seq<Provider>, nl: int, hi: int) -> nat
    decreases s.len(),
{
    if s.len() == 0 {
        0
    } else {
        count_dyn(s.drop_last(), nl, hi) + if is_dyn(s.last(), nl, hi) {
            1nat
        } else {
            0nat
        }
    }
}

/// The dynamic registers of `s` are, in order, `base, base + 1, ...`.
pub open spec fn dyn_ok(s: Seq<Provider>, base: int, nl: int, hi: int) -> bool {
    forall|i: int|
        0 <= i < s.len() && is_dyn(#[trigger] s[i], nl, hi) ==> reg_index(s[i]) == base
            + count_dyn(s.take(i), nl, hi)
}

/// No register of `s` is negative (negative registers name constants,
/// which stand on the value stack as constants).
pub open spec fn regs_nonneg(s: Seq<Provider>) -> bool {
    forall|i: int| 0 <= i < s.len() ==> reg_ok(#[trigger] s[i])
}

/// A provider is a constant or a non-negative register.
pub open spec fn reg_ok(p: Provider) -> bool {
    match p {
        Provider::Register(r) => r.0 >= 0,
        Provider::Const(_) => true,
    }
}

pub proof fn lemma_count_dyn_push(s: Seq<Provider>, p: Provider, nl: int, hi: int)
    ensures
        count_dyn(s.push(p), nl, hi) == count_dyn(s, nl, hi) + if is_dyn(p, nl, hi) {
            1nat
        } else {
            0nat
        },
{
    assert(s.push(p).drop_last() =~= s);
}

pub proof fn lemma_dyn_ok_push(s: Seq<Provider>, p: Provider, base: int, nl: int, hi: int)
    requires
        dyn_ok(s, base, nl, hi),
        is_dyn(p, nl, hi) ==> reg_index(p) == base + count_dyn(s, nl, hi),
    ensures
        dyn_ok(s.push(p), base, nl, hi),
{
    let t = s.push(p);
    assert forall|i: int| 0 <= i < t.len() && is_dyn(#[trigger] t[i], nl, hi) implies reg_index(
        t[i],
    ) == base + count_dyn(t.take(i), nl, hi) by {
        if i < s.len() {
            assert(t.take(i) =~= s.take(i));
            assert(t[i] == s[i]);
        } else {
            assert(t.take(i) =~= s);
        }
    }
}

pub proof fn lemma_dyn_ok_take(s: Seq<Provider>, n: int, base: int, nl: int, hi: int)
    requires
        dyn_ok(s, base, nl, hi),
        0 <= n <= s.len(),
    ensures
        dyn_ok(s.take(n), base, nl, hi),
{
    let t = s.take(n);
    assert forall|i: int| 0 <= i < t.len() && is_dyn(#[trigger] t[i], nl, hi) implies reg_index(
        t[i],
    ) == base + count_dyn(t.take(i), nl, hi) by {
        assert(t.take(i) =~= s.take(i));
        assert(t[i] == s[i]);
    }
}

/// Popping the top provider: the rest keeps the discipline, and a dynamic
/// top is the register that follows the dynamic registers below it.
pub proof fn lemma_dyn_ok_pop(s: Seq<Provider>, base: int, nl: int, hi: int)
    requires
        dyn_ok(s, base, nl, hi),
        s.len() > 0,
    ensures
        dyn_ok(s.drop_last(), base, nl, hi),
        count_dyn(s, nl, hi) == count_dyn(s.drop_last(), nl, hi) + if is_dyn(s.last(), nl, hi) {
            1nat
        } else {
            0nat
        },
        is_dyn(s.last(), nl, hi) ==> reg_index(s.last()) == base + count_dyn(
            s.drop_last(),
            nl,
            hi,
        ),
{
    lemma_dyn_ok_take(s, s.len() - 1, base, nl, hi);
    assert(s.take(s.len() - 1) =~= s.drop_last());
    assert(s[s.len() - 1] == s.last());
}

/// Two sequences agree on their dynamic registers (possibly under different
/// upper bounds): the same positions are dynamic, with the same registers.
pub open spec fn same_dyn(s: Seq<Provider>, t: Seq<Provider>, nl: int, hi1: int, hi2: int) -> bool {
    &&& s.len() == t.len()
    &&& forall|i: int|
        0 <= i < s.len() ==> (is_dyn(#[trigger] s[i], nl, hi1) == is_dyn(t[i], nl, hi2) && (
        is_dyn(s[i], nl, hi1) ==> reg_index(s[i]) == reg_index(t[i])))
}

/// Sequences that agree on their dynamic registers have the same count and
/// the same discipline, on every prefix.
pub proof fn lemma_same_dyn(s: Seq<Provider>, t: Seq<Provider>, base: int, nl: int, hi1: int, hi2: int)
    requires
        same_dyn(s, t, nl, hi1, hi2),
    ensures
        count_dyn(s, nl, hi1) == count_dyn(t, nl, hi2),
        forall|k: int|
            0 <= k <= s.len() ==> count_dyn(#[trigger] s.take(k), nl, hi1) == count_dyn(
                t.take(k),
                nl,
                hi2,
            ),
        dyn_ok(s, base, nl, hi1) ==> dyn_ok(t, base, nl, hi2),
    decreases s.len(),
{
    if s.len() > 0 {
        let s0 = s.drop_last();
        let t0 = t.drop_last();
        assert(same_dyn(s0, t0, nl, hi1, hi2)) by {
            assert forall|i: int| 0 <= i < s0.len() implies (is_dyn(#[trigger] s0[i], nl, hi1)
                == is_dyn(t0[i], nl, hi2) && (is_dyn(s0[i], nl, hi1) ==> reg_index(s0[i])
                == reg_index(t0[i]))) by {
                assert(s0[i] == s[i]);
                assert(t0[i] == t[i]);
            }
        }
        lemma_same_dyn(s0, t0, base, nl, hi1, hi2);
        assert(s[s.len() - 1] == s.last());
        assert(t[t.len() - 1] == t.last());
        assert forall|k: int| 0 <= k <= s.len() implies count_dyn(#[trigger] s.take(k), nl, hi1)
            == count_dyn(t.take(k), nl, hi2) by {
            if k == s.len() {
                assert(s.take(k) =~= s);
                assert(t.take(k) =~= t);
            } else {
                assert(s.take(k) =~= s0.take(k));
                assert(t.take(k) =~= t0.take(k));
            }
        }
        if dyn_ok(s, base, nl, hi1) {
            assert forall|i: int| 0 <= i < t.len() && is_dyn(#[trigger] t[i], nl, hi2) implies reg_index(
                t[i],
            ) == base + count_dyn(t.take(i), nl, hi2) by {
                assert(is_dyn(s[i], nl, hi1));
            }
        }
    } else {
        assert forall|k: int| 0 <= k <= s.len() implies count_dyn(#[trigger] s.take(k), nl, hi1)
            == count_dyn(t.take(k), nl, hi2) by {
            assert(s.take(k) =~= s);
            assert(t.take(k) =~= t);
        }
    }
}

/// The dynamic registers of `s` are below `base + count_dyn(s)`.
pub proof fn lemma_dyn_below(s: Seq<Provider>, base: int, nl: int, hi: int, i: int)
    requires
        dyn_ok(s, base, nl, hi),
        0 <= i < s.len(),
        is_dyn(s[i], nl, hi),
    ensures
        base <= reg_index(s[i]) < base + count_dyn(s, nl, hi),
    decreases s.len(),
{
    let s0 = s.drop_last();
    lemma_dyn_ok_pop(s, base, nl, hi);
    if i < s.len() - 1 {
        assert(s0[i] == s[i]);
        lemma_dyn_below(s0, base, nl, hi, i);
    } else {
        assert(s[i] == s.last());
    }
}

/// The `i`-th of `n` consecutive dynamic registers starting at `first`.
pub open spec fn dyn_span(first: int, n: nat) -> Seq<Provider> {
    Seq::new(n, |i: int| Provider::Register(Reg((first + i) as i16)))
}

/// `n` consecutive registers starting at `base` keep the discipline.
pub proof fn lemma_dyn_span(first: int, n: nat, nl: int, hi: int)
    requires
        0 <= nl <= first,
        first + n <= hi,
        hi <= 0x8000,
    ensures
        dyn_ok(dyn_span(first, n), first, nl, hi),
        count_dyn(dyn_span(first, n), nl, hi) == n,
    decreases n,
{
    if n > 0 {
        let s = dyn_span(first, n);
        let s0 = dyn_span(first, (n - 1) as nat);
        lemma_dyn_span(first, (n - 1) as nat, nl, hi);
        assert(s0.push(s.last()) =~= s);
        assert(s.last() == Provider::Register(Reg((first + n - 1) as i16)));
        assert(((first + n - 1) as i16) as int == first + n - 1);
        assert(is_dyn(s.last(), nl, hi));
        lemma_count_dyn_push(s0, s.last(), nl, hi);
        lemma_dyn_ok_push(s0, s.last(), first, nl, hi);
    } else {
        assert(dyn_span(first, n) =~= Seq::<Provider>::empty());
    }
}

/// A prefix has no more dynamic registers than the whole.
pub proof fn lemma_count_take_le(s: Seq<Provider>, k: int, nl: int, hi: int)
    requires
        0 <= k <= s.len(),
    ensures
        count_dyn(s.take(k), nl, hi) <= count_dyn(s, nl, hi),
    decreases s.len() - k,
{
    if k < s.len() {
        lemma_count_take_le(s, k + 1, nl, hi);
        assert(s.take(k + 1).drop_last() =~= s.take(k));
    } else {
        assert(s.take(k) =~= s);
    }
}

/// The providers above height `h` keep the discipline, starting where the
/// providers below `h` end.
pub proof fn lemma_dyn_ok_suffix(s: Seq<Provider>, h: int, base: int, nl: int, hi: int)
    requires
        dyn_ok(s, base, nl, hi),
        0 <= h <= s.len(),
    ensures
        dyn_ok(s.subrange(h, s.len() as int), base + count_dyn(s.take(h), nl, hi), nl, hi),
        count_dyn(s, nl, hi) == count_dyn(s.take(h), nl, hi) + count_dyn(s.subrange(h, s.len() as int), nl, hi),
    decreases s.len() - h,
{
    if s.len() == h {
        assert(s.subrange(h, s.len() as int) =~= Seq::<Provider>::empty());
        assert(s.take(h) =~= s);
    } else {
        let s0 = s.drop_last();
        lemma_dyn_ok_pop(s, base, nl, hi);
        lemma_dyn_ok_suffix(s0, h, base, nl, hi);
        assert(s0.take(h) =~= s.take(h));
        let sub0 = s0.subrange(h, s0.len() as int);
        let sub = s.subrange(h, s.len() as int);
        assert(sub =~= sub0.push(s.last()));
        lemma_count_dyn_push(sub0, s.last(), nl, hi);
        lemma_dyn_ok_push(sub0, s.last(), base + count_dyn(s.take(h), nl, hi), nl, hi);
    }
}

} // verus!
