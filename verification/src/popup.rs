//! Labels for the popup windows that sign-in flows open.

use vstd::prelude::*;
use crate::text::{decimal, digit_char, push_decimal, push_str, string_of};

verus! {

/// The source of popup window numbers; the first popup is number 1.
pub struct PopupCounter {
    next: usize,
}

impl PopupCounter {
    /// The number the next popup receives.
    pub closed spec fn next_id(&self) -> nat {
        self.next as nat
    }

    /// A popup number is a `usize`.
    pub proof fn next_id_is_bounded(&self)
        ensures
            self.next_id() <= usize::MAX,
    {
    }

    /// A counter whose first popup is number 1.
    pub fn new() -> (c: Self)
        ensures
            c.next_id() == 1,
    {
        PopupCounter { next: 1 }
    }
}

/// The label of popup number `id`: `popup-<id>`.
pub open spec fn popup_label(id: nat) -> Seq<char> {
    "popup-"@ + decimal(id)
}

/// The number after `id`, wrapping to 0 after `usize::MAX` as an atomic
/// `fetch_add` does.
pub open spec fn after(id: nat) -> nat {
    if id == usize::MAX {
        0
    } else {
        id + 1
    }
}

/// Takes the next popup number and returns its label.
pub fn next_popup_label(counter: &mut PopupCounter) -> (r: String)
    ensures
        r@ == popup_label(old(counter).next_id()),
        final(counter).next_id() == after(old(counter).next_id()),
{
    let id = counter.next;
    counter.next = if id == usize::MAX {
        0
    } else {
        id + 1
    };
    let mut out: Vec<char> = Vec::new();
    push_str(&mut out, "popup-");
    push_decimal(&mut out, id as u128);
    string_of(out.as_slice())
}

/// A decimal notation has one character for a number below 10, more for
/// any other.
proof fn lemma_decimal_len(n: nat)
    ensures
        n < 10 <==> decimal(n).len() == 1,
        decimal(n).len() >= 1,
    decreases n,
{
    if n >= 10 {
        lemma_decimal_len(n / 10);
    }
}

/// Different numbers have different decimal notations.
proof fn lemma_decimal_injective(a: nat, b: nat)
    requires
        decimal(a) == decimal(b),
    ensures
        a == b,
    decreases a,
{
    lemma_decimal_len(a);
    lemma_decimal_len(b);
    if a < 10 && b < 10 {
        assert(decimal(a)[0] == digit_char(a));
        assert(decimal(b)[0] == digit_char(b));
    } else if a >= 10 && b >= 10 {
        let pa = decimal(a / 10);
        let pb = decimal(b / 10);
        assert(decimal(a).last() == digit_char(a % 10));
        assert(decimal(b).last() == digit_char(b % 10));
        assert(decimal(a).drop_last() =~= pa);
        assert(decimal(b).drop_last() =~= pb);
        lemma_decimal_injective(a / 10, b / 10);
    }
}

/// Popups with different numbers have different labels, so no two popups
/// opened before the counter wraps share a window label.
pub proof fn popup_labels_distinct(a: nat, b: nat)
    requires
        a != b,
    ensures
        popup_label(a) != popup_label(b),
{
    if popup_label(a) == popup_label(b) {
        let p = "popup-"@;
        assert(popup_label(a).subrange(p.len() as int, popup_label(a).len() as int) =~= decimal(a));
        assert(popup_label(b).subrange(p.len() as int, popup_label(b).len() as int) =~= decimal(b));
        lemma_decimal_injective(a, b);
    }
}


/// The number of the popup opened `k` calls after the one numbered `start`.
pub open spec fn nth_id(start: nat, k: nat) -> nat
    decreases k,
{
    if k == 0 {
        start
    } else {
        after(nth_id(start, (k - 1) as nat))
    }
}

/// How many popup numbers there are before the counter comes round again.
pub open spec fn id_cycle() -> nat {
    usize::MAX as nat + 1
}

proof fn nth_id_is_mod(start: nat, k: nat)
    requires
        start <= usize::MAX,
    ensures
        nth_id(start, k) == (start + k) % id_cycle(),
    decreases k,
{
    if k == 0 {
        vstd::arithmetic::div_mod::lemma_small_mod(start, id_cycle());
    } else {
        nth_id_is_mod(start, (k - 1) as nat);
        let prev = nth_id(start, (k - 1) as nat);
        let m = id_cycle();
        vstd::arithmetic::div_mod::lemma_mod_add_multiples_vanish((start + k) as int, m as int);
        vstd::arithmetic::div_mod::lemma_add_mod_noop((start + k - 1) as int, 1, m as int);
        vstd::arithmetic::div_mod::lemma_small_mod(1, m);
        vstd::arithmetic::div_mod::lemma_mod_bound((start + k - 1) as int, m as int);
        if prev == usize::MAX {
            vstd::arithmetic::div_mod::lemma_mod_self_0(m as int);
        } else {
            vstd::arithmetic::div_mod::lemma_small_mod(prev + 1, m);
        }
    }
}

/// Any two of fewer than 2^64 (in general `usize::MAX + 1`) successive
/// popups get different labels: the calls numbered `i` and `j` after a
/// counter at `start` take different numbers, so different labels.
pub proof fn popup_labels_distinct_across_calls(start: nat, i: nat, j: nat)
    requires
        start <= usize::MAX,
        i < j,
        j - i < id_cycle(),
    ensures
        popup_label(nth_id(start, i)) != popup_label(nth_id(start, j)),
{
    nth_id_is_mod(start, i);
    nth_id_is_mod(start, j);
    let m = id_cycle() as int;
    let a = (start + i) as int;
    let b = (start + j) as int;
    if a % m == b % m {
        vstd::arithmetic::div_mod::lemma_fundamental_div_mod(a, m);
        vstd::arithmetic::div_mod::lemma_fundamental_div_mod(b, m);
        let qa = a / m;
        let qb = b / m;
        assert(b - a == m * (qb - qa)) by (nonlinear_arith)
            requires
                a == m * qa + a % m,
                b == m * qb + b % m,
                a % m == b % m,
        ;
        assert(false) by (nonlinear_arith)
            requires
                b - a == m * (qb - qa),
                0 < b - a < m,
        ;
    }
    popup_labels_distinct(nth_id(start, i), nth_id(start, j));
}

} // verus!
