//! What holds of every grammar that compiles.

use vstd::prelude::*;
use crate::args::{
    check_order, classify, compile, first_misplaced, has_key, scan, valid_key, variadic_keys,
    ArgKind, Grammar, GrammarError, Slot,
};
use crate::text::{lemma_trimmed_idempotent, trimmed};

verus! {

/// A variadic slot stands nowhere but in the last position.
pub open spec fn variadic_only_last(slots: Seq<Slot>) -> bool {
    forall|i: int|
        0 <= i < slots.len() && (#[trigger] slots[i]).kind == ArgKind::Variadic ==> i
            == slots.len() - 1
}

/// No optional slot stands before a required slot.
pub open spec fn no_optional_before_required(slots: Seq<Slot>) -> bool {
    forall|i: int, j: int|
        0 <= i < j < slots.len() ==> !((#[trigger] slots[i]).kind == ArgKind::Optional && (
        #[trigger] slots[j]).kind == ArgKind::Required)
}

/// No two slots have the same key.
pub open spec fn distinct_keys(slots: Seq<Slot>) -> bool {
    forall|i: int, j: int|
        0 <= i < j < slots.len() ==> (#[trigger] slots[i]).key != (#[trigger] slots[j]).key
}

/// Every key is valid.
pub open spec fn valid_keys(slots: Seq<Slot>) -> bool {
    forall|i: int| 0 <= i < slots.len() ==> valid_key((#[trigger] slots[i]).key)
}

/// The invariant of a grammar: at most one variadic slot, which is then the
/// last; no optional slot before a required one; distinct and valid keys.
pub open spec fn well_formed(g: Grammar) -> bool {
    &&& variadic_only_last(g.slots)
    &&& no_optional_before_required(g.slots)
    &&& distinct_keys(g.slots)
    &&& valid_keys(g.slots)
}

/// Whether the slot at `k` stands where it may not: it is optional and
/// right before a required slot, or variadic and not the last.
pub open spec fn misplaced_at(slots: Seq<Slot>, k: int) -> bool {
    &&& 0 <= k
    &&& k + 1 < slots.len()
    &&& (slots[k].kind == ArgKind::Optional && slots[k + 1].kind == ArgKind::Required)
        || slots[k].kind == ArgKind::Variadic
}

/// `first_misplaced` finds the first slot from `from` on that is
/// misplaced, and names its key.
proof fn lemma_first_misplaced(slots: Seq<Slot>, from: int)
    requires
        0 <= from,
    ensures
        first_misplaced(slots, from) is None <==> forall|k: int|
            from <= k ==> !#[trigger] misplaced_at(slots, k),
        match first_misplaced(slots, from) {
            Some(GrammarError::OptionalBeforeRequired { key }) => exists|k: int|
                from <= k && #[trigger] misplaced_at(slots, k) && slots[k].kind
                    == ArgKind::Optional && slots[k].key == key,
            Some(GrammarError::VariadicNotInTail { key }) => exists|k: int|
                from <= k && #[trigger] misplaced_at(slots, k) && slots[k].kind
                    == ArgKind::Variadic && slots[k].key == key,
            Some(_) => false,
            None => true,
        },
    decreases slots.len() - from,
{
    if from < slots.len() {
        lemma_first_misplaced(slots, from + 1);
        if !misplaced_at(slots, from) && first_misplaced(slots, from + 1) is None {
            assert forall|k: int| from <= k implies !#[trigger] misplaced_at(slots, k) by {
                if k > from {
                    assert(from + 1 <= k);
                }
            }
        }
    }
}

/// Where no slot is misplaced, no optional slot stands anywhere before a
/// required one.
proof fn lemma_no_optional_before(slots: Seq<Slot>, i: int, j: int)
    requires
        0 <= i < j < slots.len(),
        forall|k: int| 0 <= k ==> !#[trigger] misplaced_at(slots, k),
    ensures
        !(slots[i].kind == ArgKind::Optional && slots[j].kind == ArgKind::Required),
    decreases j - i,
{
    if slots[i].kind == ArgKind::Optional && slots[j].kind == ArgKind::Required {
        assert(!misplaced_at(slots, i));
        if i + 1 < j {
            assert(!misplaced_at(slots, i + 1));
            if slots[i + 1].kind == ArgKind::Optional {
                lemma_no_optional_before(slots, i + 1, j);
            }
        }
    }
}

/// Slots without a variadic one but perhaps the last have at most one
/// variadic key.
proof fn lemma_variadic_keys_count(slots: Seq<Slot>)
    ensures
        (forall|i: int| 0 <= i < slots.len() ==> (#[trigger] slots[i]).kind != ArgKind::Variadic)
            ==> variadic_keys(slots).len() == 0,
        variadic_only_last(slots) ==> variadic_keys(slots).len() <= 1,
        forall|i: int, j: int|
            0 <= i < j < slots.len() && (#[trigger] slots[i]).kind == ArgKind::Variadic && (
            #[trigger] slots[j]).kind == ArgKind::Variadic ==> variadic_keys(slots).len() > 1,
        (exists|i: int| 0 <= i < slots.len() && (#[trigger] slots[i]).kind == ArgKind::Variadic)
            ==> variadic_keys(slots).len() > 0,
    decreases slots.len(),
{
    if slots.len() > 0 {
        let front = slots.drop_last();
        lemma_variadic_keys_count(front);
        assert(forall|i: int| 0 <= i < front.len() ==> front[i] == slots[i]);
        if variadic_only_last(slots) {
            assert forall|i: int| 0 <= i < front.len() implies (#[trigger] front[i]).kind
                != ArgKind::Variadic by {
                assert(slots[i].kind != ArgKind::Variadic);
            }
        }
        assert forall|i: int, j: int|
            0 <= i < j < slots.len() && (#[trigger] slots[i]).kind == ArgKind::Variadic && (
            #[trigger] slots[j]).kind == ArgKind::Variadic implies variadic_keys(slots).len()
            > 1 by {
            assert(front[i].kind == ArgKind::Variadic);
            if j < front.len() {
                assert(front[j].kind == ArgKind::Variadic);
            }
        }
        if exists|i: int| 0 <= i < slots.len() && (#[trigger] slots[i]).kind == ArgKind::Variadic {
            let i = choose|i: int|
                0 <= i < slots.len() && (#[trigger] slots[i]).kind == ArgKind::Variadic;
            if i < front.len() {
                assert(front[i].kind == ArgKind::Variadic);
            }
        }
    }
}

/// The order of the slots is accepted exactly if a variadic slot stands
/// only in the last position and no optional slot stands before a required
/// one.
pub proof fn lemma_check_order(slots: Seq<Slot>)
    ensures
        check_order(slots) is None <==> variadic_only_last(slots) && no_optional_before_required(
            slots,
        ),
{
    lemma_first_misplaced(slots, 0);
    lemma_variadic_keys_count(slots);
    if check_order(slots) is None {
        assert forall|i: int, j: int| 0 <= i < j < slots.len() implies !((
        #[trigger] slots[i]).kind == ArgKind::Optional && (#[trigger] slots[j]).kind
            == ArgKind::Required) by {
            lemma_no_optional_before(slots, i, j);
        }
        assert forall|i: int|
            0 <= i < slots.len() && (#[trigger] slots[i]).kind == ArgKind::Variadic implies i
            == slots.len() - 1 by {
            assert(!misplaced_at(slots, i));
        }
    }
    if variadic_only_last(slots) && no_optional_before_required(slots) {
        assert forall|k: int| 0 <= k implies !#[trigger] misplaced_at(slots, k) by {
            if k + 1 < slots.len() {
                assert(slots[k].kind != ArgKind::Variadic);
                assert(!(slots[k].kind == ArgKind::Optional && slots[k + 1].kind
                    == ArgKind::Required));
            }
        }
    }
}

/// A variadic slot is accepted only in the last position, and so at most
/// once. Slots that break this are refused, and the error names a slot at
/// fault: every variadic key where there are several; else the key of the
/// first misplaced slot, which is the variadic slot that is not the last
/// unless an optional slot right before a required one is met first.
pub proof fn law_variadic_last_and_once(slots: Seq<Slot>)
    ensures
        check_order(slots) is None ==> variadic_only_last(slots),
        !variadic_only_last(slots) ==> match check_order(slots) {
            Some(GrammarError::MultipleVariadic { keys }) => keys == variadic_keys(slots)
                && keys.len() > 1,
            Some(GrammarError::VariadicNotInTail { key }) => exists|k: int|
                #[trigger] misplaced_at(slots, k) && slots[k].kind == ArgKind::Variadic
                    && slots[k].key == key,
            Some(GrammarError::OptionalBeforeRequired { key }) => exists|k: int|
                #[trigger] misplaced_at(slots, k) && slots[k].kind == ArgKind::Optional
                    && slots[k].key == key,
            _ => false,
        },
{
    lemma_check_order(slots);
    lemma_first_misplaced(slots, 0);
}

/// No optional slot may stand before a required slot: slots that break
/// this are refused.
pub proof fn law_no_optional_before_required(slots: Seq<Slot>)
    ensures
        check_order(slots) is None ==> no_optional_before_required(slots),
        !no_optional_before_required(slots) ==> check_order(slots) is Some,
{
    lemma_check_order(slots);
}

/// The slots that a scan accepts have distinct, valid keys.
pub proof fn lemma_scan_keys(tokens: Seq<Seq<char>>)
    ensures
        scan(tokens) matches Ok(slots) ==> distinct_keys(slots) && valid_keys(slots),
    decreases tokens.len(),
{
    if tokens.len() > 0 {
        lemma_scan_keys(tokens.drop_last());
        if let Ok(front) = scan(tokens.drop_last()) {
            if let Some(slot) = classify(tokens.last()) {
                if !has_key(front, slot.key) && valid_key(slot.key) {
                    let slots = front.push(slot);
                    assert forall|i: int, j: int| 0 <= i < j < slots.len() implies (
                    #[trigger] slots[i]).key != (#[trigger] slots[j]).key by {
                        if j == front.len() {
                            assert(front[i].key != slot.key);
                        } else {
                            assert(front[i].key != front[j].key);
                        }
                    }
                    assert forall|i: int| 0 <= i < slots.len() implies valid_key(
                        (#[trigger] slots[i]).key,
                    ) by {
                        if i < front.len() {
                            assert(valid_key(front[i].key));
                        }
                    }
                }
            }
        }
    }
}

/// Every grammar that compiles is well formed.
pub proof fn law_compiled_is_well_formed(input: Seq<char>)
    ensures
        compile(input) matches Ok(g) ==> well_formed(g),
{
    let usage = trimmed(input);
    lemma_scan_keys(crate::text::words(usage));
    if let Ok(slots) = scan(crate::text::words(usage)) {
        lemma_check_order(slots);
    }
}

/// A grammar keeps the usage string it was compiled from, trimmed; and
/// that text compiles to the same grammar again.
pub proof fn law_usage_round_trip(input: Seq<char>)
    ensures
        compile(input) matches Ok(g) ==> g.usage == trimmed(input) && compile(g.usage) == Ok::<
            Grammar,
            GrammarError,
        >(g),
        compile(input) is Ok && trimmed(input) == input ==> compile(input)->Ok_0.usage == input,
{
    lemma_trimmed_idempotent(input);
}

} // verus!
