//! Summing the kerning of a glyph pair over the subtables of a `kern` table.
use vstd::prelude::*;

verus! {

/// What a `kern` subtable holds for one pair of glyphs.
#[derive(Clone, Copy, PartialEq, Eq, Debug, Structural)]
pub struct KernSubtable {
    /// The subtable is for horizontal text.
    pub horizontal: bool,
    /// The subtable has cross-stream values.
    pub has_cross_stream: bool,
    /// The subtable uses a state machine.
    pub has_state_machine: bool,
    /// The subtable's kerning for the pair, if it has one.
    pub kerning: Option<i16>,
}

/// Only horizontal subtables without cross-stream values or a state machine
/// are used.
pub open spec fn kern_applies(s: KernSubtable) -> bool {
    s.horizontal && !s.has_cross_stream && !s.has_state_machine
}

/// What one subtable adds to the pair's kerning.
pub open spec fn kern_contribution(s: KernSubtable) -> int {
    if kern_applies(s) {
        match s.kerning {
            Some(v) => v as int,
            None => 0,
        }
    } else {
        0
    }
}

/// The sum of the contributions of the subtables, in order.
pub open spec fn kern_sum(s: Seq<KernSubtable>) -> int
    decreases s.len(),
{
    if s.len() == 0 {
        0
    } else {
        kern_sum(s.drop_last()) + kern_contribution(s.last())
    }
}

/// Every running total of the contributions fits in an `i16`.
pub open spec fn kern_fits(s: Seq<KernSubtable>) -> bool {
    forall|k: int| 0 <= k <= s.len() ==> i16::MIN <= #[trigger] kern_sum(s.take(k)) <= i16::MAX
}

/// Some subtable that applies has a kerning value for the pair.
pub open spec fn kern_has_value(s: Seq<KernSubtable>) -> bool {
    exists|i: int| 0 <= i < s.len() && kern_applies(#[trigger] s[i]) && s[i].kerning is Some
}

/// The kerning of the pair: the sum of the values of the subtables that
/// apply, present when at least one of them has a value and every running
/// total fits in an `i16`.
pub open spec fn kern_total(s: Seq<KernSubtable>) -> Option<i16> {
    if kern_has_value(s) && kern_fits(s) {
        Some(kern_sum(s) as i16)
    } else {
        None
    }
}

/// Sums the kerning values of the subtables that apply, in order.
///
/// Returns `None` when no subtable that applies has a value for the pair, or
/// when a running total leaves the range of `i16`.
pub fn combine_kerning(subtables: &Vec<KernSubtable>) -> (r: Option<i16>)
    ensures
        r == kern_total(subtables@),
{
    let n = subtables.len();
    let mut total: i16 = 0;
    let mut found = false;
    assert(subtables@.take(0) =~= Seq::<KernSubtable>::empty());
    for i in 0..n
        invariant
            n == subtables@.len(),
            found <==> exists|j: int| 0 <= j < i && kern_applies(#[trigger] subtables@[j]) && subtables@[j].kerning is Some,
            total as int == kern_sum(subtables@.take(i as int)),
            forall|k: int| 0 <= k <= i ==> i16::MIN <= #[trigger] kern_sum(subtables@.take(k)) <= i16::MAX,
    {
        let s = subtables[i];
        assert(subtables@.take(i + 1).drop_last() =~= subtables@.take(i as int));
        assert(subtables@.take(i + 1).last() == s);
        if s.horizontal && !s.has_cross_stream && !s.has_state_machine {
            match s.kerning {
                Some(v) => {
                    let next: i32 = total as i32 + v as i32;
                    if next < -32768 || next > 32767 {
                        assert(!kern_fits(subtables@)) by {
                            assert(kern_sum(subtables@.take(i + 1)) == next);
                        }
                        return None;
                    }
                    total = next as i16;
                    found = true;
                },
                None => {},
            }
        }
    }
    assert(subtables@.take(n as int) =~= subtables@);
    if found {
        Some(total)
    } else {
        None
    }
}

} // verus!

verus! {

/// How adding one subtable at the end changes the sum, the running totals
/// and whether a value is present.
proof fn lemma_kern_push(s: Seq<KernSubtable>, t: KernSubtable)
    ensures
        kern_sum(s.push(t)) == kern_sum(s) + kern_contribution(t),
        kern_fits(s.push(t)) <==> (kern_fits(s) && i16::MIN <= kern_sum(s.push(t)) <= i16::MAX),
        kern_has_value(s.push(t)) <==> (kern_has_value(s) || (kern_applies(t) && t.kerning is Some)),
{
    let u = s.push(t);
    assert(u.drop_last() =~= s);
    assert(u.last() == t);
    assert forall|k: int| 0 <= k <= s.len() implies #[trigger] u.take(k) == s.take(k) by {
        assert(u.take(k) =~= s.take(k));
    }
    assert(u.take(u.len() as int) =~= u);
    if kern_fits(u) {
        assert forall|k: int| 0 <= k <= s.len() implies i16::MIN <= #[trigger] kern_sum(s.take(k)) <= i16::MAX by {
            assert(u.take(k) == s.take(k));
        }
    }
    if kern_fits(s) && i16::MIN <= kern_sum(u) <= i16::MAX {
        assert forall|k: int| 0 <= k <= u.len() implies i16::MIN <= #[trigger] kern_sum(u.take(k)) <= i16::MAX by {
            if k <= s.len() {
                assert(u.take(k) == s.take(k));
            }
        }
    }
    if kern_has_value(u) {
        let i = choose|i: int| 0 <= i < u.len() && kern_applies(#[trigger] u[i]) && u[i].kerning is Some;
        if i < s.len() {
            assert(u[i] == s[i]);
        }
    }
    if kern_has_value(s) {
        let i = choose|i: int| 0 <= i < s.len() && kern_applies(#[trigger] s[i]) && s[i].kerning is Some;
        assert(u[i] == s[i]);
    }
    if kern_applies(t) && t.kerning is Some {
        assert(u[s.len() as int] == t);
    }
}

/// Subtables none of which has a value add up to zero, and every running
/// total is zero.
proof fn lemma_kern_no_value(s: Seq<KernSubtable>)
    requires
        !kern_has_value(s),
    ensures
        kern_sum(s) == 0,
        kern_fits(s),
    decreases s.len(),
{
    if s.len() == 0 {
        assert forall|k: int| 0 <= k <= s.len() implies i16::MIN <= #[trigger] kern_sum(s.take(k)) <= i16::MAX by {
            assert(s.take(k) =~= Seq::<KernSubtable>::empty());
        }
    } else {
        let p = s.drop_last();
        let t = s.last();
        assert(p.push(t) =~= s);
        lemma_kern_push(p, t);
        lemma_kern_no_value(p);
    }
}

/// A pair without any subtable has no kerning.
pub proof fn law_kern_empty()
    ensures
        kern_total(Seq::<KernSubtable>::empty()) is None,
{
}

/// A subtable that has no value for the pair, or that does not apply, never
/// changes the pair's kerning, wherever it stands after the others.
pub proof fn law_kern_ignores_valueless(s: Seq<KernSubtable>, t: KernSubtable)
    requires
        t.kerning is None || !kern_applies(t),
    ensures
        kern_total(s.push(t)) == kern_total(s),
{
    lemma_kern_push(s, t);
    if kern_fits(s) {
        assert(s.take(s.len() as int) =~= s);
    }
}

/// The first value found for the pair is its kerning.
pub proof fn law_kern_first_value(s: Seq<KernSubtable>, t: KernSubtable, v: i16)
    requires
        !kern_has_value(s),
        kern_applies(t),
        t.kerning == Some(v),
    ensures
        kern_total(s.push(t)) == Some(v),
{
    lemma_kern_no_value(s);
    lemma_kern_push(s, t);
}

/// A further value for the pair is added to the kerning found so far, as
/// long as the total stays in range; leaving the range gives no kerning.
pub proof fn law_kern_adds_value(s: Seq<KernSubtable>, t: KernSubtable, a: i16, v: i16)
    requires
        kern_total(s) == Some(a),
        kern_applies(t),
        t.kerning == Some(v),
    ensures
        i16::MIN <= a + v <= i16::MAX ==> kern_total(s.push(t)) == Some((a + v) as i16),
        !(i16::MIN <= a + v <= i16::MAX) ==> kern_total(s.push(t)) is None,
{
    lemma_kern_push(s, t);
    assert(s.take(s.len() as int) =~= s);
    assert(kern_sum(s) == a);
}

} // verus!
