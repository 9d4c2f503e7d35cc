//! Small text helpers: decimal numerals and separator-joined lists.

use vstd::prelude::*;
use vstd::string::StringExecFns;

verus! {

/// The views of a list of strings.
pub open spec fn views(labels: Seq<String>) -> Seq<Seq<char>> {
    labels.map_values(|label: String| label@)
}

/// The character that stands for a digit below ten.
pub open spec fn digit(d: nat) -> char {
    if d == 0 {
        '0'
    } else if d == 1 {
        '1'
    } else if d == 2 {
        '2'
    } else if d == 3 {
        '3'
    } else if d == 4 {
        '4'
    } else if d == 5 {
        '5'
    } else if d == 6 {
        '6'
    } else if d == 7 {
        '7'
    } else if d == 8 {
        '8'
    } else {
        '9'
    }
}

/// The decimal numeral of a natural number, without leading zeros.
pub open spec fn decimal_nat(n: nat) -> Seq<char>
    decreases n,
{
    if n < 10 {
        seq![digit(n)]
    } else {
        decimal_nat(n / 10).push(digit(n % 10))
    }
}

/// The decimal numeral of an integer, with a minus sign where it is negative.
pub open spec fn decimal(n: int) -> Seq<char> {
    if n < 0 {
        seq!['-'] + decimal_nat((-n) as nat)
    } else {
        decimal_nat(n as nat)
    }
}

/// The parts in order, with `sep` between each two neighbours.
pub open spec fn joined(parts: Seq<Seq<char>>, sep: Seq<char>) -> Seq<char>
    decreases parts.len(),
{
    if parts.len() == 0 {
        Seq::empty()
    } else if parts.len() == 1 {
        parts[0]
    } else {
        joined(parts.drop_last(), sep) + sep + parts.last()
    }
}

/// Filtering one element more either appends that element or changes nothing.
pub proof fn lemma_filter_take_next<A>(all: Seq<A>, i: int, pred: spec_fn(A) -> bool)
    requires
        0 <= i < all.len(),
    ensures
        all.take(i + 1).filter(pred) == if pred(all[i]) {
            all.take(i).filter(pred).push(all[i])
        } else {
            all.take(i).filter(pred)
        },
{
    let one = seq![all[i]];
    assert(all.take(i + 1) =~= all.take(i) + one);
    Seq::filter_distributes_over_add(all.take(i), one, pred);
    reveal_with_fuel(Seq::filter, 2);
    assert(one.drop_last() =~= Seq::<A>::empty());
    if pred(all[i]) {
        assert(one.filter(pred) =~= one);
        assert(all.take(i).filter(pred) + one =~= all.take(i).filter(pred).push(all[i]));
    } else {
        assert(one.filter(pred) =~= Seq::<A>::empty());
        assert(all.take(i).filter(pred) + Seq::<A>::empty() =~= all.take(i).filter(pred));
    }
}

/// Filtering a list without repetitions leaves no repetitions, and keeps as
/// many elements as the set of the list's elements has that pass the filter.
pub proof fn lemma_filter_of_distinct<A>(all: Seq<A>, pred: spec_fn(A) -> bool)
    requires
        all.no_duplicates(),
    ensures
        all.filter(pred).no_duplicates(),
        all.filter(pred).to_set() == all.to_set().filter(pred),
        all.filter(pred).len() == all.to_set().filter(pred).len(),
    decreases all.len(),
{
    broadcast use vstd::seq_lib::group_filter_ensures;

    let kept = all.filter(pred);
    reveal(Seq::filter);
    if all.len() > 0 {
        let rest = all.drop_last();
        assert forall|i: int, j: int| 0 <= i < rest.len() && 0 <= j < rest.len() && i != j implies rest[i]
            != rest[j] by {
            assert(all[i] != all[j]);
        }
        lemma_filter_of_distinct(rest, pred);
        if pred(all.last()) {
            let before = rest.filter(pred);
            assert(kept == before.push(all.last()));
            assert forall|i: int| 0 <= i < before.len() implies before[i] != all.last() by {
                assert(before.contains(before[i]));
                rest.lemma_filter_contains_rev(pred, before[i]);
                let j = choose|j: int| 0 <= j < rest.len() && rest[j] == before[i];
                assert(all[j] != all[all.len() - 1]);
            }
            assert forall|i: int, j: int| 0 <= i < kept.len() && 0 <= j < kept.len() && i != j implies kept[i]
                != kept[j] by {
                if i < before.len() && j < before.len() {
                    assert(before[i] != before[j]);
                }
            }
        }
    }
    assert forall|x: A| kept.to_set().contains(x) <==> all.to_set().filter(pred).contains(x) by {
        if kept.contains(x) {
            all.lemma_filter_contains_rev(pred, x);
            let i = choose|i: int| 0 <= i < kept.len() && kept[i] == x;
            assert(pred(kept[i]));
        }
        if all.contains(x) && pred(x) {
            let i = choose|i: int| 0 <= i < all.len() && all[i] == x;
            assert(kept.contains(all[i]));
        }
    }
    assert(kept.to_set() =~= all.to_set().filter(pred));
    kept.unique_seq_to_set();
}

fn digit_text(d: u64) -> (text: &'static str)
    requires
        d < 10,
    ensures
        text@ == seq![digit(d as nat)],
{
    proof {
        reveal_strlit("0");
        reveal_strlit("1");
        reveal_strlit("2");
        reveal_strlit("3");
        reveal_strlit("4");
        reveal_strlit("5");
        reveal_strlit("6");
        reveal_strlit("7");
        reveal_strlit("8");
        reveal_strlit("9");
    }
    let text = if d == 0 {
        "0"
    } else if d == 1 {
        "1"
    } else if d == 2 {
        "2"
    } else if d == 3 {
        "3"
    } else if d == 4 {
        "4"
    } else if d == 5 {
        "5"
    } else if d == 6 {
        "6"
    } else if d == 7 {
        "7"
    } else if d == 8 {
        "8"
    } else {
        "9"
    };
    assert(text@ =~= seq![digit(d as nat)]);
    text
}

/// Writes a number in decimal.
pub fn unsigned_to_string(n: u64) -> (text: String)
    ensures
        text@ == decimal_nat(n as nat),
    decreases n,
{
    if n < 10 {
        String::from_str(digit_text(n))
    } else {
        let mut text = unsigned_to_string(n / 10);
        text.append(digit_text(n % 10));
        assert(text@ =~= decimal_nat(n as nat));
        text
    }
}

/// Writes a number in decimal, with a leading `-` where it is negative.
pub fn signed_to_string(n: i32) -> (text: String)
    ensures
        text@ == decimal(n as int),
{
    if n < 0 {
        let magnitude: u64 = (-(n as i64)) as u64;
        let digits = unsigned_to_string(magnitude);
        let mut text = String::from_str("-");
        text.append(digits.as_str());
        proof {
            reveal_strlit("-");
            assert(text@ =~= decimal(n as int));
        }
        text
    } else {
        unsigned_to_string(n as u64)
    }
}

/// Joins the parts with `sep` between each two neighbours.
pub fn join(parts: &Vec<String>, sep: &str) -> (text: String)
    ensures
        text@ == joined(views(parts@), sep@),
{
    let mut text = String::new();
    let mut i: usize = 0;
    while i < parts.len()
        invariant
            i <= parts.len(),
            text@ == joined(views(parts@).take(i as int), sep@),
        decreases parts.len() - i,
    {
        proof {
            let before = views(parts@).take(i as int);
            let after = views(parts@).take(i + 1);
            assert(after.drop_last() =~= before);
            assert(after.last() == parts@[i as int]@);
            if i > 0 {
                assert(joined(after, sep@) == joined(before, sep@) + sep@ + parts@[i as int]@);
            } else {
                assert(joined(after, sep@) == parts@[i as int]@);
            }
        }
        if i > 0 {
            text.append(sep);
        }
        text.append(parts[i].as_str());
        proof {
            assert(text@ =~= joined(views(parts@).take(i + 1), sep@));
        }
        i += 1;
    }
    assert(views(parts@).take(i as int) =~= views(parts@));
    text
}

} // verus!
