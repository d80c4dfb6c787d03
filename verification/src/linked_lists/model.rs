//! The lists as mathematical sequences: what each operation returns and what
//! it leaves behind, stated on `Seq`.
//!
//! Two values count as equal where `eq_spec` of the element type says so; that
//! is what `==` computes for every type that obeys its specification.

use vstd::prelude::*;
use vstd::std_specs::cmp::PartialEqSpec;
use super::errors::Error;

verus! {

/// The position of the first element of `s` that equals `value`, or the length
/// of `s` where no element does.
pub open spec fn first_match<T: PartialEq>(s: Seq<T>, value: T) -> int
    decreases s.len(),
{
    if s.len() == 0 {
        0
    } else if s[0].eq_spec(&value) {
        0
    } else {
        1 + first_match(s.drop_first(), value)
    }
}

/// Some element of `s` equals `value`.
pub open spec fn has_match<T: PartialEq>(s: Seq<T>, value: T) -> bool {
    first_match(s, value) < s.len()
}

/// What a search for `value` reports.
pub open spec fn search_outcome<T: PartialEq>(s: Seq<T>, value: T) -> Result<bool, Error> {
    if s.len() == 0 {
        Err(Error::EmptyList)
    } else if has_match(s, value) {
        Ok(true)
    } else {
        Err(Error::ValueNotFound)
    }
}

/// `s` without its first element that equals `value`; `s` itself where there
/// is none.
pub open spec fn without_first<T: PartialEq>(s: Seq<T>, value: T) -> Seq<T> {
    if has_match(s, value) {
        s.remove(first_match(s, value))
    } else {
        s
    }
}

/// `s` with `new_value` in place of its first element that equals
/// `old_value`; `s` itself where there is none.
pub open spec fn with_first_replaced<T: PartialEq>(s: Seq<T>, old_value: T, new_value: T) -> Seq<
    T,
> {
    if has_match(s, old_value) {
        s.update(first_match(s, old_value), new_value)
    } else {
        s
    }
}

/// What taking the last element off `s` reports.
pub open spec fn pop_outcome<T>(s: Seq<T>) -> Result<Option<T>, Error> {
    if s.len() == 0 {
        Err(Error::EmptyList)
    } else {
        Ok(Some(s.last()))
    }
}

/// `s` without its last element; `s` itself where it is empty.
pub open spec fn without_last<T>(s: Seq<T>) -> Seq<T> {
    if s.len() == 0 {
        s
    } else {
        s.drop_last()
    }
}

/// What reading position `index` of `s` reports.
pub open spec fn get_outcome<T>(s: Seq<T>, index: int) -> Result<Option<T>, Error> {
    if s.len() == 0 {
        Err(Error::EmptyList)
    } else if 0 <= index < s.len() {
        Ok(Some(s[index]))
    } else {
        Err(Error::IndexOutOfBounds)
    }
}

/// `s` after each element of `values` was added behind its last element, one
/// after the other.
pub open spec fn appended_all<T>(s: Seq<T>, values: Seq<T>) -> Seq<T>
    decreases values.len(),
{
    if values.len() == 0 {
        s
    } else {
        appended_all(s.push(values[0]), values.drop_first())
    }
}

/// A call that may change the length of a list.
pub enum Step<T> {
    /// `append` or `insert` of a value.
    Append(T),
    /// `remove` of a value.
    Remove(T),
    /// `pop`.
    Pop,
}

/// `s` after `step`.
pub open spec fn after<T: PartialEq>(s: Seq<T>, step: Step<T>) -> Seq<T> {
    match step {
        Step::Append(value) => s.push(value),
        Step::Remove(value) => without_first(s, value),
        Step::Pop => without_last(s),
    }
}

/// `step` adds an element.
pub open spec fn adds<T>(step: Step<T>) -> bool {
    step is Append
}

/// `step` is a `remove` or a `pop` that succeeds on `s`.
pub open spec fn takes<T: PartialEq>(s: Seq<T>, step: Step<T>) -> bool {
    match step {
        Step::Append(_) => false,
        Step::Remove(value) => search_outcome(s, value) is Ok,
        Step::Pop => pop_outcome(s) is Ok,
    }
}

/// `s` after the steps of `steps`, in their order.
pub open spec fn after_all<T: PartialEq>(s: Seq<T>, steps: Seq<Step<T>>) -> Seq<T>
    decreases steps.len(),
{
    if steps.len() == 0 {
        s
    } else {
        after_all(after(s, steps[0]), steps.drop_first())
    }
}

/// How many of `steps` add an element.
pub open spec fn additions<T>(steps: Seq<Step<T>>) -> nat
    decreases steps.len(),
{
    if steps.len() == 0 {
        0
    } else {
        (if adds(steps[0]) {
            1nat
        } else {
            0nat
        }) + additions(steps.drop_first())
    }
}

/// How many of `steps` are a `remove` or a `pop` that succeeds, when they are
/// made on `s` in their order.
pub open spec fn removals<T: PartialEq>(s: Seq<T>, steps: Seq<Step<T>>) -> nat
    decreases steps.len(),
{
    if steps.len() == 0 {
        0
    } else {
        (if takes(s, steps[0]) {
            1nat
        } else {
            0nat
        }) + removals(after(s, steps[0]), steps.drop_first())
    }
}

/// `first_match` is the one position at which an equal element stands with
/// none before it, and the length where no such position exists.
pub proof fn lemma_first_match<T: PartialEq>(s: Seq<T>, value: T)
    ensures
        0 <= first_match(s, value) <= s.len(),
        forall|j: int| 0 <= j < first_match(s, value) ==> !(#[trigger] s[j]).eq_spec(&value),
        first_match(s, value) < s.len() ==> s[first_match(s, value)].eq_spec(&value),
    decreases s.len(),
{
    if s.len() > 0 && !s[0].eq_spec(&value) {
        let rest = s.drop_first();
        lemma_first_match(rest, value);
        assert forall|j: int| 0 <= j < first_match(s, value) implies !(#[trigger] s[j]).eq_spec(
            &value,
        ) by {
            if j > 0 {
                assert(s[j] == rest[j - 1]);
            }
        }
    }
}

/// A position `k` before which nothing equals `value`, and which is the length
/// or holds an equal element, is `first_match`.
pub proof fn lemma_first_match_is<T: PartialEq>(s: Seq<T>, value: T, k: int)
    requires
        0 <= k <= s.len(),
        forall|j: int| 0 <= j < k ==> !(#[trigger] s[j]).eq_spec(&value),
        k < s.len() ==> s[k].eq_spec(&value),
    ensures
        first_match(s, value) == k,
{
    lemma_first_match(s, value);
    let f = first_match(s, value);
    if f < k {
        assert(!s[f].eq_spec(&value));
    } else if k < f {
        assert(!s[k].eq_spec(&value));
    }
}

/// `has_match` holds exactly where some element of `s` equals `value`.
pub proof fn lemma_has_match<T: PartialEq>(s: Seq<T>, value: T)
    ensures
        has_match(s, value) <==> exists|k: int|
            0 <= k < s.len() && (#[trigger] s[k]).eq_spec(&value),
{
    lemma_first_match(s, value);
    if has_match(s, value) {
        assert(s[first_match(s, value)].eq_spec(&value));
    }
}

/// Adding the elements of `values` one after the other puts them behind `s`
/// in their order.
pub proof fn lemma_appended_all<T>(s: Seq<T>, values: Seq<T>)
    ensures
        appended_all(s, values) == s + values,
    decreases values.len(),
{
    if values.len() == 0 {
        assert(s + values =~= s);
    } else {
        lemma_appended_all(s.push(values[0]), values.drop_first());
        assert(s.push(values[0]) + values.drop_first() =~= s + values);
    }
}

/// A list built from `values` by repeated appending, starting empty, holds
/// `values`.
pub proof fn lemma_built_from<T>(values: Seq<T>)
    ensures
        appended_all(Seq::empty(), values) == values,
{
    lemma_appended_all(Seq::empty(), values);
    assert(Seq::<T>::empty() + values =~= values);
}

/// A list built from `values` by repeated appending gives back `values[i]` at
/// every position `i` of `values`.
pub proof fn lemma_round_trip<T>(values: Seq<T>, i: int)
    requires
        0 <= i < values.len(),
    ensures
        get_outcome(appended_all(Seq::empty(), values), i) == Ok::<Option<T>, Error>(
            Some(values[i]),
        ),
{
    lemma_built_from(values);
}

/// Reading an empty list reports `EmptyList` at every position, and reading a
/// list that is not empty at its length reports `IndexOutOfBounds`.
pub proof fn lemma_get_beyond_the_end<T>(s: Seq<T>, index: int)
    ensures
        s.len() == 0 ==> get_outcome(s, index) == Err::<Option<T>, Error>(Error::EmptyList),
        s.len() > 0 ==> get_outcome(s, s.len() as int) == Err::<Option<T>, Error>(
            Error::IndexOutOfBounds,
        ),
        get_outcome(s, index) is Ok <==> 0 <= index < s.len(),
{
}

/// One step changes the length by what it adds and what it takes.
pub proof fn lemma_length_after<T: PartialEq>(s: Seq<T>, step: Step<T>)
    ensures
        after(s, step).len() == s.len() + (if adds(step) {
            1int
        } else {
            0int
        }) - (if takes(s, step) {
            1int
        } else {
            0int
        }),
{
    match step {
        Step::Append(_) => {},
        Step::Remove(value) => {
            lemma_first_match(s, value);
        },
        Step::Pop => {},
    }
}

/// After any steps, the length of a list is its length before, plus the
/// number of steps that added an element, minus the number of removals and
/// pops that succeeded. For a list that starts empty it is the one number
/// minus the other.
pub proof fn lemma_length_counts_steps<T: PartialEq>(s: Seq<T>, steps: Seq<Step<T>>)
    ensures
        after_all(s, steps).len() == s.len() + additions(steps) - removals(s, steps),
    decreases steps.len(),
{
    if steps.len() > 0 {
        lemma_length_after(s, steps[0]);
        lemma_length_counts_steps(after(s, steps[0]), steps.drop_first());
    }
}

} // verus!
