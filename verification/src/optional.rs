//! Sequences of optional values: rows of a column, with `None` for a null.

use vstd::prelude::*;

verus! {

/// The values that are present, in order, of a sequence of optional values.
pub open spec fn present<A>(rows: Seq<Option<A>>) -> Seq<A>
    decreases rows.len(),
{
    if rows.len() == 0 {
        Seq::empty()
    } else {
        match rows.last() {
            Some(a) => present(rows.drop_last()).push(a),
            None => present(rows.drop_last()),
        }
    }
}

/// The number of rows before the first one that is absent.
pub open spec fn first_absent<A>(rows: Seq<Option<A>>) -> nat
    decreases rows.len(),
{
    if rows.len() == 0 || rows.first() is None {
        0
    } else {
        1 + first_absent(rows.drop_first())
    }
}

/// One more row adds its value to those that are present, or leaves them as they are.
pub proof fn lemma_present_step<A>(rows: Seq<Option<A>>, i: int)
    requires
        0 <= i < rows.len(),
    ensures
        present(rows.take(i + 1)) == match rows[i] {
            Some(a) => present(rows.take(i)).push(a),
            None => present(rows.take(i)),
        },
{
    assert(rows.take(i + 1).drop_last() =~= rows.take(i));
}

/// A row that is absent, with none absent before it, is the first that is absent; without one,
/// all rows come before.
pub proof fn lemma_first_absent<A>(rows: Seq<Option<A>>, i: int)
    requires
        0 <= i <= rows.len(),
        forall|j: int| 0 <= j < i ==> #[trigger] rows[j] is Some,
        i < rows.len() ==> rows[i] is None,
    ensures
        first_absent(rows) == i,
    decreases rows.len(),
{
    if i > 0 {
        assert(rows[0] is Some);
        let rest = rows.drop_first();
        assert forall|j: int| 0 <= j < i - 1 implies #[trigger] rest[j] is Some by {
            assert(rest[j] == rows[j + 1]);
        }
        lemma_first_absent(rest, i - 1);
    }
}

} // verus!
