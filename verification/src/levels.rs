//! The levels of a categorical column are its distinct values in rising
//! lexicographic order.

use crate::ast::Text;
use crate::table::{inserted, levels_of, text_lt};
use vstd::prelude::*;

verus! {

pub proof fn lemma_lt_irreflexive(a: Text)
    ensures
        !text_lt(a, a),
    decreases a.len(),
{
    if a.len() > 0 {
        lemma_lt_irreflexive(a.drop_first());
    }
}

pub proof fn lemma_lt_transitive(a: Text, b: Text, c: Text)
    requires
        text_lt(a, b),
        text_lt(b, c),
    ensures
        text_lt(a, c),
    decreases a.len(),
{
    if a.len() > 0 && b.len() > 0 && c.len() > 0 {
        if a[0] == b[0] && b[0] == c[0] {
            lemma_lt_transitive(a.drop_first(), b.drop_first(), c.drop_first());
        }
    }
}

/// Of two texts that differ one stands before the other.
pub proof fn lemma_lt_total(a: Text, b: Text)
    ensures
        a == b || text_lt(a, b) || text_lt(b, a),
    decreases a.len(),
{
    if a.len() == 0 || b.len() == 0 {
        if a.len() == 0 && b.len() == 0 {
            assert(a =~= b);
        }
    } else if a[0] == b[0] {
        lemma_lt_total(a.drop_first(), b.drop_first());
        if a.drop_first() == b.drop_first() {
            assert(a =~= seq![a[0]] + a.drop_first());
            assert(b =~= seq![b[0]] + b.drop_first());
        }
    }
}

/// Whether each text of a list stands before the next.
pub open spec fn rising(levels: Seq<Text>) -> bool {
    forall|i: int, j: int|
        0 <= i < j < levels.len() ==> text_lt(#[trigger] levels[i], #[trigger] levels[j])
}

proof fn lemma_inserted(levels: Seq<Text>, v: Text)
    requires
        rising(levels),
    ensures
        rising(inserted(levels, v)),
        forall|x: Text| #[trigger] inserted(levels, v).contains(x) <==> levels.contains(x) || x == v,
    decreases levels.len(),
{
    let out = inserted(levels, v);
    if levels.len() == 0 {
        assert(out =~= seq![v]);
        assert forall|x: Text| #[trigger] out.contains(x) <==> levels.contains(x) || x == v by {
            if x == v {
                assert(out[0] == x);
            }
        }
    } else {
        let last = levels.last();
        let init = levels.drop_last();
        assert(levels =~= init.push(last));
        if last == v {
            assert forall|x: Text| #[trigger] out.contains(x) <==> levels.contains(x) || x == v by {
                if x == v {
                    assert(levels[levels.len() - 1] == x);
                }
            }
        } else if text_lt(last, v) {
            assert forall|i: int, j: int| 0 <= i < j < out.len() implies text_lt(
                #[trigger] out[i],
                #[trigger] out[j],
            ) by {
                if j == out.len() - 1 {
                    if i < levels.len() - 1 {
                        assert(text_lt(levels[i], levels[levels.len() - 1]));
                        lemma_lt_transitive(levels[i], last, v);
                    }
                } else {
                    assert(text_lt(levels[i], levels[j]));
                }
            }
            assert forall|x: Text| #[trigger] out.contains(x) <==> levels.contains(x) || x == v by {
                if out.contains(x) {
                    let k = choose|k: int| 0 <= k < out.len() && out[k] == x;
                    if k < levels.len() {
                        assert(levels[k] == x);
                    }
                }
                if levels.contains(x) {
                    let k = choose|k: int| 0 <= k < levels.len() && levels[k] == x;
                    assert(out[k] == x);
                }
                if x == v {
                    assert(out[out.len() - 1] == x);
                }
            }
        } else {
            lemma_lt_total(last, v);
            assert(text_lt(v, last));
            assert(rising(init)) by {
                assert forall|i: int, j: int| 0 <= i < j < init.len() implies text_lt(
                    #[trigger] init[i],
                    #[trigger] init[j],
                ) by {
                    assert(text_lt(levels[i], levels[j]));
                }
            }
            lemma_inserted(init, v);
            let mid = inserted(init, v);
            assert(out == mid.push(last));
            assert forall|i: int, j: int| 0 <= i < j < out.len() implies text_lt(
                #[trigger] out[i],
                #[trigger] out[j],
            ) by {
                if j == out.len() - 1 {
                    assert(mid.contains(out[i])) by {
                        assert(mid[i] == out[i]);
                    }
                    if out[i] != v {
                        assert(init.contains(out[i]));
                        let k = choose|k: int| 0 <= k < init.len() && init[k] == out[i];
                        assert(text_lt(levels[k], levels[levels.len() - 1]));
                    }
                } else {
                    assert(text_lt(mid[i], mid[j]));
                }
            }
            assert forall|x: Text| #[trigger] out.contains(x) <==> levels.contains(x) || x == v by {
                if out.contains(x) {
                    let k = choose|k: int| 0 <= k < out.len() && out[k] == x;
                    if k < mid.len() {
                        assert(mid.contains(x)) by {
                            assert(mid[k] == x);
                        }
                        if x != v {
                            assert(init.contains(x));
                            let m = choose|m: int| 0 <= m < init.len() && init[m] == x;
                            assert(levels[m] == x);
                        }
                    } else {
                        assert(levels[levels.len() - 1] == x);
                    }
                }
                if levels.contains(x) {
                    let k = choose|k: int| 0 <= k < levels.len() && levels[k] == x;
                    if k < init.len() {
                        assert(init.contains(x)) by {
                            assert(init[k] == x);
                        }
                        assert(mid.contains(x));
                        let m = choose|m: int| 0 <= m < mid.len() && mid[m] == x;
                        assert(out[m] == x);
                    } else {
                        assert(out[out.len() - 1] == x);
                    }
                }
                if x == v {
                    assert(mid.contains(x));
                    let m = choose|m: int| 0 <= m < mid.len() && mid[m] == x;
                    assert(out[m] == x);
                }
            }
        }
    }
}

/// No text stands twice in a rising list.
pub proof fn lemma_rising_is_distinct(levels: Seq<Text>)
    requires
        rising(levels),
    ensures
        forall|i: int, j: int|
            0 <= i < j < levels.len() ==> #[trigger] levels[i] != #[trigger] levels[j],
{
    assert forall|i: int, j: int| 0 <= i < j < levels.len() implies #[trigger] levels[i]
        != #[trigger] levels[j] by {
        lemma_lt_irreflexive(levels[i]);
    }
}

/// The levels of a column rise, so no level stands twice, and they are the
/// values of the column that are not missing.
pub proof fn levels_are_sorted_and_complete(values: Seq<Option<Text>>)
    ensures
        rising(levels_of(values)),
        forall|x: Text| #[trigger] levels_of(values).contains(x) <==> values.contains(Some(x)),
    decreases values.len(),
{
    let out = levels_of(values);
    if values.len() == 0 {
        assert forall|x: Text| #[trigger] out.contains(x) <==> values.contains(Some(x)) by {}
    } else {
        let init = values.drop_last();
        levels_are_sorted_and_complete(init);
        let before = levels_of(init);
        assert(values =~= init.push(values.last()));
        match values.last() {
            Some(v) => {
                lemma_inserted(before, v);
                assert forall|x: Text| #[trigger] out.contains(x) <==> values.contains(
                    Some(x),
                ) by {
                    if values.contains(Some(x)) {
                        let k = choose|k: int| 0 <= k < values.len() && values[k] == Some(x);
                        if k < init.len() {
                            assert(init[k] == Some(x));
                            assert(init.contains(Some(x)));
                        }
                    }
                    if init.contains(Some(x)) {
                        let k = choose|k: int| 0 <= k < init.len() && init[k] == Some(x);
                        assert(values[k] == Some(x));
                    }
                    if x == v {
                        assert(values[values.len() - 1] == Some(x));
                    }
                }
            },
            None => {
                assert forall|x: Text| #[trigger] out.contains(x) <==> values.contains(
                    Some(x),
                ) by {
                    if values.contains(Some(x)) {
                        let k = choose|k: int| 0 <= k < values.len() && values[k] == Some(x);
                        assert(init[k] == Some(x));
                        assert(init.contains(Some(x)));
                    }
                    if init.contains(Some(x)) {
                        let k = choose|k: int| 0 <= k < init.len() && init[k] == Some(x);
                        assert(values[k] == Some(x));
                    }
                }
            },
        }
    }
}

} // verus!
