use vstd::prelude::*;
use crate::tensor::{loaded, request_of, weight_size, LoadRequest, WeightView};

verus! {

/// Outcome of one budgeted run over a sequence of weights: the weight states
/// after the run, the remaining budget, and the store reads performed, in
/// traversal order.
#[verifier::ext_equal]
pub ghost struct GreedyRun {
    pub after: Seq<WeightView>,
    pub rem: int,
    pub loads: Seq<LoadRequest>,
}

/// The budgeted loader's policy over a flat weight sequence in traversal
/// order: at each weight, materialize iff it is still on the store and the
/// remaining budget covers its byte size; on success the budget shrinks by
/// exactly that size; otherwise the weight is skipped whole and the budget is
/// unchanged. Greedy, non-backtracking, never partial.
pub open spec fn greedy(ws: Seq<WeightView>, budget: int) -> GreedyRun
    decreases ws.len(),
{
    if ws.len() == 0 {
        GreedyRun { after: Seq::empty(), rem: budget, loads: Seq::empty() }
    } else {
        let w = ws.first();
        if w.on_store && weight_size(w) <= budget {
            let rest = greedy(ws.drop_first(), budget - weight_size(w));
            GreedyRun {
                after: seq![loaded(w)] + rest.after,
                rem: rest.rem,
                loads: seq![request_of(w)] + rest.loads,
            }
        } else {
            let rest = greedy(ws.drop_first(), budget);
            GreedyRun { after: seq![w] + rest.after, rem: rest.rem, loads: rest.loads }
        }
    }
}

/// Total byte size of a weight sequence.
pub open spec fn total_size(ws: Seq<WeightView>) -> nat
    decreases ws.len(),
{
    if ws.len() == 0 {
        0
    } else {
        weight_size(ws.first()) + total_size(ws.drop_first())
    }
}

/// Byte size of the weight behind one store read.
pub open spec fn request_size(r: LoadRequest) -> nat {
    r.dims.elem_count_spec() * r.dtype.width_spec()
}

/// Total byte size of the weights behind a sequence of store reads.
pub open spec fn loads_size(ls: Seq<LoadRequest>) -> nat
    decreases ls.len(),
{
    if ls.len() == 0 {
        0
    } else {
        request_size(ls.first()) + loads_size(ls.drop_first())
    }
}

/// A run leaves one after-state per weight and performs at most one read per
/// weight.
pub proof fn lemma_greedy_len(ws: Seq<WeightView>, budget: int)
    ensures
        greedy(ws, budget).after.len() == ws.len(),
        greedy(ws, budget).loads.len() <= ws.len(),
    decreases ws.len(),
{
    if ws.len() == 0 {
    } else {
        let w = ws.first();
        if w.on_store && weight_size(w) <= budget {
            lemma_greedy_len(ws.drop_first(), budget - weight_size(w));
        } else {
            lemma_greedy_len(ws.drop_first(), budget);
        }
    }
}

/// Unfolds one step of the policy at the head of the sequence.
pub proof fn lemma_greedy_step(ws: Seq<WeightView>, budget: int)
    requires
        ws.len() > 0,
    ensures
        (ws.first().on_store && weight_size(ws.first()) <= budget) ==> ({
            let rest = greedy(ws.drop_first(), budget - weight_size(ws.first()));
            &&& greedy(ws, budget).after == seq![loaded(ws.first())] + rest.after
            &&& greedy(ws, budget).rem == rest.rem
            &&& greedy(ws, budget).loads == seq![request_of(ws.first())] + rest.loads
        }),
        !(ws.first().on_store && weight_size(ws.first()) <= budget) ==> ({
            let rest = greedy(ws.drop_first(), budget);
            &&& greedy(ws, budget).after == seq![ws.first()] + rest.after
            &&& greedy(ws, budget).rem == rest.rem
            &&& greedy(ws, budget).loads == rest.loads
        }),
{
}

/// The policy on a single weight.
pub proof fn lemma_greedy_singleton(w: WeightView, budget: int)
    ensures
        (w.on_store && weight_size(w) <= budget) ==> greedy(seq![w], budget) == (GreedyRun {
            after: seq![loaded(w)],
            rem: budget - weight_size(w),
            loads: seq![request_of(w)],
        }),
        !(w.on_store && weight_size(w) <= budget) ==> greedy(seq![w], budget) == (GreedyRun {
            after: seq![w],
            rem: budget,
            loads: Seq::<LoadRequest>::empty(),
        }),
{
    let ws = seq![w];
    let e = Seq::<WeightView>::empty();
    assert(ws.first() == w);
    assert(ws.drop_first() =~= e);
    lemma_greedy_step(ws, budget);
    if w.on_store && weight_size(w) <= budget {
        let b1 = budget - weight_size(w);
        assert(greedy(e, b1).after == Seq::<WeightView>::empty());
        assert(greedy(e, b1).rem == b1);
        assert(greedy(e, b1).loads == Seq::<LoadRequest>::empty());
        assert(greedy(ws, budget).after =~= seq![loaded(w)]);
        assert(greedy(ws, budget).loads =~= seq![request_of(w)]);
        assert(greedy(ws, budget) =~= (GreedyRun {
            after: seq![loaded(w)],
            rem: budget - weight_size(w),
            loads: seq![request_of(w)],
        }));
    } else {
        assert(greedy(e, budget).after == Seq::<WeightView>::empty());
        assert(greedy(e, budget).rem == budget);
        assert(greedy(e, budget).loads == Seq::<LoadRequest>::empty());
        assert(greedy(ws, budget).after =~= seq![w]);
        assert(greedy(ws, budget).loads =~= Seq::<LoadRequest>::empty());
        assert(greedy(ws, budget) =~= (GreedyRun {
            after: seq![w],
            rem: budget,
            loads: Seq::<LoadRequest>::empty(),
        }));
    }
}

/// A run over two sequences in order is the run over the first followed by a
/// run over the second on the remaining budget.
pub proof fn lemma_greedy_concat(a: Seq<WeightView>, b: Seq<WeightView>, budget: int)
    ensures
        greedy(a + b, budget).after == greedy(a, budget).after + greedy(
            b,
            greedy(a, budget).rem,
        ).after,
        greedy(a + b, budget).rem == greedy(b, greedy(a, budget).rem).rem,
        greedy(a + b, budget).loads == greedy(a, budget).loads + greedy(
            b,
            greedy(a, budget).rem,
        ).loads,
    decreases a.len(),
{
    if a.len() == 0 {
        assert(a + b =~= b);
        assert(greedy(a, budget).after + greedy(b, budget).after =~= greedy(b, budget).after);
        assert(greedy(a, budget).loads + greedy(b, budget).loads =~= greedy(b, budget).loads);
    } else {
        let ab = a + b;
        assert(ab.len() > 0);
        assert(ab.first() == a.first());
        assert(ab.drop_first() =~= a.drop_first() + b);
        let w = a.first();
        if w.on_store && weight_size(w) <= budget {
            let b1 = budget - weight_size(w);
            lemma_greedy_concat(a.drop_first(), b, b1);
            lemma_greedy_step(ab, budget);
            lemma_greedy_step(a, budget);
            let rem_a = greedy(a, budget).rem;
            assert(greedy(ab, budget).after =~= greedy(a, budget).after + greedy(
                b,
                rem_a,
            ).after);
            assert(greedy(ab, budget).loads =~= greedy(a, budget).loads + greedy(
                b,
                rem_a,
            ).loads);
        } else {
            lemma_greedy_concat(a.drop_first(), b, budget);
            lemma_greedy_step(ab, budget);
            lemma_greedy_step(a, budget);
            let rem_a = greedy(a, budget).rem;
            assert(greedy(ab, budget).after =~= greedy(a, budget).after + greedy(
                b,
                rem_a,
            ).after);
            assert(greedy(ab, budget).loads =~= greedy(a, budget).loads + greedy(
                b,
                rem_a,
            ).loads);
        }
    }
}

/// Totals add over concatenation.
pub proof fn lemma_total_size_concat(a: Seq<WeightView>, b: Seq<WeightView>)
    ensures
        total_size(a + b) == total_size(a) + total_size(b),
    decreases a.len(),
{
    if a.len() == 0 {
        assert(a + b =~= b);
    } else {
        assert((a + b).first() == a.first());
        assert((a + b).drop_first() =~= a.drop_first() + b);
        lemma_total_size_concat(a.drop_first(), b);
    }
}

/// Peeling the first weight off a total.
pub proof fn lemma_total_size_cons(w: WeightView, rest: Seq<WeightView>)
    ensures
        total_size(seq![w] + rest) == weight_size(w) + total_size(rest),
{
    assert((seq![w] + rest).first() == w);
    assert((seq![w] + rest).drop_first() =~= rest);
}

/// The total of a single weight.
pub proof fn lemma_total_size_singleton(w: WeightView)
    ensures
        total_size(seq![w]) == weight_size(w),
{
    assert(seq![w].drop_first() =~= Seq::<WeightView>::empty());
    assert(total_size(Seq::<WeightView>::empty()) == 0);
}

/// The running remainder never goes below zero, never grows, and the bytes
/// it gives up are exactly the bytes of the reads performed: the sum of the
/// byte sizes of all weights a run materializes is at most its budget.
pub proof fn lemma_greedy_bounds(ws: Seq<WeightView>, budget: int)
    requires
        budget >= 0,
    ensures
        0 <= greedy(ws, budget).rem,
        greedy(ws, budget).rem <= budget,
        loads_size(greedy(ws, budget).loads) == budget - greedy(ws, budget).rem,
    decreases ws.len(),
{
    if ws.len() == 0 {
    } else {
        let w = ws.first();
        if w.on_store && weight_size(w) <= budget {
            let rest = greedy(ws.drop_first(), budget - weight_size(w));
            lemma_greedy_bounds(ws.drop_first(), budget - weight_size(w));
            let ls = greedy(ws, budget).loads;
            assert(ls == seq![request_of(w)] + rest.loads);
            assert(ls.first() == request_of(w));
            assert(ls.drop_first() =~= rest.loads);
            assert(request_size(request_of(w)) == weight_size(w));
        } else {
            lemma_greedy_bounds(ws.drop_first(), budget);
        }
    }
}

/// A budget below every weight's byte size materializes nothing and is
/// returned unchanged.
pub proof fn lemma_greedy_starved(ws: Seq<WeightView>, budget: int, floor: int)
    requires
        budget < floor,
        forall|i: int| 0 <= i < ws.len() ==> weight_size(#[trigger] ws[i]) >= floor,
    ensures
        greedy(ws, budget).after == ws,
        greedy(ws, budget).rem == budget,
        greedy(ws, budget).loads == Seq::<LoadRequest>::empty(),
    decreases ws.len(),
{
    if ws.len() == 0 {
        assert(greedy(ws, budget).after =~= ws);
    } else {
        let w = ws.first();
        assert(w == ws[0]);
        assert(weight_size(w) >= floor);
        assert(forall|i: int|
            0 <= i < ws.drop_first().len() ==> #[trigger] ws.drop_first()[i] == ws[i + 1]);
        lemma_greedy_starved(ws.drop_first(), budget, floor);
        assert(greedy(ws, budget).after =~= ws);
    }
}

/// A budget of zero materializes nothing and comes back as zero, over any
/// weights of nonzero size.
pub proof fn lemma_zero_budget(ws: Seq<WeightView>)
    requires
        forall|i: int| 0 <= i < ws.len() ==> weight_size(#[trigger] ws[i]) >= 1,
    ensures
        greedy(ws, 0).after == ws,
        greedy(ws, 0).rem == 0,
        greedy(ws, 0).loads == Seq::<LoadRequest>::empty(),
{
    lemma_greedy_starved(ws, 0, 1);
}

/// Budget monotonicity of the bytes put to use: a run never materializes
/// fewer bytes under a larger budget. (The set of materialized weights is
/// not monotone in general: a larger budget can take an early large weight
/// and then lack room for later small ones that a tighter budget took.)
pub proof fn lemma_used_bytes_monotone(ws: Seq<WeightView>, b1: int, b2: int)
    requires
        0 <= b1,
        b1 <= b2,
    ensures
        b1 - greedy(ws, b1).rem <= b2 - greedy(ws, b2).rem,
    decreases ws.len(),
{
    if ws.len() == 0 {
    } else {
        let w = ws.first();
        let s = weight_size(w) as int;
        if w.on_store && s <= b1 {
            lemma_used_bytes_monotone(ws.drop_first(), b1 - s, b2 - s);
        } else if w.on_store && s <= b2 {
            lemma_greedy_bounds(ws.drop_first(), b1);
            lemma_greedy_bounds(ws.drop_first(), b2 - s);
        } else {
            lemma_used_bytes_monotone(ws.drop_first(), b1, b2);
        }
    }
}

/// Over equally sized candidates the loaded set is monotone in the budget:
/// every weight that a run with the tighter budget materializes, the run
/// with the larger budget materializes too.
pub proof fn lemma_equal_size_superset(ws: Seq<WeightView>, b1: int, b2: int, s: int)
    requires
        0 <= b1,
        b1 <= b2,
        forall|i: int| 0 <= i < ws.len() ==> weight_size(#[trigger] ws[i]) == s,
    ensures
        forall|i: int|
            0 <= i < ws.len() && ws[i].on_store && !(#[trigger] greedy(ws, b1).after[i].on_store)
                ==> !greedy(ws, b2).after[i].on_store,
    decreases ws.len(),
{
    lemma_greedy_len(ws, b1);
    lemma_greedy_len(ws, b2);
    if ws.len() == 0 {
    } else {
        let w = ws.first();
        assert(w == ws[0]);
        assert(weight_size(w) == s);
        assert(forall|i: int|
            0 <= i < ws.drop_first().len() ==> #[trigger] ws.drop_first()[i] == ws[i + 1]);
        if w.on_store && s <= b1 {
            lemma_greedy_step(ws, b1);
            lemma_greedy_step(ws, b2);
            lemma_equal_size_superset(ws.drop_first(), b1 - s, b2 - s, s);
            let rest1 = greedy(ws.drop_first(), b1 - s);
            let rest2 = greedy(ws.drop_first(), b2 - s);
            lemma_greedy_len(ws.drop_first(), b1 - s);
            lemma_greedy_len(ws.drop_first(), b2 - s);
            assert forall|i: int|
                0 <= i < ws.len() && ws[i].on_store && !(#[trigger] greedy(
                    ws,
                    b1,
                ).after[i].on_store) implies !greedy(ws, b2).after[i].on_store by {
                if i == 0 {
                    assert(greedy(ws, b2).after[0] == loaded(w));
                } else {
                    assert(greedy(ws, b1).after[i] == rest1.after[i - 1]);
                    assert(greedy(ws, b2).after[i] == rest2.after[i - 1]);
                    assert(ws[i] == ws.drop_first()[i - 1]);
                }
            }
        } else if w.on_store && s <= b2 {
            lemma_greedy_starved(ws, b1, s);
            assert forall|i: int|
                0 <= i < ws.len() && ws[i].on_store && !(#[trigger] greedy(
                    ws,
                    b1,
                ).after[i].on_store) implies !greedy(ws, b2).after[i].on_store by {
                assert(greedy(ws, b1).after[i] == ws[i]);
            }
        } else {
            lemma_greedy_step(ws, b1);
            lemma_greedy_step(ws, b2);
            lemma_equal_size_superset(ws.drop_first(), b1, b2, s);
            let rest1 = greedy(ws.drop_first(), b1);
            let rest2 = greedy(ws.drop_first(), b2);
            lemma_greedy_len(ws.drop_first(), b1);
            lemma_greedy_len(ws.drop_first(), b2);
            assert forall|i: int|
                0 <= i < ws.len() && ws[i].on_store && !(#[trigger] greedy(
                    ws,
                    b1,
                ).after[i].on_store) implies !greedy(ws, b2).after[i].on_store by {
                if i == 0 {
                    assert(greedy(ws, b1).after[0] == w);
                } else {
                    assert(greedy(ws, b1).after[i] == rest1.after[i - 1]);
                    assert(greedy(ws, b2).after[i] == rest2.after[i - 1]);
                    assert(ws[i] == ws.drop_first()[i - 1]);
                }
            }
        }
    }
}

/// The loaded set respects the traversal order: weight `i` is materialized
/// iff it was on the store and its byte size fits what the run over the
/// weights before it left of the budget. No later weight is taken while an
/// earlier one that still fit its remainder is skipped.
pub proof fn lemma_greedy_pointwise(ws: Seq<WeightView>, budget: int, i: int)
    requires
        0 <= i < ws.len(),
    ensures
        greedy(ws, budget).after[i] == (if ws[i].on_store && weight_size(ws[i]) <= greedy(
            ws.take(i),
            budget,
        ).rem {
            loaded(ws[i])
        } else {
            ws[i]
        }),
    decreases i,
{
    lemma_greedy_len(ws, budget);
    let w = ws.first();
    lemma_greedy_step(ws, budget);
    if i == 0 {
        assert(ws.take(0) =~= Seq::<WeightView>::empty());
        assert(greedy(ws, budget).after[0] == (if w.on_store && weight_size(w) <= budget {
            loaded(w)
        } else {
            w
        }));
    } else {
        let bnext = if w.on_store && weight_size(w) <= budget {
            budget - weight_size(w)
        } else {
            budget
        };
        lemma_greedy_pointwise(ws.drop_first(), bnext, i - 1);
        lemma_greedy_len(ws.drop_first(), bnext);
        assert(ws.drop_first()[i - 1] == ws[i]);
        assert(greedy(ws, budget).after[i] == greedy(ws.drop_first(), bnext).after[i - 1]);
        assert(ws.take(i).first() == w);
        assert(ws.take(i).drop_first() =~= ws.drop_first().take(i - 1));
        lemma_greedy_step(ws.take(i), budget);
        assert(greedy(ws.take(i), budget).rem == greedy(ws.drop_first().take(i - 1), bnext).rem);
    }
}

} // verus!
