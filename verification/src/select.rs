use vstd::prelude::*;
use vstd::multiset::Multiset;
use vstd::seq_lib::lemma_multiset_commutative;
use crate::types::{ClassV, ClassifiedInput, ErrorKind, InputSelector, class_views, sum_amounts};

verus! {

/// Inserts an element into a run of inputs, after every element whose
/// amount does not exceed its own.
pub open spec fn insert_asc(s: Seq<ClassV>, x: ClassV) -> Seq<ClassV>
    decreases s.len(),
{
    if s.len() == 0 {
        seq![x]
    } else if s[0].amount <= x.amount {
        seq![s[0]] + insert_asc(s.drop_first(), x)
    } else {
        seq![x] + s
    }
}

/// The stable ascending-by-amount reordering of a run of inputs.
pub open spec fn sort_asc(s: Seq<ClassV>) -> Seq<ClassV>
    decreases s.len(),
{
    if s.len() == 0 {
        Seq::empty()
    } else {
        insert_asc(sort_asc(s.drop_last()), s.last())
    }
}

/// Every earlier amount is at most every later one.
pub open spec fn sorted_by_amount(s: Seq<ClassV>) -> bool {
    forall|i: int, j: int| 0 <= i < j < s.len() ==> #[trigger] s[i].amount <= #[trigger] s[j].amount
}

/// Where the first strictly greater amount sits, there the element lands.
proof fn lemma_insert_asc_at(s: Seq<ClassV>, x: ClassV, k: int)
    requires
        0 <= k <= s.len(),
        forall|j: int| 0 <= j < k ==> #[trigger] s[j].amount <= x.amount,
        k < s.len() ==> s[k].amount > x.amount,
    ensures
        insert_asc(s, x) == s.take(k) + seq![x] + s.skip(k),
    decreases k,
{
    if k == 0 {
        if s.len() == 0 {
            assert(insert_asc(s, x) =~= s.take(0) + seq![x] + s.skip(0));
        } else {
            assert(insert_asc(s, x) =~= s.take(0) + seq![x] + s.skip(0));
        }
    } else {
        let df = s.drop_first();
        assert(forall|j: int| 0 <= j < k - 1 ==> #[trigger] df[j].amount <= x.amount);
        lemma_insert_asc_at(df, x, k - 1);
        assert(insert_asc(s, x) =~= s.take(k) + seq![x] + s.skip(k));
    }
}

/// Insertion keeps sortedness.
proof fn lemma_insert_asc_sorted(s: Seq<ClassV>, x: ClassV)
    requires
        sorted_by_amount(s),
    ensures
        sorted_by_amount(insert_asc(s, x)),
    decreases s.len(),
{
    if s.len() == 0 {
    } else if s[0].amount <= x.amount {
        assert(sorted_by_amount(s.drop_first()));
        lemma_insert_asc_sorted(s.drop_first(), x);
        let r = seq![s[0]] + insert_asc(s.drop_first(), x);
        lemma_insert_asc_multiset(s.drop_first(), x);
        assert forall|i: int, j: int| 0 <= i < j < r.len() implies #[trigger] r[i].amount
            <= #[trigger] r[j].amount by {
            if i == 0 {
                let inner = insert_asc(s.drop_first(), x);
                assert(r[j] == inner[j - 1]);
                lemma_insert_asc_member(s.drop_first(), x, j - 1);
            }
        }
    } else {
    }
}

/// Every element of the insertion result is the inserted one or one of
/// the run's own.
proof fn lemma_insert_asc_member(s: Seq<ClassV>, x: ClassV, i: int)
    requires
        0 <= i < insert_asc(s, x).len(),
    ensures
        insert_asc(s, x)[i] == x || exists|j: int|
            0 <= j < s.len() && insert_asc(s, x)[i] == #[trigger] s[j],
    decreases s.len(),
{
    if s.len() == 0 {
    } else if s[0].amount <= x.amount {
        if i > 0 {
            lemma_insert_asc_member(s.drop_first(), x, i - 1);
            if insert_asc(s.drop_first(), x)[i - 1] != x {
                let j = choose|j: int|
                    0 <= j < s.drop_first().len() && insert_asc(s.drop_first(), x)[i - 1]
                        == #[trigger] s.drop_first()[j];
                assert(insert_asc(s, x)[i] == s[j + 1]);
            }
        } else {
            assert(insert_asc(s, x)[0] == s[0]);
        }
    } else {
    }
}

/// Insertion adds exactly the inserted element to the run's contents.
proof fn lemma_insert_asc_multiset(s: Seq<ClassV>, x: ClassV)
    ensures
        insert_asc(s, x).to_multiset() == s.to_multiset().insert(x),
        insert_asc(s, x).len() == s.len() + 1,
    decreases s.len(),
{
    broadcast use vstd::seq_lib::group_to_multiset_ensures;

    if s.len() == 0 {
        assert(seq![x] =~= Seq::<ClassV>::empty().push(x));
    } else if s[0].amount <= x.amount {
        lemma_insert_asc_multiset(s.drop_first(), x);
        lemma_multiset_commutative(seq![s[0]], insert_asc(s.drop_first(), x));
        lemma_multiset_commutative(seq![s[0]], s.drop_first());
        assert(s =~= seq![s[0]] + s.drop_first());
        assert(seq![s[0]].to_multiset() =~= Multiset::<ClassV>::empty().insert(s[0]));
        assert(insert_asc(s, x).to_multiset() =~= s.to_multiset().insert(x));
    } else {
        lemma_multiset_commutative(seq![x], s);
        assert(seq![x].to_multiset() =~= Multiset::<ClassV>::empty().insert(x));
        assert(insert_asc(s, x).to_multiset() =~= s.to_multiset().insert(x));
    }
}

/// The ascending reordering is sorted.
pub proof fn lemma_sort_asc_sorted(s: Seq<ClassV>)
    ensures
        sorted_by_amount(sort_asc(s)),
    decreases s.len(),
{
    if s.len() > 0 {
        lemma_sort_asc_sorted(s.drop_last());
        lemma_insert_asc_sorted(sort_asc(s.drop_last()), s.last());
    }
}

/// The ascending reordering is a permutation: it holds exactly the
/// inputs of the unsorted run.
pub proof fn lemma_sort_asc_permutes(s: Seq<ClassV>)
    ensures
        sort_asc(s).to_multiset() == s.to_multiset(),
        sort_asc(s).len() == s.len(),
    decreases s.len(),
{
    broadcast use vstd::seq_lib::group_to_multiset_ensures;

    if s.len() > 0 {
        lemma_sort_asc_permutes(s.drop_last());
        lemma_insert_asc_multiset(sort_asc(s.drop_last()), s.last());
        assert(s =~= s.drop_last().push(s.last()));
    }
}

/// Insertion adds exactly the inserted amount to the total.
proof fn lemma_insert_asc_sum(s: Seq<ClassV>, x: ClassV)
    ensures
        sum_amounts(insert_asc(s, x)) == sum_amounts(s) + x.amount,
    decreases s.len(),
{
    if s.len() == 0 {
        assert(seq![x].drop_last() =~= Seq::<ClassV>::empty());
        assert(sum_amounts(Seq::<ClassV>::empty()) == 0);
        assert(seq![x].last() == x);
        assert(sum_amounts(seq![x]) == x.amount);
        assert(sum_amounts(insert_asc(s, x)) == sum_amounts(s) + x.amount);
    } else if s[0].amount <= x.amount {
        let r = seq![s[0]] + insert_asc(s.drop_first(), x);
        assert(insert_asc(s, x) == r);
        lemma_insert_asc_sum(s.drop_first(), x);
        lemma_insert_asc_multiset(s.drop_first(), x);
        assert(r.len() > 0);
        lemma_sum_front(r);
        assert(r.drop_first() =~= insert_asc(s.drop_first(), x));
        assert(r[0] == s[0]);
        lemma_sum_front(s);
        assert(sum_amounts(r) == s[0].amount + sum_amounts(s.drop_first()) + x.amount);
        assert(sum_amounts(insert_asc(s, x)) == sum_amounts(s) + x.amount);
    } else {
        let r = seq![x] + s;
        assert(insert_asc(s, x) == r);
        assert(r.len() > 0);
        lemma_sum_front(r);
        assert(r.drop_first() =~= s);
        assert(r[0] == x);
        assert(sum_amounts(insert_asc(s, x)) == sum_amounts(s) + x.amount);
    }
}

/// The total is the first amount plus the rest.
proof fn lemma_sum_front(s: Seq<ClassV>)
    requires
        s.len() > 0,
    ensures
        sum_amounts(s) == s[0].amount + sum_amounts(s.drop_first()),
    decreases s.len(),
{
    if s.len() == 1 {
        assert(s.drop_last() =~= Seq::<ClassV>::empty());
        assert(s.drop_first() =~= Seq::<ClassV>::empty());
    } else {
        lemma_sum_front(s.drop_last());
        assert(s.drop_last().drop_first() =~= s.drop_first().drop_last());
        assert(s.drop_first().last() == s.last());
        assert(s.drop_last()[0] == s[0]);
    }
}

/// The stable reordering keeps the total amount.
pub proof fn lemma_sort_asc_sum(s: Seq<ClassV>)
    ensures
        sum_amounts(sort_asc(s)) == sum_amounts(s),
    decreases s.len(),
{
    if s.len() > 0 {
        lemma_sort_asc_sum(s.drop_last());
        lemma_insert_asc_sum(sort_asc(s.drop_last()), s.last());
    }
}

/// Every element of the stable reordering comes from the unsorted run.
pub proof fn lemma_sort_asc_contains(s: Seq<ClassV>, i: int)
    requires
        0 <= i < sort_asc(s).len(),
    ensures
        exists|j: int| 0 <= j < s.len() && sort_asc(s)[i] == #[trigger] s[j],
{
    broadcast use vstd::seq_lib::group_to_multiset_ensures;

    lemma_sort_asc_permutes(s);
    let x = sort_asc(s)[i];
    assert(sort_asc(s).contains(x));
    assert(s.to_multiset().count(x) > 0);
    assert(s.contains(x));
}

/// The inputs of a run that carry a given amount, in their run order.
pub open spec fn amount_filter(s: Seq<ClassV>, a: u64) -> Seq<ClassV> {
    s.filter(|c: ClassV| c.amount == a)
}

/// Inserting into a sorted run puts the element after every equal amount:
/// among the inputs of its own amount it comes last, and the other
/// amounts' runs are untouched.
proof fn lemma_insert_asc_filter(s: Seq<ClassV>, x: ClassV, a: u64)
    requires
        sorted_by_amount(s),
    ensures
        a == x.amount ==> amount_filter(insert_asc(s, x), a) == amount_filter(s, a).push(x),
        a != x.amount ==> amount_filter(insert_asc(s, x), a) == amount_filter(s, a),
    decreases s.len(),
{
    broadcast use vstd::seq_lib::group_filter_ensures;

    let pred = |c: ClassV| c.amount == a;
    if s.len() == 0 {
        assert(seq![x].drop_last() =~= Seq::<ClassV>::empty());
        reveal_with_fuel(Seq::filter, 2);
        if a == x.amount {
            assert(amount_filter(seq![x], a) =~= amount_filter(s, a).push(x));
        } else {
            assert(amount_filter(seq![x], a) =~= amount_filter(s, a));
        }
    } else if s[0].amount <= x.amount {
        assert(sorted_by_amount(s.drop_first()));
        lemma_insert_asc_filter(s.drop_first(), x, a);
        Seq::filter_distributes_over_add(seq![s[0]], insert_asc(s.drop_first(), x), pred);
        Seq::filter_distributes_over_add(seq![s[0]], s.drop_first(), pred);
        assert(s =~= seq![s[0]] + s.drop_first());
        if a == x.amount {
            assert(amount_filter(insert_asc(s, x), a) =~= amount_filter(s, a).push(x));
        } else {
            assert(amount_filter(insert_asc(s, x), a) =~= amount_filter(s, a));
        }
    } else {
        Seq::filter_distributes_over_add(seq![x], s, pred);
        if a == x.amount {
            // Everything in s exceeds x's amount, so x's run in s is empty.
            assert forall|i: int| 0 <= i < s.len() implies !pred(s[i]) by {
                if i > 0 {
                    assert(s[0].amount <= s[i].amount);
                }
            }
            s.lemma_all_neg_filter_empty(pred);
            reveal_with_fuel(Seq::filter, 2);
            assert(amount_filter(seq![x], a) =~= Seq::<ClassV>::empty().push(x));
            assert(amount_filter(insert_asc(s, x), a) =~= amount_filter(s, a).push(x));
        } else {
            reveal_with_fuel(Seq::filter, 2);
            assert(amount_filter(seq![x], a) =~= Seq::<ClassV>::empty());
            assert(amount_filter(insert_asc(s, x), a) =~= amount_filter(s, a));
        }
    }
}

/// Stability: the ascending reordering keeps the relative order of inputs
/// of equal amount: for every amount, its inputs stand in the sorted run
/// exactly as they stand in the unsorted one.
pub proof fn lemma_sort_asc_stable(s: Seq<ClassV>, a: u64)
    ensures
        amount_filter(sort_asc(s), a) == amount_filter(s, a),
    decreases s.len(),
{
    let pred = |c: ClassV| c.amount == a;
    if s.len() == 0 {
        reveal_with_fuel(Seq::filter, 1);
        assert(amount_filter(sort_asc(s), a) =~= amount_filter(s, a));
    } else {
        lemma_sort_asc_stable(s.drop_last(), a);
        lemma_sort_asc_sorted(s.drop_last());
        lemma_insert_asc_filter(sort_asc(s.drop_last()), s.last(), a);
        Seq::filter_distributes_over_add(s.drop_last(), seq![s.last()], pred);
        assert(s =~= s.drop_last() + seq![s.last()]);
        reveal_with_fuel(Seq::filter, 2);
        if a == s.last().amount {
            assert(amount_filter(seq![s.last()], a) =~= Seq::<ClassV>::empty().push(s.last()));
            assert(amount_filter(s.drop_last(), a) + amount_filter(seq![s.last()], a)
                =~= amount_filter(s.drop_last(), a).push(s.last()));
            assert(amount_filter(sort_asc(s), a) =~= amount_filter(s, a));
        } else {
            assert(amount_filter(seq![s.last()], a) =~= Seq::<ClassV>::empty());
            assert(amount_filter(s.drop_last(), a) + amount_filter(seq![s.last()], a)
                =~= amount_filter(s.drop_last(), a));
            assert(amount_filter(sort_asc(s), a) =~= amount_filter(s, a));
        }
    }
}

/// The number of inputs the ascending policy emits: how many are consumed
/// before the running total reaches the target.
pub open spec fn count_needed(s: Seq<ClassV>, required: int) -> int
    decreases s.len(),
{
    if required <= 0 {
        0
    } else if s.len() == 0 {
        0
    } else {
        1 + count_needed(s.drop_first(), required - s[0].amount)
    }
}

/// A prefix sum, one element longer.
pub proof fn lemma_sum_take_snoc(s: Seq<ClassV>, k: int)
    requires
        0 <= k < s.len(),
    ensures
        sum_amounts(s.take(k + 1)) == sum_amounts(s.take(k)) + s[k].amount,
{
    crate::encode::lemma_take_snoc(s, k);
    assert(sum_amounts(s.take(k + 1)) == sum_amounts(s.take(k + 1).drop_last()) + s.take(
        k + 1,
    ).last().amount);
}

/// A prefix sum seen past the first element.
proof fn lemma_sum_take_shift(s: Seq<ClassV>, j: int)
    requires
        1 <= j <= s.len(),
    ensures
        sum_amounts(s.take(j)) == s[0].amount + sum_amounts(s.drop_first().take(j - 1)),
    decreases j,
{
    if j == 1 {
        assert(s.take(1).drop_last() =~= Seq::<ClassV>::empty());
        assert(s.take(1).last() == s[0]);
        assert(s.drop_first().take(0) =~= Seq::<ClassV>::empty());
    } else {
        lemma_sum_take_shift(s, j - 1);
        lemma_sum_take_snoc(s, j - 1);
        lemma_sum_take_snoc(s.drop_first(), j - 2);
    }
}

/// Prefix sums never shrink as the prefix grows.
pub proof fn lemma_sum_take_le(s: Seq<ClassV>, a: int, b: int)
    requires
        0 <= a <= b <= s.len(),
    ensures
        sum_amounts(s.take(a)) <= sum_amounts(s.take(b)),
    decreases b - a,
{
    if a < b {
        lemma_sum_take_le(s, a, b - 1);
        lemma_sum_take_snoc(s, b - 1);
    }
}

/// The whole run is its own full prefix.
pub proof fn lemma_sum_take_all(s: Seq<ClassV>)
    ensures
        sum_amounts(s.take(s.len() as int)) == sum_amounts(s),
{
    assert(s.take(s.len() as int) =~= s);
}

/// The emitted prefix length is the smallest that covers the target: the
/// shorter prefixes all fall short, and the emitted one reaches it
/// whenever the whole run does.
pub proof fn lemma_count_needed_minimal(s: Seq<ClassV>, required: int)
    ensures
        0 <= count_needed(s, required) <= s.len(),
        sum_amounts(s) >= required ==> sum_amounts(s.take(count_needed(s, required))) >= required,
        forall|j: int|
            0 <= j < count_needed(s, required) ==> sum_amounts(#[trigger] s.take(j)) < required,
    decreases s.len(),
{
    if required <= 0 {
        assert(s.take(0) =~= Seq::<ClassV>::empty());
    } else if s.len() == 0 {
    } else {
        let df = s.drop_first();
        let a0 = s[0].amount;
        lemma_count_needed_minimal(df, required - a0);
        let cn = count_needed(s, required);
        lemma_sum_take_shift(s, s.len() as int);
        lemma_sum_take_all(s);
        assert(s.drop_first().take(s.len() - 1) =~= s.drop_first());
        assert(sum_amounts(s) == a0 + sum_amounts(df));
        if sum_amounts(s) >= required {
            lemma_sum_take_shift(s, cn);
        }
        assert forall|j: int| 0 <= j < cn implies sum_amounts(#[trigger] s.take(j))
            < required by {
            if j == 0 {
                assert(s.take(0) =~= Seq::<ClassV>::empty());
            } else {
                lemma_sum_take_shift(s, j);
            }
        }
    }
}

/// Puts one classified input into a sorted vector, after every element
/// whose amount does not exceed its own.
fn insert_sorted(v: &mut Vec<ClassifiedInput>, x: ClassifiedInput)
    ensures
        class_views(final(v)@) == insert_asc(class_views(old(v)@), x@),
{
    let ghost views = class_views(v@);
    let mut idx: usize = 0;
    while idx < v.len() && v[idx].amount <= x.amount
        invariant
            0 <= idx <= v@.len(),
            views == class_views(v@),
            views.len() == v@.len(),
            forall|j: int| 0 <= j < v@.len() ==> views[j] == #[trigger] v@[j]@,
            forall|j: int| 0 <= j < idx ==> #[trigger] views[j].amount <= x@.amount,
        decreases v.len() - idx,
    {
        idx = idx + 1;
    }
    proof {
        lemma_insert_asc_at(views, x@, idx as int);
    }
    v.insert(idx, x);
    proof {
        assert(class_views(v@) =~= views.take(idx as int) + seq![x@] + views.skip(idx as int));
    }
}

/// Reorders classified inputs by ascending amount, stably.
pub fn sort_by_amount(v: Vec<ClassifiedInput>) -> (r: Vec<ClassifiedInput>)
    ensures
        class_views(r@) == sort_asc(class_views(v@)),
{
    let ghost orig = v@;
    let mut rest = v;
    let mut out: Vec<ClassifiedInput> = Vec::new();
    proof {
        assert(rest@ =~= orig.skip(0));
        assert(class_views(orig.take(0)) =~= Seq::<ClassV>::empty());
        assert(class_views(out@) =~= Seq::<ClassV>::empty());
    }
    while rest.len() > 0
        invariant
            rest@.len() <= orig.len(),
            rest@ == orig.skip(orig.len() - rest@.len()),
            class_views(out@) == sort_asc(class_views(orig.take(orig.len() - rest@.len()))),
        decreases rest.len(),
    {
        let ghost k = orig.len() - rest@.len();
        let x = rest.remove(0);
        proof {
            assert(x == orig[k]);
            assert(rest@ =~= orig.skip(k + 1));
        }
        insert_sorted(&mut out, x);
        proof {
            crate::encode::lemma_take_snoc(orig, k);
            assert(class_views(orig.take(k + 1)).drop_last() =~= class_views(orig.take(k)));
            assert(class_views(orig.take(k + 1)).last() == x@);
            assert(class_views(out@) =~= sort_asc(class_views(orig.take(k + 1))));
        }
    }
    proof {
        assert(orig.take(orig.len() as int) =~= orig);
    }
    out
}

/// The selection a request's policy dictates: every input in declared
/// order under UseAll, the shortest covering ascending prefix under
/// AutomaticAscending; the insufficient-funds error exactly when all
/// inputs together fall short of the target.
pub open spec fn spec_selected(cls: Seq<ClassV>, selector: InputSelector, required: int) -> Result<
    Seq<ClassV>,
    ErrorKind,
> {
    let chosen = if selector == InputSelector::AutomaticAscending {
        sort_asc(cls).take(count_needed(sort_asc(cls), required))
    } else {
        cls
    };
    if sum_amounts(chosen) < required {
        Err(ErrorKind::InsufficientFunds)
    } else {
        Ok(chosen)
    }
}

/// The sum check: a selection that succeeds covers the total of the
/// outputs, and the insufficient-funds error comes exactly when all
/// inputs together fall short of it.
pub proof fn lemma_sum_check(cls: Seq<ClassV>, selector: InputSelector, required: int)
    ensures
        spec_selected(cls, selector, required) matches Ok(sel) ==> sum_amounts(sel) >= required,
        spec_selected(cls, selector, required) is Err <==> sum_amounts(cls) < required,
        spec_selected(cls, selector, required) is Err ==> spec_selected(cls, selector, required)
            == Err::<Seq<ClassV>, ErrorKind>(ErrorKind::InsufficientFunds),
{
    if selector == InputSelector::AutomaticAscending {
        let sorted = sort_asc(cls);
        let cn = count_needed(sorted, required);
        lemma_sort_asc_sum(cls);
        lemma_sort_asc_permutes(cls);
        lemma_count_needed_minimal(sorted, required);
        lemma_sum_take_le(sorted, cn, sorted.len() as int);
        lemma_sum_take_all(sorted);
    }
}

/// Every selected input is one of the classified inputs.
pub proof fn lemma_selected_membership(cls: Seq<ClassV>, selector: InputSelector, required: int)
    ensures
        spec_selected(cls, selector, required) matches Ok(sel) ==> forall|i: int|
            0 <= i < sel.len() ==> exists|j: int| 0 <= j < cls.len() && #[trigger] sel[i]
                == #[trigger] cls[j],
{
    if selector == InputSelector::AutomaticAscending {
        let sorted = sort_asc(cls);
        let cn = count_needed(sorted, required);
        lemma_sort_asc_permutes(cls);
        lemma_count_needed_minimal(sorted, required);
        if spec_selected(cls, selector, required) is Ok {
            let sel = sorted.take(cn);
            assert forall|i: int| 0 <= i < sel.len() implies exists|j: int|
                0 <= j < cls.len() && #[trigger] sel[i] == #[trigger] cls[j] by {
                lemma_sort_asc_contains(cls, i);
            }
        }
    } else {
        if spec_selected(cls, selector, required) is Ok {
            assert forall|i: int| 0 <= i < cls.len() implies exists|j: int|
                0 <= j < cls.len() && #[trigger] cls[i] == #[trigger] cls[j] by {
                assert(cls[i] == cls[i]);
            }
        }
    }
}

/// Selects the inputs that cover the target under the given policy.
pub fn select_inputs(cls: Vec<ClassifiedInput>, selector: InputSelector, required: u128) -> (r:
    Result<Vec<ClassifiedInput>, ErrorKind>)
    ensures
        match r {
            Ok(sel) => spec_selected(class_views(cls@), selector, required as int) == Ok::<
                Seq<ClassV>,
                ErrorKind,
            >(class_views(sel@)),
            Err(e) => spec_selected(class_views(cls@), selector, required as int) == Err::<
                Seq<ClassV>,
                ErrorKind,
            >(e),
        },
{
    let ghost cviews = class_views(cls@);
    if selector == InputSelector::AutomaticAscending {
        let mut pool = sort_by_amount(cls);
        let ghost pviews = sort_asc(cviews);
        let mut total: u128 = 0;
        let mut i: usize = 0;
        proof {
            assert(pviews.take(0) =~= Seq::<ClassV>::empty());
        }
        while i < pool.len() && total < required
            invariant
                0 <= i <= pool@.len(),
                pviews == sort_asc(cviews),
                class_views(pool@) == pviews,
                pviews.len() == pool@.len(),
                forall|j: int| 0 <= j < pool@.len() ==> pviews[j] == #[trigger] pool@[j]@,
                total as int == sum_amounts(pviews.take(i as int)),
                total as int <= i * 0xffff_ffff_ffff_ffff,
                forall|j: int|
                    0 <= j < i ==> sum_amounts(#[trigger] pviews.take(j)) < required as int,
            decreases pool.len() - i,
        {
            proof {
                lemma_sum_take_snoc(pviews, i as int);
                assert((i + 1) * 0xffff_ffff_ffff_ffff == i * 0xffff_ffff_ffff_ffff
                    + 0xffff_ffff_ffff_ffff) by (nonlinear_arith);
                assert(pool@.len() * 0xffff_ffff_ffff_ffff < 0x1_0000_0000_0000_0000
                    * 0xffff_ffff_ffff_ffff) by (nonlinear_arith)
                    requires
                        pool@.len() < 0x1_0000_0000_0000_0000,
                ;
                assert(i * 0xffff_ffff_ffff_ffff <= pool@.len() * 0xffff_ffff_ffff_ffff)
                    by (nonlinear_arith)
                    requires
                        0 <= i <= pool@.len(),
                ;
            }
            total = total + pool[i].amount as u128;
            i = i + 1;
        }
        proof {
            lemma_count_needed_minimal(pviews, required as int);
        }
        if total < required {
            proof {
                assert(i == pool@.len());
                lemma_sum_take_all(pviews);
                let cn = count_needed(pviews, required as int);
                lemma_sum_take_le(pviews, cn, pviews.len() as int);
            }
            return Err(ErrorKind::InsufficientFunds);
        }
        proof {
            let cn = count_needed(pviews, required as int);
            lemma_sum_take_all(pviews);
            lemma_sum_take_le(pviews, i as int, pviews.len() as int);
            if cn < i {
                assert(sum_amounts(pviews.take(cn)) < required as int);
                assert(sum_amounts(pviews.take(cn)) >= required as int);
            }
            if cn > i {
                assert(sum_amounts(pviews.take(i as int)) < required as int);
            }
            assert(cn == i as int);
        }
        pool.truncate(i);
        proof {
            assert(class_views(pool@) =~= pviews.take(i as int));
        }
        Ok(pool)
    } else {
        let mut total: u128 = 0;
        let mut i: usize = 0;
        proof {
            assert(cviews.take(0) =~= Seq::<ClassV>::empty());
        }
        while i < cls.len()
            invariant
                0 <= i <= cls@.len(),
                cviews == class_views(cls@),
                cviews.len() == cls@.len(),
                forall|j: int| 0 <= j < cls@.len() ==> cviews[j] == #[trigger] cls@[j]@,
                total as int == sum_amounts(cviews.take(i as int)),
                total as int <= i * 0xffff_ffff_ffff_ffff,
            decreases cls.len() - i,
        {
            proof {
                lemma_sum_take_snoc(cviews, i as int);
                assert((i + 1) * 0xffff_ffff_ffff_ffff == i * 0xffff_ffff_ffff_ffff
                    + 0xffff_ffff_ffff_ffff) by (nonlinear_arith);
                assert(cls@.len() * 0xffff_ffff_ffff_ffff < 0x1_0000_0000_0000_0000
                    * 0xffff_ffff_ffff_ffff) by (nonlinear_arith)
                    requires
                        cls@.len() < 0x1_0000_0000_0000_0000,
                ;
                assert(i * 0xffff_ffff_ffff_ffff <= cls@.len() * 0xffff_ffff_ffff_ffff)
                    by (nonlinear_arith)
                    requires
                        0 <= i <= cls@.len(),
                ;
            }
            total = total + cls[i].amount as u128;
            i = i + 1;
        }
        proof {
            lemma_sum_take_all(cviews);
        }
        if total < required {
            Err(ErrorKind::InsufficientFunds)
        } else {
            Ok(cls)
        }
    }
}

} // verus!
