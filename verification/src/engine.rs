//! The permutation engine: enumerate every calling shape of a validated
//! parameter list.
//!
//! A shape for a required tail of length `k` keeps some prefix of the
//! required parameters positional, in declaration order, and permutes the
//! remaining ones as named arguments.  A shape for a default tail picks an
//! ordered selection of defaulted parameters as supplied and leaves the
//! rest omitted.  The full shape list is the cartesian concatenation of
//! the two.

use vstd::prelude::*;
use vstd::seq_lib::group_to_multiset_ensures;
use vstd::seq_lib::lemma_multiset_commutative;
use vstd::multiset::Multiset;
use crate::counting::{arrangement_count, fact, shape_count, sum_fact, sum_fact_prefix};
use crate::counting::{lemma_arrangement_count_pos, lemma_sum_fact_prefix_total};
use crate::params::{
    is_required, lemma_req_count_is, req_count, shape_params, slot_param, wf_order, FunctionParam,
    FunctionParams, ParamAttr, ParamError, PermutedParam,
};

verus! {

broadcast use group_to_multiset_ensures;

/// A required-tail shape whose first `i` slots are the required
/// parameters in declaration order, tagged positional, and whose
/// remaining slots carry the rest of the required parameters by name,
/// each exactly once, in some order.
pub open spec fn req_shape_with_prefix(
    req: Seq<FunctionParam>,
    shape: Seq<PermutedParam>,
    i: int,
) -> bool {
    &&& 0 <= i <= req.len()
    &&& shape.len() == req.len()
    &&& (forall|j: int| 0 <= j < i ==> shape[j] == PermutedParam::Positional(req[j]))
    &&& (forall|j: int| i <= j < shape.len() ==> shape[j] is Named)
    &&& shape_params(shape.skip(i)).to_multiset() == req.skip(i).to_multiset()
}

/// A legal required-tail shape: some positional prefix length works.
pub open spec fn req_shape_of(req: Seq<FunctionParam>, shape: Seq<PermutedParam>) -> bool {
    exists|i: int| req_shape_with_prefix(req, shape, i)
}

/// A default-tail shape split at `c`: the first `c` slots are supplied
/// defaulted parameters, the rest are omitted ones in declaration order,
/// and together they carry every defaulted parameter exactly once.
pub open spec fn def_shape_with_split(
    defs: Seq<FunctionParam>,
    shape: Seq<PermutedParam>,
    c: int,
) -> bool {
    &&& 0 <= c <= shape.len()
    &&& shape.len() == defs.len()
    &&& (forall|j: int| 0 <= j < c ==> shape[j] is DefaultUsed)
    &&& (forall|j: int| c <= j < shape.len() ==> shape[j] is DefaultUnused)
    &&& shape_params(shape).to_multiset() == defs.to_multiset()
    &&& is_subseq_of(shape_params(shape).skip(c), defs)
}

/// A legal default-tail shape: some split point works.
pub open spec fn def_shape_of(defs: Seq<FunctionParam>, shape: Seq<PermutedParam>) -> bool {
    exists|c: int| def_shape_with_split(defs, shape, c)
}

/// A legal shape of the whole parameter list: a legal required-tail
/// shape followed by a legal default-tail shape.
pub open spec fn is_shape_of(ps: Seq<FunctionParam>, shape: Seq<PermutedParam>) -> bool {
    let k = req_count(ps) as int;
    &&& shape.len() == ps.len()
    &&& req_shape_of(ps.take(k), shape.take(k))
    &&& def_shape_of(ps.skip(k), shape.skip(k))
}

/// Relies on `permute::permute` (Heap's algorithm): it returns the `n!`
/// reorderings of the input vector, each one built from clones of the
/// input's items, which our `Clone` keeps equal.
#[verifier::external_body]
fn permute_all(items: Vec<FunctionParam>) -> (r: Vec<Vec<FunctionParam>>)
    ensures
        r@.len() == fact(items@.len()),
        forall|i: int|
            0 <= i < r@.len() ==> (#[trigger] r@[i])@.to_multiset() == items@.to_multiset(),
{
    permute::permute(items)
}

/// Clone the subrange `[a, b)` of a parameter vector.
fn clone_range(ps: &Vec<FunctionParam>, a: usize, b: usize) -> (r: Vec<FunctionParam>)
    requires
        a <= b <= ps@.len(),
    ensures
        r@ == ps@.subrange(a as int, b as int),
{
    let mut r: Vec<FunctionParam> = Vec::new();
    let mut i: usize = a;
    while i < b
        invariant
            a <= i <= b <= ps@.len(),
            r@ == ps@.subrange(a as int, i as int),
        decreases b - i,
    {
        r.push(ps[i].clone());
        proof {
            assert(r@ =~= ps@.subrange(a as int, i as int + 1));
        }
        i = i + 1;
    }
    r
}

/// Clone a whole parameter vector.
fn clone_params(ps: &Vec<FunctionParam>) -> (r: Vec<FunctionParam>)
    ensures
        r@ == ps@,
{
    let r = clone_range(ps, 0, ps.len());
    proof {
        assert(ps@.subrange(0, ps@.len() as int) =~= ps@);
    }
    r
}

/// Append clones of all slots of `src` to `dst`.
fn append_slots(dst: &mut Vec<PermutedParam>, src: &Vec<PermutedParam>)
    ensures
        final(dst)@ == old(dst)@ + src@,
{
    let mut i: usize = 0;
    while i < src.len()
        invariant
            0 <= i <= src@.len(),
            dst@ == old(dst)@ + src@.take(i as int),
        decreases src@.len() - i,
    {
        dst.push(src[i].clone());
        proof {
            assert(old(dst)@ + src@.take(i as int + 1) =~= (old(dst)@ + src@.take(i as int)).push(
                src@[i as int],
            ));
        }
        i = i + 1;
    }
    proof {
        assert(src@.take(src@.len() as int) =~= src@);
    }
}

/// Tag every parameter of one reordering as a named slot.
fn tag_named(v: &Vec<FunctionParam>) -> (r: Vec<PermutedParam>)
    ensures
        r@.len() == v@.len(),
        forall|j: int| 0 <= j < v@.len() ==> r@[j] == PermutedParam::Named(v@[j]),
{
    let mut r: Vec<PermutedParam> = Vec::new();
    let mut i: usize = 0;
    while i < v.len()
        invariant
            0 <= i <= v@.len(),
            r@.len() == i,
            forall|j: int| 0 <= j < i ==> r@[j] == PermutedParam::Named(v@[j]),
        decreases v@.len() - i,
    {
        r.push(PermutedParam::Named(v[i].clone()));
        i = i + 1;
    }
    r
}

/// The tags of a shape strip back to the parameters it was built from.
proof fn lemma_shape_params_pointwise(shape: Seq<PermutedParam>, ps: Seq<FunctionParam>)
    requires
        shape.len() == ps.len(),
        forall|j: int| 0 <= j < shape.len() ==> slot_param(#[trigger] shape[j]) == ps[j],
    ensures
        shape_params(shape) == ps,
{
    assert(shape_params(shape) =~= ps);
}

/// `a` keeps some of `b`'s items, in `b`'s order.
pub open spec fn is_subseq_of(a: Seq<FunctionParam>, b: Seq<FunctionParam>) -> bool
    decreases a.len() + b.len(),
{
    if a.len() == 0 {
        true
    } else if b.len() == 0 {
        false
    } else {
        (a[0] == b[0] && is_subseq_of(a.drop_first(), b.drop_first())) || is_subseq_of(
            a,
            b.drop_first(),
        )
    }
}

pub proof fn lemma_subseq_refl(b: Seq<FunctionParam>)
    ensures
        is_subseq_of(b, b),
    decreases b.len(),
{
    if b.len() > 0 {
        lemma_subseq_refl(b.drop_first());
    }
}

/// Removing one item leaves a subsequence.
pub proof fn lemma_subseq_remove(b: Seq<FunctionParam>, i: int)
    requires
        0 <= i < b.len(),
    ensures
        is_subseq_of(b.remove(i), b),
    decreases b.len(),
{
    if i == 0 {
        assert(b.remove(0) =~= b.drop_first());
        lemma_subseq_refl(b.drop_first());
        if b.len() > 1 {
            assert(b.drop_first()[0] == b.drop_first()[0]);
        }
    } else {
        lemma_subseq_remove(b.drop_first(), i - 1);
        assert(b.remove(i).drop_first() =~= b.drop_first().remove(i - 1));
        assert(b.remove(i)[0] == b[0]);
    }
}

pub proof fn lemma_subseq_trans(
    a: Seq<FunctionParam>,
    b: Seq<FunctionParam>,
    c: Seq<FunctionParam>,
)
    requires
        is_subseq_of(a, b),
        is_subseq_of(b, c),
    ensures
        is_subseq_of(a, c),
    decreases b.len() + c.len(),
{
    if a.len() == 0 {
    } else {
        if b[0] == c[0] && is_subseq_of(b.drop_first(), c.drop_first()) {
            if a[0] == b[0] && is_subseq_of(a.drop_first(), b.drop_first()) {
                lemma_subseq_trans(a.drop_first(), b.drop_first(), c.drop_first());
            } else {
                lemma_subseq_trans(a, b.drop_first(), c.drop_first());
            }
        } else {
            lemma_subseq_trans(a, b, c.drop_first());
        }
    }
}

/// An ordered selection from the defaulted parameters: the supplied ones
/// in the chosen order, then the omitted ones in declaration order,
/// together carrying every defaulted parameter exactly once.
pub open spec fn selection_of(
    d: Seq<FunctionParam>,
    used: Seq<FunctionParam>,
    unused: Seq<FunctionParam>,
) -> bool {
    &&& used.to_multiset().add(unused.to_multiset()) == d.to_multiset()
    &&& is_subseq_of(unused, d)
}

/// Enumerate every ordered selection from `d`: the empty selection, and,
/// for every choice of a first supplied parameter, every ordered
/// selection from the rest.  There are `arrangement_count(|d|)` of them.
fn arrangements(d: &Vec<FunctionParam>) -> (r: Vec<(Vec<FunctionParam>, Vec<FunctionParam>)>)
    ensures
        r@.len() == arrangement_count(d@.len()),
        forall|i: int|
            0 <= i < r@.len() ==> selection_of(d@, (#[trigger] r@[i]).0@, r@[i].1@),
    decreases d@.len(),
{
    let ghost dm = d@.to_multiset();
    let mut r: Vec<(Vec<FunctionParam>, Vec<FunctionParam>)> = Vec::new();
    let base_unused = clone_params(d);
    r.push((Vec::new(), base_unused));
    proof {
        assert(r@[0].0@ =~= Seq::<FunctionParam>::empty());
        lemma_multiset_commutative(Seq::<FunctionParam>::empty(), d@);
        assert(Seq::<FunctionParam>::empty() + d@ =~= d@);
        lemma_subseq_refl(d@);
        assert(selection_of(d@, r@[0].0@, r@[0].1@));
    }
    let n = d.len();
    let ghost sub_count = arrangement_count((d@.len() - 1) as nat);
    let mut idx: usize = 0;
    while idx < n
        invariant
            n == d@.len(),
            0 <= idx <= n,
            sub_count == arrangement_count((d@.len() - 1) as nat),
            r@.len() == 1 + idx * sub_count,
            forall|i: int|
                0 <= i < r@.len() ==> selection_of(d@, (#[trigger] r@[i]).0@, r@[i].1@),
        decreases n - idx,
    {
        let mut rest = clone_params(d);
        let picked = rest.remove(idx);
        let sub = arrangements(&rest);
        let mut j: usize = 0;
        while j < sub.len()
            invariant
                n == d@.len(),
                0 <= idx < n,
                0 <= j <= sub@.len(),
                picked == d@[idx as int],
                rest@ == d@.remove(idx as int),
                sub@.len() == arrangement_count((d@.len() - 1) as nat),
                sub_count == arrangement_count((d@.len() - 1) as nat),
                forall|t: int|
                    0 <= t < sub@.len() ==> selection_of(rest@, (#[trigger] sub@[t]).0@, sub@[t].1@),
                r@.len() == 1 + idx * sub_count + j,
                forall|i: int|
                    0 <= i < r@.len() ==> selection_of(d@, (#[trigger] r@[i]).0@, r@[i].1@),
            decreases sub@.len() - j,
        {
            let pair = &sub[j];
            let mut used: Vec<FunctionParam> = Vec::new();
            used.push(picked.clone());
            let mut t: usize = 0;
            while t < pair.0.len()
                invariant
                    0 <= t <= pair.0@.len(),
                    used@ == seq![picked].add(pair.0@.take(t as int)),
                decreases pair.0@.len() - t,
            {
                used.push(pair.0[t].clone());
                proof {
                    assert(seq![picked].add(pair.0@.take(t as int + 1)) =~= seq![picked].add(
                        pair.0@.take(t as int),
                    ).push(pair.0@[t as int]));
                }
                t = t + 1;
            }
            let unused = clone_params(&pair.1);
            proof {
                assert(pair.0@.take(pair.0@.len() as int) =~= pair.0@);
                // the new selection covers picked plus what the sub-selection covered
                lemma_multiset_commutative(seq![picked], pair.0@);
                assert(seq![picked] =~= Seq::<FunctionParam>::empty().push(picked));
                assert(seq![picked].to_multiset() =~= Multiset::<FunctionParam>::empty().insert(
                    picked,
                ));
                assert(used@.to_multiset().add(unused@.to_multiset()) =~= rest@.to_multiset()
                    .insert(picked)) by {
                    assert(selection_of(rest@, pair.0@, pair.1@));
                }
                assert(rest@.to_multiset() == d@.to_multiset().remove(d@[idx as int]));
                assert(d@.to_multiset().count(d@[idx as int]) > 0) by {
                    assert(d@.contains(d@[idx as int]));
                }
                assert(rest@.to_multiset().insert(picked) =~= d@.to_multiset());
                lemma_subseq_remove(d@, idx as int);
                lemma_subseq_trans(unused@, rest@, d@);
                assert(selection_of(d@, used@, unused@));
            }
            r.push((used, unused));
            j = j + 1;
        }
        proof {
            assert(1 + idx * sub_count + sub_count == 1 + (idx + 1) * sub_count) by (nonlinear_arith);
        }
        idx = idx + 1;
    }
    proof {
        if n == 0 {
            assert(arrangement_count(0) == 1);
        } else {
            assert(arrangement_count(d@.len()) == 1 + d@.len() * arrangement_count(
                (d@.len() - 1) as nat,
            ));
        }
    }
    r
}

/// Tag a selection as a default-tail shape: the supplied parameters
/// first, then the omitted ones.
fn tag_defaults(used: &Vec<FunctionParam>, unused: &Vec<FunctionParam>) -> (r: Vec<PermutedParam>)
    ensures
        r@.len() == used@.len() + unused@.len(),
        forall|j: int| 0 <= j < used@.len() ==> r@[j] == PermutedParam::DefaultUsed(used@[j]),
        forall|j: int|
            used@.len() <= j < r@.len() ==> r@[j] == PermutedParam::DefaultUnused(
                unused@[j - used@.len()],
            ),
{
    let mut r: Vec<PermutedParam> = Vec::new();
    let mut i: usize = 0;
    while i < used.len()
        invariant
            0 <= i <= used@.len(),
            r@.len() == i,
            forall|j: int| 0 <= j < i ==> r@[j] == PermutedParam::DefaultUsed(used@[j]),
        decreases used@.len() - i,
    {
        r.push(PermutedParam::DefaultUsed(used[i].clone()));
        i = i + 1;
    }
    let mut t: usize = 0;
    while t < unused.len()
        invariant
            0 <= t <= unused@.len(),
            r@.len() == used@.len() + t,
            forall|j: int| 0 <= j < used@.len() ==> r@[j] == PermutedParam::DefaultUsed(used@[j]),
            forall|j: int|
                used@.len() <= j < r@.len() ==> r@[j] == PermutedParam::DefaultUnused(
                    unused@[j - used@.len()],
                ),
        decreases unused@.len() - t,
    {
        r.push(PermutedParam::DefaultUnused(unused[t].clone()));
        t = t + 1;
    }
    r
}

impl FunctionParams {
    /// Permute a slice of required parameters: every reordering, each
    /// parameter tagged as a named slot.  There are `n!` of them.
    pub fn permute_named(named: &Vec<FunctionParam>) -> (r: Vec<Vec<PermutedParam>>)
        requires
            forall|i: int| 0 <= i < named@.len() ==> is_required(#[trigger] named@[i]),
        ensures
            r@.len() == fact(named@.len()),
            forall|i: int|
                0 <= i < r@.len() ==> req_shape_with_prefix(named@, (#[trigger] r@[i])@, 0),
    {
        let items = clone_params(named);
        let perms = permute_all(items);
        let mut r: Vec<Vec<PermutedParam>> = Vec::new();
        let mut i: usize = 0;
        while i < perms.len()
            invariant
                perms@.len() == fact(named@.len()),
                forall|t: int|
                    0 <= t < perms@.len() ==> (#[trigger] perms@[t])@.to_multiset()
                        == named@.to_multiset(),
                0 <= i <= perms@.len(),
                r@.len() == i,
                forall|t: int|
                    0 <= t < i ==> req_shape_with_prefix(named@, (#[trigger] r@[t])@, 0),
            decreases perms@.len() - i,
        {
            let shape = tag_named(&perms[i]);
            proof {
                assert(perms@[i as int]@.to_multiset().len() == named@.to_multiset().len());
                assert(perms@[i as int]@.len() == named@.len());
                lemma_shape_params_pointwise(shape@, perms@[i as int]@);
                assert(shape@.skip(0) =~= shape@);
                assert(named@.skip(0) =~= named@);
                assert(req_shape_with_prefix(named@, shape@, 0));
            }
            r.push(shape);
            i = i + 1;
        }
        r
    }

    /// Permute a slice of defaulted parameters: one shape per ordered
    /// selection of the supplied ones, the omitted ones trailing.  An
    /// empty slice yields no shape at all; otherwise the all-omitted
    /// selection is retained, so a non-empty slice yields
    /// `arrangement_count(m)` shapes.
    pub fn permute_default(defaults: &Vec<FunctionParam>) -> (r: Vec<Vec<PermutedParam>>)
        requires
            forall|i: int| 0 <= i < defaults@.len() ==> !is_required(#[trigger] defaults@[i]),
        ensures
            defaults@.len() == 0 ==> r@.len() == 0,
            defaults@.len() > 0 ==> r@.len() == arrangement_count(defaults@.len()),
            forall|i: int| 0 <= i < r@.len() ==> def_shape_of(defaults@, (#[trigger] r@[i])@),
    {
        let mut r: Vec<Vec<PermutedParam>> = Vec::new();
        if defaults.len() == 0 {
            return r;
        }
        let pairs = arrangements(defaults);
        let mut i: usize = 0;
        while i < pairs.len()
            invariant
                pairs@.len() == arrangement_count(defaults@.len()),
                forall|t: int|
                    0 <= t < pairs@.len() ==> selection_of(
                        defaults@,
                        (#[trigger] pairs@[t]).0@,
                        pairs@[t].1@,
                    ),
                0 <= i <= pairs@.len(),
                r@.len() == i,
                forall|t: int| 0 <= t < i ==> def_shape_of(defaults@, (#[trigger] r@[t])@),
            decreases pairs@.len() - i,
        {
            let pair = &pairs[i];
            let shape = tag_defaults(&pair.0, &pair.1);
            proof {
                let u = pairs@[i as int].0@;
                let un = pairs@[i as int].1@;
                let c = u.len() as int;
                lemma_shape_params_pointwise(shape@, u + un);
                lemma_multiset_commutative(u, un);
                assert(u.to_multiset().add(un.to_multiset()).len() == defaults@.to_multiset().len());
                assert(shape@.len() == defaults@.len());
                assert(shape_params(shape@).skip(c) =~= un);
                assert(def_shape_with_split(defaults@, shape@, c));
            }
            r.push(shape);
            i = i + 1;
        }
        r
    }

    /// The index of the first defaulted parameter: the length of the
    /// required prefix.
    fn required_prefix_len(ps: &Vec<FunctionParam>) -> (k: usize)
        ensures
            k == req_count(ps@),
            k <= ps@.len(),
            forall|j: int| 0 <= j < k ==> is_required(#[trigger] ps@[j]),
            k < ps@.len() ==> !is_required(ps@[k as int]),
    {
        let mut i: usize = 0;
        while i < ps.len()
            invariant
                0 <= i <= ps@.len(),
                forall|j: int| 0 <= j < i ==> is_required(#[trigger] ps@[j]),
            decreases ps@.len() - i,
        {
            match &ps[i].default_value {
                ParamAttr::NoDefault => {
                    i = i + 1;
                },
                _ => {
                    proof {
                        lemma_req_count_is(ps@, i as int);
                    }
                    return i;
                },
            }
        }
        proof {
            lemma_req_count_is(ps@, i as int);
        }
        i
    }

    /// Generate all calling shapes of this parameter list.
    ///
    /// Every positional prefix length of the required tail is combined
    /// with every reordering of the remaining named parameters, and, when
    /// the default tail is not empty, with every ordered selection of the
    /// defaulted parameters.  The list holds `shape_count(k, m)` shapes,
    /// each a legal shape of this parameter list.
    pub fn permute_params(&self) -> (r: Vec<Vec<PermutedParam>>)
        requires
            wf_order(self.params@),
        ensures
            r@.len() == shape_count(
                req_count(self.params@),
                (self.params@.len() - req_count(self.params@)) as nat,
            ),
            forall|i: int| 0 <= i < r@.len() ==> is_shape_of(self.params@, (#[trigger] r@[i])@),
    {
        let ps = &self.params;
        let ghost psv = self.params@;
        let n = ps.len();
        let k = Self::required_prefix_len(ps);
        let ghost kk = k as nat;
        let ghost m = (psv.len() - kk) as nat;
        proof {
            // beyond the split everything is defaulted
            assert forall|j: int| k <= j < psv.len() implies !is_required(#[trigger] psv[j]) by {
                if j > k {
                    assert(!is_required(psv[k as int]));
                }
            }
        }
        let required = clone_range(ps, 0, k);
        let defaults = clone_range(ps, k, n);
        proof {
            assert(required@ =~= psv.take(k as int));
            assert(defaults@ =~= psv.skip(k as int));
        }

        // required-tail shapes, one block per positional prefix length
        let mut named_permute: Vec<Vec<PermutedParam>> = Vec::new();
        let mut idx: usize = 0;
        while idx < k
            invariant
                0 <= idx <= k <= n,
                n == psv.len(),
                kk == req_count(psv),
                k == kk,
                required@ == psv.take(k as int),
                forall|j: int| 0 <= j < k ==> is_required(#[trigger] psv[j]),
                named_permute@.len() == sum_fact_prefix(kk, idx as nat),
                forall|t: int|
                    0 <= t < named_permute@.len() ==> req_shape_of(
                        required@,
                        (#[trigger] named_permute@[t])@,
                    ),
            decreases k - idx,
        {
            let tail = clone_range(&required, idx, k);
            let perms = Self::permute_named(&tail);
            let ghost before = named_permute@.len();
            let mut j: usize = 0;
            while j < perms.len()
                invariant
                    0 <= idx < k <= n,
                    n == psv.len(),
                    required@ == psv.take(k as int),
                    forall|jj: int| 0 <= jj < k ==> is_required(#[trigger] psv[jj]),
                    tail@ == required@.subrange(idx as int, k as int),
                    perms@.len() == fact(tail@.len()),
                    forall|t: int|
                        0 <= t < perms@.len() ==> req_shape_with_prefix(
                            tail@,
                            (#[trigger] perms@[t])@,
                            0,
                        ),
                    0 <= j <= perms@.len(),
                    named_permute@.len() == before + j,
                    forall|t: int|
                        0 <= t < named_permute@.len() ==> req_shape_of(
                            required@,
                            (#[trigger] named_permute@[t])@,
                        ),
                decreases perms@.len() - j,
            {
                let mut shape: Vec<PermutedParam> = Vec::new();
                let mut t: usize = 0;
                while t < idx
                    invariant
                        0 <= t <= idx < k,
                        required@.len() == k,
                        shape@.len() == t,
                        forall|q: int|
                            0 <= q < t ==> shape@[q] == PermutedParam::Positional(required@[q]),
                    decreases idx - t,
                {
                    shape.push(PermutedParam::Positional(required[t].clone()));
                    t = t + 1;
                }
                append_slots(&mut shape, &perms[j]);
                proof {
                    let sh = shape@;
                    let pj = perms@[j as int]@;
                    assert(sh.len() == idx + (k - idx));
                    assert(sh.skip(idx as int) =~= pj);
                    assert(pj.skip(0) =~= pj);
                    assert(tail@.skip(0) =~= tail@);
                    assert(tail@ =~= required@.skip(idx as int));
                    assert(req_shape_with_prefix(required@, sh, idx as int));
                }
                named_permute.push(shape);
                j = j + 1;
            }
            idx = idx + 1;
        }
        // the all-positional shape: the empty named tail permutes once
        let mut full_pos: Vec<PermutedParam> = Vec::new();
        let mut t: usize = 0;
        while t < k
            invariant
                0 <= t <= k,
                required@.len() == k,
                full_pos@.len() == t,
                forall|q: int|
                    0 <= q < t ==> full_pos@[q] == PermutedParam::Positional(required@[q]),
            decreases k - t,
        {
            full_pos.push(PermutedParam::Positional(required[t].clone()));
            t = t + 1;
        }
        proof {
            assert(full_pos@.skip(k as int) =~= Seq::<PermutedParam>::empty());
            assert(required@.skip(k as int) =~= Seq::<FunctionParam>::empty());
            assert(shape_params(Seq::<PermutedParam>::empty()) =~= Seq::<FunctionParam>::empty());
            assert(req_shape_with_prefix(required@, full_pos@, k as int));
        }
        named_permute.push(full_pos);
        proof {
            assert(named_permute@.len() == sum_fact_prefix(kk, kk) + 1);
            assert(sum_fact_prefix(kk, kk + 1) == sum_fact_prefix(kk, kk) + fact(0));
            lemma_sum_fact_prefix_total(kk);
            assert(named_permute@.len() == sum_fact(kk));
        }

        // default-tail shapes
        let default_permute = Self::permute_default(&defaults);

        if default_permute.len() == 0 {
            proof {
                if m > 0 {
                    lemma_arrangement_count_pos(m);
                    assert(false);
                }
                assert(kk == psv.len());
                assert(shape_count(kk, m) == sum_fact(kk) * 1);
                assert forall|i: int|
                    0 <= i < named_permute@.len() implies is_shape_of(
                    psv,
                    (#[trigger] named_permute@[i])@,
                ) by {
                    let sh = named_permute@[i]@;
                    assert(req_shape_of(required@, sh));
                    let w = choose|w: int| req_shape_with_prefix(required@, sh, w);
                    assert(sh.len() == psv.len());
                    assert(sh.take(k as int) =~= sh);
                    assert(sh.skip(k as int) =~= Seq::<PermutedParam>::empty());
                    assert(psv.skip(k as int) =~= Seq::<FunctionParam>::empty());
                    assert(shape_params(Seq::<PermutedParam>::empty())
                        =~= Seq::<FunctionParam>::empty());
                    assert(def_shape_with_split(psv.skip(k as int), sh.skip(k as int), 0));
                }
            }
            return named_permute;
        }

        let ghost bcount = default_permute@.len();
        proof {
            if m == 0 {
                assert(defaults@.len() == 0);
                assert(false);
            }
            assert(bcount == arrangement_count(m));
        }
        let mut r: Vec<Vec<PermutedParam>> = Vec::new();
        let mut a: usize = 0;
        while a < named_permute.len()
            invariant
                n == psv.len(),
                kk == req_count(psv),
                k == kk,
                kk <= n,
                m == (psv.len() - kk) as nat,
                m > 0,
                required@ == psv.take(k as int),
                defaults@ == psv.skip(k as int),
                named_permute@.len() == sum_fact(kk),
                bcount == default_permute@.len(),
                bcount == arrangement_count(m),
                forall|t: int|
                    0 <= t < named_permute@.len() ==> req_shape_of(
                        required@,
                        (#[trigger] named_permute@[t])@,
                    ),
                forall|t: int|
                    0 <= t < named_permute@.len() ==> (#[trigger] named_permute@[t])@.len()
                        == k,
                forall|t: int|
                    0 <= t < default_permute@.len() ==> def_shape_of(
                        defaults@,
                        (#[trigger] default_permute@[t])@,
                    ),
                forall|t: int|
                    0 <= t < default_permute@.len() ==> (#[trigger] default_permute@[t])@.len()
                        == m,
                0 <= a <= named_permute@.len(),
                r@.len() == a * bcount,
                forall|i: int| 0 <= i < r@.len() ==> is_shape_of(psv, (#[trigger] r@[i])@),
            decreases named_permute@.len() - a,
        {
            let mut b: usize = 0;
            while b < default_permute.len()
                invariant
                    n == psv.len(),
                    kk == req_count(psv),
                    k == kk,
                    kk <= n,
                    m == (psv.len() - kk) as nat,
                    required@ == psv.take(k as int),
                    defaults@ == psv.skip(k as int),
                    0 <= a < named_permute@.len(),
                    bcount == default_permute@.len(),
                    forall|t: int|
                        0 <= t < named_permute@.len() ==> req_shape_of(
                            required@,
                            (#[trigger] named_permute@[t])@,
                        ),
                    forall|t: int|
                        0 <= t < named_permute@.len() ==> (#[trigger] named_permute@[t])@.len()
                            == k,
                    forall|t: int|
                        0 <= t < default_permute@.len() ==> def_shape_of(
                            defaults@,
                            (#[trigger] default_permute@[t])@,
                        ),
                    forall|t: int|
                        0 <= t < default_permute@.len()
                            ==> (#[trigger] default_permute@[t])@.len() == m,
                    0 <= b <= default_permute@.len(),
                    r@.len() == a * bcount + b,
                    forall|i: int| 0 <= i < r@.len() ==> is_shape_of(psv, (#[trigger] r@[i])@),
                decreases default_permute@.len() - b,
            {
                let mut shape: Vec<PermutedParam> = Vec::new();
                append_slots(&mut shape, &named_permute[a]);
                append_slots(&mut shape, &default_permute[b]);
                proof {
                    let sh = shape@;
                    let na = named_permute@[a as int]@;
                    let db = default_permute@[b as int]@;
                    assert(sh =~= na + db);
                    assert(sh.take(k as int) =~= na);
                    assert(sh.skip(k as int) =~= db);
                    assert(is_shape_of(psv, sh));
                }
                r.push(shape);
                b = b + 1;
            }
            proof {
                assert(a * bcount + bcount == (a + 1) * bcount) by (nonlinear_arith);
            }
            a = a + 1;
        }
        proof {
            assert(r@.len() == sum_fact(kk) * arrangement_count(m));
            assert(shape_count(kk, m) == sum_fact(kk) * arrangement_count(m));
        }
        r
    }

    /// Whether the parameter sequence is valid: every required parameter
    /// precedes every defaulted one.
    pub fn is_valid_sequence(&self) -> (r: bool)
        ensures
            r == wf_order(self.params@),
    {
        let ps = &self.params;
        let k = Self::required_prefix_len(ps);
        let mut i: usize = k;
        while i < ps.len()
            invariant
                ps@ == self.params@,
                k <= i <= ps@.len(),
                k == req_count(ps@),
                k <= ps@.len(),
                forall|j: int| 0 <= j < k ==> is_required(#[trigger] ps@[j]),
                k < ps@.len() ==> !is_required(ps@[k as int]),
                forall|j: int| k <= j < i ==> !is_required(#[trigger] ps@[j]),
            decreases ps@.len() - i,
        {
            match &ps[i].default_value {
                ParamAttr::NoDefault => {
                    proof {
                        assert(is_required(ps@[i as int]));
                        assert(!is_required(ps@[k as int]));
                        assert(!wf_order(ps@));
                    }
                    return false;
                },
                _ => {
                    i = i + 1;
                },
            }
        }
        proof {
            assert forall|a: int, b: int|
                0 <= a < b < ps@.len() && !(#[trigger] is_required(ps@[a])) implies !(
            #[trigger] is_required(ps@[b])) by {
                assert(a >= k);
            }
            assert(wf_order(ps@));
        }
        true
    }

    /// Generate all calling shapes, rejecting an invalid ordering with a
    /// diagnostic that names the first required parameter that follows a
    /// defaulted one.
    pub fn permute_params_checked(&self) -> (r: Result<Vec<Vec<PermutedParam>>, ParamError>)
        ensures
            wf_order(self.params@) ==> (r matches Result::Ok(shapes) && shapes@.len()
                == shape_count(
                req_count(self.params@),
                (self.params@.len() - req_count(self.params@)) as nat,
            ) && forall|i: int|
                0 <= i < shapes@.len() ==> is_shape_of(self.params@, (#[trigger] shapes@[i])@)),
            !wf_order(self.params@) ==> (exists|i: int|
                #[trigger] offending_at(self.params@, i) && (forall|t: int|
                    0 <= t < i ==> !offending_at(self.params@, t)) && r == Result::Err::<
                    Vec<Vec<PermutedParam>>,
                    ParamError,
                >(ParamError::InvalidDefaultOrdering(self.params@[i].pat))),
    {
        let ps = &self.params;
        let k = Self::required_prefix_len(ps);
        let mut i: usize = k;
        while i < ps.len()
            invariant
                ps@ == self.params@,
                k <= i <= ps@.len(),
                k == req_count(ps@),
                k <= ps@.len(),
                forall|j: int| 0 <= j < k ==> is_required(#[trigger] ps@[j]),
                k < ps@.len() ==> !is_required(ps@[k as int]),
                forall|j: int| k <= j < i ==> !is_required(#[trigger] ps@[j]),
            decreases ps@.len() - i,
        {
            match &ps[i].default_value {
                ParamAttr::NoDefault => {
                    proof {
                        assert(is_required(ps@[i as int]));
                        assert(!is_required(ps@[k as int]));
                        assert(k < i);
                        assert(!wf_order(ps@));
                        assert(offending_at(ps@, i as int));
                        assert forall|t: int| 0 <= t < i implies !offending_at(ps@, t) by {
                            if t < k {
                                assert forall|j: int| 0 <= j < t implies is_required(
                                    #[trigger] ps@[j],
                                ) by {}
                            } else {
                                assert(!is_required(ps@[t]));
                            }
                        }
                    }
                    return Result::Err(ParamError::InvalidDefaultOrdering(ps[i].pat.clone()));
                },
                _ => {
                    i = i + 1;
                },
            }
        }
        proof {
            assert forall|a: int, b: int|
                0 <= a < b < ps@.len() && !(#[trigger] is_required(ps@[a])) implies !(
            #[trigger] is_required(ps@[b])) by {
                assert(a >= k);
            }
            assert(wf_order(ps@));
        }
        Result::Ok(self.permute_params())
    }
}

/// A required parameter standing after some defaulted one: the ordering
/// violation the engine rejects.
pub open spec fn offending_at(ps: Seq<FunctionParam>, i: int) -> bool {
    &&& 0 <= i < ps.len()
    &&& is_required(ps[i])
    &&& exists|j: int| 0 <= j < i && !is_required(#[trigger] ps[j])
}

} // verus!
