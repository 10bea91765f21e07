//! Shape rendering: the match-pattern fragment a call site must match
//! for a shape to fire, and the call-expression fragment that rebuilds
//! the direct call.
//!
//! Rendering is tag-directed.  A positional slot captures an expression
//! under a fresh name derived from the binding pattern; a named or
//! supplied-default slot captures it behind a literal `pat =`; an omitted
//! default contributes nothing to the pattern and inlines its default
//! into the call.  A receiver is prepended to the call expression and
//! never appears in the pattern.

use vstd::prelude::*;
use vstd::string::StringExecFns;
use vstd::seq_lib::lemma_multiset_commutative;
use crate::engine::{def_shape_with_split, is_shape_of, req_shape_with_prefix};
use crate::params::{
    is_required, lemma_req_count_from, req_count, shape_params, slot_param, wf_order, FnReceiver,
    FunctionParam, ParamAttr, PermutedParam, ReceiverDesc,
};

verus! {

/// The fresh capture name derived from a binding pattern.
pub open spec fn capture_name(pat: Seq<char>) -> Seq<char> {
    pat + "_val"@
}

/// The match-pattern fragment of one slot: an omitted default
/// contributes none.
pub open spec fn macro_pattern_frag(s: PermutedParam) -> Option<Seq<char>> {
    match s {
        PermutedParam::Positional(p) => Option::Some("$"@ + capture_name(p.pat@) + ": expr"@),
        PermutedParam::Named(p) => Option::Some(
            p.pat@ + " = $"@ + capture_name(p.pat@) + ": expr"@,
        ),
        PermutedParam::DefaultUsed(p) => Option::Some(
            p.pat@ + " = $"@ + capture_name(p.pat@) + ": expr"@,
        ),
        PermutedParam::DefaultUnused(_) => Option::None,
    }
}

/// A slot can be rendered into a call fragment: an omitted default must
/// carry a default descriptor.
pub open spec fn slot_render_safe(s: PermutedParam) -> bool {
    s matches PermutedParam::DefaultUnused(p) ==> !(p.default_value is NoDefault)
}

/// Every slot of the shape can be rendered.
pub open spec fn shape_render_safe(shape: Seq<PermutedParam>) -> bool {
    forall|j: int| 0 <= j < shape.len() ==> slot_render_safe(#[trigger] shape[j])
}

/// The call-expression fragment of one slot: a captured expression, or
/// the inlined default of an omitted slot.
pub open spec fn call_fragment(s: PermutedParam) -> Seq<char> {
    match s {
        PermutedParam::Positional(p) => "$"@ + capture_name(p.pat@),
        PermutedParam::Named(p) => "$"@ + capture_name(p.pat@),
        PermutedParam::DefaultUsed(p) => "$"@ + capture_name(p.pat@),
        PermutedParam::DefaultUnused(p) => match p.default_value {
            ParamAttr::NoDefault => Seq::<char>::empty(),
            ParamAttr::ZeroValue => "std::default::Default::default()"@,
            ParamAttr::Expr(e) => e@,
        },
    }
}

/// The pattern fragments of a shape, in slot order, omitted defaults
/// contributing none.
pub open spec fn pattern_frags(shape: Seq<PermutedParam>) -> Seq<Seq<char>>
    decreases shape.len(),
{
    if shape.len() == 0 {
        Seq::<Seq<char>>::empty()
    } else {
        match macro_pattern_frag(shape[0]) {
            Option::Some(f) => seq![f] + pattern_frags(shape.drop_first()),
            Option::None => pattern_frags(shape.drop_first()),
        }
    }
}

/// The call fragments of a shape: every slot contributes one.
pub open spec fn call_frags(shape: Seq<PermutedParam>) -> Seq<Seq<char>> {
    shape.map_values(|s: PermutedParam| call_fragment(s))
}

/// Comma-separated concatenation of fragments.
pub open spec fn join_commas(frags: Seq<Seq<char>>) -> Seq<char>
    decreases frags.len(),
{
    if frags.len() == 0 {
        Seq::<char>::empty()
    } else if frags.len() == 1 {
        frags[0]
    } else {
        frags[0] + ", "@ + join_commas(frags.drop_first())
    }
}

/// The whole match pattern of a shape.
pub open spec fn shape_pattern(shape: Seq<PermutedParam>) -> Seq<char> {
    join_commas(pattern_frags(shape))
}

/// The receiver, rebuilt verbatim.
pub open spec fn receiver_text(rd: ReceiverDesc) -> Seq<char> {
    if rd.reference {
        "&"@ + (match rd.lifetime {
            Option::Some(lt) => lt@ + " "@,
            Option::None => Seq::<char>::empty(),
        }) + (if rd.mutable {
            "mut "@
        } else {
            Seq::<char>::empty()
        }) + "self"@
    } else {
        (if rd.mutable {
            "mut "@
        } else {
            Seq::<char>::empty()
        }) + "self"@ + (if rd.colon {
            ": "@ + rd.ty@
        } else {
            Seq::<char>::empty()
        })
    }
}

/// The whole call expression of a shape: the receiver, if any, prepended
/// to the call fragments of every slot in slot order.
pub open spec fn shape_call(recv: FnReceiver, shape: Seq<PermutedParam>) -> Seq<char> {
    match recv {
        FnReceiver::Absent => join_commas(call_frags(shape)),
        FnReceiver::Slf(rd) => if shape.len() == 0 {
            receiver_text(rd)
        } else {
            receiver_text(rd) + ", "@ + join_commas(call_frags(shape))
        },
    }
}

/// Appending a fragment extends a comma-joined list at its end.
proof fn lemma_join_push(frags: Seq<Seq<char>>, f: Seq<char>)
    ensures
        join_commas(frags.push(f)) == if frags.len() == 0 {
            f
        } else {
            join_commas(frags) + ", "@ + f
        },
    decreases frags.len(),
{
    if frags.len() == 0 {
        assert(frags.push(f)[0] == f);
    } else {
        lemma_join_push(frags.drop_first(), f);
        assert(frags.push(f).drop_first() =~= frags.drop_first().push(f));
        if frags.len() == 1 {
            assert(frags.drop_first().len() == 0);
            assert(join_commas(frags.push(f)) == frags[0] + ", "@ + f);
            assert(join_commas(frags) == frags[0]);
        } else {
            assert(join_commas(frags) + ", "@ + f == frags[0] + ", "@ + (join_commas(
                frags.drop_first(),
            ) + ", "@ + f)) by {
                assert((frags[0] + ", "@ + join_commas(frags.drop_first())) + ", "@ + f =~= frags[0]
                    + ", "@ + (join_commas(frags.drop_first()) + ", "@ + f));
            }
        }
    }
}

/// The pattern fragments of a shape extended by one slot.
proof fn lemma_pattern_frags_push(shape: Seq<PermutedParam>, s: PermutedParam)
    ensures
        pattern_frags(shape.push(s)) == match macro_pattern_frag(s) {
            Option::Some(f) => pattern_frags(shape).push(f),
            Option::None => pattern_frags(shape),
        },
    decreases shape.len(),
{
    if shape.len() == 0 {
        assert(shape =~= Seq::<PermutedParam>::empty());
        assert(shape.push(s)[0] == s);
        assert(shape.push(s).drop_first() =~= Seq::<PermutedParam>::empty());
        match macro_pattern_frag(s) {
            Option::Some(f) => {
                assert(seq![f] + pattern_frags(Seq::<PermutedParam>::empty()) =~= pattern_frags(
                    shape,
                ).push(f));
            },
            Option::None => {},
        }
    } else {
        lemma_pattern_frags_push(shape.drop_first(), s);
        assert(shape.push(s)[0] == shape[0]);
        assert(shape.push(s).drop_first() =~= shape.drop_first().push(s));
        match macro_pattern_frag(shape[0]) {
            Option::Some(f0) => {
                match macro_pattern_frag(s) {
                    Option::Some(f) => {
                        assert(seq![f0] + pattern_frags(shape.drop_first()).push(f) =~= (seq![f0]
                            + pattern_frags(shape.drop_first())).push(f));
                    },
                    Option::None => {},
                }
            },
            Option::None => {},
        }
    }
}

/// The call fragments of a shape extended by one slot.
proof fn lemma_call_frags_push(shape: Seq<PermutedParam>, s: PermutedParam)
    ensures
        call_frags(shape.push(s)) == call_frags(shape).push(call_fragment(s)),
{
    assert(call_frags(shape.push(s)) =~= call_frags(shape).push(call_fragment(s)));
}

impl PermutedParam {
    /// The match-pattern fragment of this slot, if it has one: an omitted
    /// default is absent from the pattern.
    pub fn to_macro_pattern(&self) -> (r: Option<String>)
        ensures
            match r {
                Option::Some(s) => macro_pattern_frag(*self) == Option::Some(s@),
                Option::None => macro_pattern_frag(*self) is None,
            },
    {
        match self {
            PermutedParam::Positional(p) => {
                let mut s = String::from_str("$");
                s.append(p.pat.as_str());
                s.append("_val: expr");
                proof {
                    assert(s@ =~= "$"@ + capture_name(p.pat@) + ": expr"@) by {
                        assert("_val: expr"@ =~= "_val"@ + ": expr"@) by {
                            reveal_strlit("_val: expr");
                            reveal_strlit("_val");
                            reveal_strlit(": expr");
                        }
                    }
                }
                Option::Some(s)
            },
            PermutedParam::Named(p) => Option::Some(named_fragment(p)),
            PermutedParam::DefaultUsed(p) => Option::Some(named_fragment(p)),
            PermutedParam::DefaultUnused(_) => Option::None,
        }
    }

    /// The call-expression fragment of this slot: the captured
    /// expression, or, for an omitted default, the inlined default.
    pub fn to_func_call_pattern(&self) -> (r: String)
        requires
            slot_render_safe(*self),
        ensures
            r@ == call_fragment(*self),
    {
        match self {
            PermutedParam::Positional(p) => capture_ref(p),
            PermutedParam::Named(p) => capture_ref(p),
            PermutedParam::DefaultUsed(p) => capture_ref(p),
            PermutedParam::DefaultUnused(p) => match &p.default_value {
                ParamAttr::NoDefault => {
                    proof {
                        assert(false);
                    }
                    String::new()
                },
                ParamAttr::ZeroValue => String::from_str("std::default::Default::default()"),
                ParamAttr::Expr(e) => e.clone(),
            },
        }
    }
}

/// `pat = $pat_val: expr`: the pattern fragment of a named slot.
fn named_fragment(p: &FunctionParam) -> (r: String)
    ensures
        r@ == p.pat@ + " = $"@ + capture_name(p.pat@) + ": expr"@,
{
    let mut s = p.pat.clone();
    s.append(" = $");
    s.append(p.pat.as_str());
    s.append("_val: expr");
    proof {
        assert(s@ =~= p.pat@ + " = $"@ + capture_name(p.pat@) + ": expr"@) by {
            assert("_val: expr"@ =~= "_val"@ + ": expr"@) by {
                reveal_strlit("_val: expr");
                reveal_strlit("_val");
                reveal_strlit(": expr");
            }
        }
    }
    s
}

/// `$pat_val`: the call fragment of a captured slot.
fn capture_ref(p: &FunctionParam) -> (r: String)
    ensures
        r@ == "$"@ + capture_name(p.pat@),
{
    let mut s = String::from_str("$");
    s.append(p.pat.as_str());
    s.append("_val");
    proof {
        assert(s@ =~= "$"@ + capture_name(p.pat@));
    }
    s
}

/// The receiver's verbatim text.
fn render_receiver(rd: &ReceiverDesc) -> (r: String)
    ensures
        r@ == receiver_text(*rd),
{
    if rd.reference {
        let mut s = String::from_str("&");
        match &rd.lifetime {
            Option::Some(lt) => {
                s.append(lt.as_str());
                s.append(" ");
            },
            Option::None => {},
        }
        if rd.mutable {
            s.append("mut ");
        }
        s.append("self");
        proof {
            assert(s@ =~= receiver_text(*rd));
        }
        s
    } else {
        let mut s = if rd.mutable {
            String::from_str("mut ")
        } else {
            String::new()
        };
        s.append("self");
        if rd.colon {
            s.append(": ");
            s.append(rd.ty.as_str());
        }
        proof {
            assert(s@ =~= receiver_text(*rd));
        }
        s
    }
}

/// Render one shape: the match pattern a call site must match, and the
/// call expression that rebuilds the direct call, the receiver, if any,
/// prepended to the latter and absent from the former.
pub fn render(receiver: &FnReceiver, shape: &Vec<PermutedParam>) -> (r: (String, String))
    requires
        shape_render_safe(shape@),
    ensures
        r.0@ == shape_pattern(shape@),
        r.1@ == shape_call(*receiver, shape@),
{
    let mut pattern = String::new();
    let mut pattern_started = false;
    let mut call = String::new();
    let mut call_started = false;
    match receiver {
        FnReceiver::Absent => {},
        FnReceiver::Slf(rd) => {
            let rt = render_receiver(rd);
            call.append(rt.as_str());
            call_started = true;
        },
    }
    let ghost call_prefix = call@;
    let ghost has_recv = !(receiver is Absent);
    let mut i: usize = 0;
    while i < shape.len()
        invariant
            shape_render_safe(shape@),
            0 <= i <= shape@.len(),
            pattern@ == join_commas(pattern_frags(shape@.take(i as int))),
            pattern_started == (pattern_frags(shape@.take(i as int)).len() > 0),
            call_started == (has_recv || i > 0),
            i == 0 ==> call@ == call_prefix,
            i > 0 ==> call@ == (if has_recv {
                call_prefix + ", "@ + join_commas(call_frags(shape@.take(i as int)))
            } else {
                join_commas(call_frags(shape@.take(i as int)))
            }),
            has_recv == !(receiver is Absent),
            call_prefix == match *receiver {
                FnReceiver::Absent => Seq::<char>::empty(),
                FnReceiver::Slf(rd) => receiver_text(rd),
            },
        decreases shape@.len() - i,
    {
        let ghost pre = shape@.take(i as int);
        proof {
            assert(shape@.take(i as int + 1) =~= pre.push(shape@[i as int]));
            lemma_pattern_frags_push(pre, shape@[i as int]);
            lemma_call_frags_push(pre, shape@[i as int]);
            lemma_join_push(pattern_frags(pre), match macro_pattern_frag(shape@[i as int]) {
                Option::Some(f) => f,
                Option::None => Seq::<char>::empty(),
            });
            lemma_join_push(call_frags(pre), call_fragment(shape@[i as int]));
        }
        let slot = &shape[i];
        match slot.to_macro_pattern() {
            Option::Some(frag) => {
                if pattern_started {
                    pattern.append(", ");
                }
                pattern.append(frag.as_str());
                pattern_started = true;
            },
            Option::None => {},
        }
        let cfrag = slot.to_func_call_pattern();
        if call_started {
            call.append(", ");
        }
        call.append(cfrag.as_str());
        call_started = true;
        proof {
            if i == 0 {
                assert(join_commas(call_frags(shape@.take(1))) == call_fragment(
                    shape@[i as int],
                )) by {
                    assert(call_frags(shape@.take(1)).len() == 1);
                    assert(call_frags(shape@.take(1))[0] == call_fragment(shape@[0]));
                }
            }
        }
        i = i + 1;
    }
    proof {
        assert(shape@.take(shape@.len() as int) =~= shape@);
        if shape@.len() == 0 {
            assert(call_frags(shape@) =~= Seq::<Seq<char>>::empty());
        }
        if shape@.len() == 0 {
            assert(pattern_frags(shape@) =~= Seq::<Seq<char>>::empty());
        }
    }
    (pattern, call)
}

/// Rendering totality: every shape the engine generates renders without
/// failure, because no omitted slot lacks a default, and its slots carry
/// every declared parameter exactly once, so the call expression rebuilds
/// the full argument list.
pub proof fn lemma_rendering_total(ps: Seq<FunctionParam>, shape: Seq<PermutedParam>)
    requires
        wf_order(ps),
        is_shape_of(ps, shape),
    ensures
        shape_render_safe(shape),
        shape_params(shape).to_multiset() == ps.to_multiset(),
        call_frags(shape).len() == ps.len(),
{
    broadcast use vstd::seq_lib::group_to_multiset_ensures;

    let k = req_count(ps) as int;
    lemma_req_count_from(ps, 0);
    let front = shape.take(k);
    let back = shape.skip(k);
    let reqs = ps.take(k);
    let defs = ps.skip(k);
    let i = choose|i: int| req_shape_with_prefix(reqs, front, i);
    let c = choose|c: int| def_shape_with_split(defs, back, c);

    // every slot is render-safe
    assert forall|j: int| 0 <= j < shape.len() implies slot_render_safe(#[trigger] shape[j]) by {
        if j < k {
            assert(shape[j] == front[j]);
            if j < i {
                assert(front[j] == PermutedParam::Positional(reqs[j]));
            } else {
                assert(front[j] is Named);
            }
        } else {
            assert(shape[j] == back[j - k]);
            if j - k >= c {
                let p = slot_param(back[j - k]);
                assert(shape_params(back)[j - k] == p);
                assert(shape_params(back).contains(p));
                assert(shape_params(back).to_multiset().count(p) > 0);
                assert(defs.to_multiset().count(p) > 0);
                assert(defs.contains(p));
                let t = choose|t: int| 0 <= t < defs.len() && defs[t] == p;
                assert(!is_required(ps[k + t]));
            }
        }
    }

    // the slots carry every declared parameter exactly once
    assert(shape =~= front + back);
    assert(shape_params(shape) =~= shape_params(front) + shape_params(back));
    lemma_multiset_commutative(shape_params(front), shape_params(back));
    assert(shape_params(front.take(i)) =~= reqs.take(i)) by {
        assert forall|j: int| 0 <= j < i implies shape_params(front.take(i))[j] == reqs.take(
            i,
        )[j] by {
            assert(front[j] == PermutedParam::Positional(reqs[j]));
        }
    }
    assert(shape_params(front.skip(i)) =~= shape_params(front).skip(i));
    assert(shape_params(front) =~= shape_params(front.take(i)) + shape_params(front.skip(i))) by {
        assert(front =~= front.take(i) + front.skip(i));
    }
    lemma_multiset_commutative(shape_params(front.take(i)), shape_params(front.skip(i)));
    assert(reqs =~= reqs.take(i) + reqs.skip(i));
    lemma_multiset_commutative(reqs.take(i), reqs.skip(i));
    assert(shape_params(front).to_multiset() == reqs.to_multiset());
    assert(ps =~= reqs + defs);
    lemma_multiset_commutative(reqs, defs);
    assert(shape_params(shape).to_multiset() == ps.to_multiset());

    // one call fragment per slot, one slot per declared parameter
    assert(call_frags(shape).len() == shape.len());
    assert(shape.len() == ps.len());
}

} // verus!
