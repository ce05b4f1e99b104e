//! Building the registry from source text: each `#`-separated segment is split
//! into its directives and its expression, compiled, probed once, and classified.
use crate::kind::{classified, classify, is_list, is_list_spec, Mat, Outcome, Plot, Roles, Token, Val};
use crate::text::{lemma_split_nonempty, split_on, split_text};
use vstd::prelude::*;

verus! {

/// What the compiler gives for one expression.
pub struct Compiled<E> {
    /// The compiled expression.
    pub func: E,
    /// The axes it uses.
    pub how: Roles,
    /// Its tokens, and the tokens of each function it defines, for the list scan.
    pub tokens: Vec<Token>,
    pub var_tokens: Vec<(String, Vec<Token>)>,
}

/// The `;`-separated pieces of each `#`-separated segment.
pub open spec fn segment_parts(source: Seq<char>) -> Seq<Seq<Seq<char>>> {
    split_on(source, '#').map_values(|g: Seq<char>| split_on(g, ';'))
}

pub open spec fn starts_with_eq(s: Seq<char>, c: char) -> bool {
    s.len() >= 2 && s[0] == c && s[1] == '='
}

/// The expression of a segment as handed to the compiler: a leading `x=` or
/// `y=` dropped, and the rest in parentheses.
pub open spec fn expr_text(body: Seq<char>) -> Seq<char> {
    "("@ + (if starts_with_eq(body, 'x') || starts_with_eq(body, 'y') {
        body.skip(2)
    } else {
        body
    }) + ")"@
}

pub open spec fn no_roles_spec() -> Roles {
    Roles { graph: false, x: false, y: false }
}

/// The roles of a segment that did not compile: no axes, no graph.
#[verifier::when_used_as_spec(no_roles_spec)]
pub fn no_roles() -> (r: Roles)
    ensures
        r == no_roles_spec(),
{
    Roles { graph: false, x: false, y: false }
}

/// The roles of the first segment meant as a graph, if any.
pub open spec fn graph_roles<E>(cs: Seq<Option<Compiled<E>>>) -> Option<Roles>
    decreases cs.len(),
{
    if cs.len() == 0 {
        None
    } else {
        match graph_roles(cs.drop_last()) {
            Some(r) => Some(r),
            None => if cs.last() is Some && cs.last()->Some_0.how.graph {
                Some(cs.last()->Some_0.how)
            } else {
                None
            },
        }
    }
}

/// Every slot failed or holds a literal point set in space.
pub open spec fn all_space_literals<E>(plots: Seq<Option<Plot<E>>>) -> bool {
    forall|k: int|
        0 <= k < plots.len() ==> (#[trigger] plots[k]) is None || plots[k]->Some_0.graph_type.val@ is D3
}

/// The roles of the whole source: those of the first graph, else those of the
/// first segment; both axes where nothing but literal point sets in space came out.
pub open spec fn source_roles<E>(cs: Seq<Option<Compiled<E>>>, plots: Seq<Option<Plot<E>>>) -> Roles {
    let base = match graph_roles(cs) {
        Some(r) => r,
        None => if cs[0] is Some {
            cs[0]->Some_0.how
        } else {
            no_roles()
        },
    };
    if all_space_literals(plots) {
        Roles { x: true, y: true, ..base }
    } else {
        base
    }
}

/// Slot `p` is the classification of compiled result `c` from probe result `o`.
pub open spec fn plot_from<E>(c: Compiled<E>, o: Outcome, from_x: bool, p: Option<Plot<E>>) -> bool {
    match classified(o, c.how, from_x, is_list_spec(c.tokens@, c.var_tokens@)) {
        Some((sh, inv)) => p is Some && p->Some_0.func == c.func && p->Some_0.graph_type.val@ == sh
            && p->Some_0.graph_type.inv == inv && p->Some_0.graph_type.how == c.how,
        None => p is None,
    }
}

/// For every segment: `ts[k]` is the text compiled, `cs[k]` what `compile`
/// gave for it, `os[k]` what `probe` gave for the compiled expression, and
/// `plots[k]` the resulting slot.
pub open spec fn built<E, K: Fn(&String) -> Option<Compiled<E>>, P: Fn(&E, Roles) -> Outcome>(
    parts: Seq<Seq<Seq<char>>>,
    compile: K,
    probe: P,
    ts: Seq<String>,
    cs: Seq<Option<Compiled<E>>>,
    os: Seq<Outcome>,
    plots: Seq<Option<Plot<E>>>,
) -> bool {
    &&& ts.len() == parts.len() && cs.len() == parts.len() && os.len() == parts.len()
        && plots.len() == parts.len()
    &&& forall|k: int|
        #![trigger plots[k]]
        0 <= k < parts.len() ==> {
            &&& ts[k]@ == expr_text(parts[k].last())
            &&& call_ensures(compile, (&ts[k],), cs[k])
            &&& if cs[k] is Some {
                call_ensures(probe, (&cs[k]->Some_0.func, cs[k]->Some_0.how), os[k]) && plot_from(
                    cs[k]->Some_0,
                    os[k],
                    starts_with_eq(parts[k].last(), 'x'),
                    plots[k],
                )
            } else {
                plots[k] is None
            }
        }
}

/// What `init` may return for `source`: the slots built from its segments, the
/// directives and expression text of each segment, and the roles of the source;
/// or an error exactly when no slot holds a plot.
pub open spec fn initialized<E, K: Fn(&String) -> Option<Compiled<E>>, P: Fn(&E, Roles) -> Outcome>(
    source: Seq<char>,
    compile: K,
    probe: P,
    r: Result<(Vec<Option<Plot<E>>>, Vec<(Vec<String>, String)>, Roles), &'static str>,
) -> bool {
    let parts = segment_parts(source);
    exists|ts: Seq<String>, cs: Seq<Option<Compiled<E>>>, os: Seq<Outcome>, plots: Seq<Option<Plot<E>>>|
        #[trigger] built(parts, compile, probe, ts, cs, os, plots) && match r {
            Ok((data, names, how)) => {
                &&& data@ == plots
                &&& exists|k: int| 0 <= k < plots.len() && (#[trigger] plots[k]) is Some
                &&& names@.len() == parts.len()
                &&& forall|k: int|
                    0 <= k < parts.len() ==> (#[trigger] names@[k]).0@.map_values(|p: String| p@)
                        == parts[k].drop_last() && names@[k].1@ == parts[k].last()
                &&& how == source_roles(cs, plots)
            },
            Err(_) => forall|k: int| 0 <= k < plots.len() ==> (#[trigger] plots[k]) is None,
        }
}

/// Classification of a source text is stable: given a compiler that gives one
/// result per expression text and a probe that gives one result per expression,
/// two runs of `init` on the same text both fail or both succeed, with the same
/// number of slots, the same empty slots, the same shape, `inv` and roles in each
/// plot, and the same roles for the whole source.
pub proof fn init_is_stable<E, K: Fn(&String) -> Option<Compiled<E>>, P: Fn(&E, Roles) -> Outcome>(
    source: Seq<char>,
    compile: K,
    probe: P,
    r1: Result<(Vec<Option<Plot<E>>>, Vec<(Vec<String>, String)>, Roles), &'static str>,
    r2: Result<(Vec<Option<Plot<E>>>, Vec<(Vec<String>, String)>, Roles), &'static str>,
)
    requires
        forall|t1: &String, t2: &String, a: Option<Compiled<E>>, b: Option<Compiled<E>>|
            t1@ == t2@ && #[trigger] call_ensures(compile, (t1,), a) && #[trigger] call_ensures(
                compile,
                (t2,),
                b,
            ) ==> a == b,
        forall|e: &E, h: Roles, a: Outcome, b: Outcome|
            #[trigger] call_ensures(probe, (e, h), a) && #[trigger] call_ensures(probe, (e, h), b) ==> a
                == b,
        initialized(source, compile, probe, r1),
        initialized(source, compile, probe, r2),
    ensures
        r1 is Ok <==> r2 is Ok,
        r1 is Ok ==> {
            let (d1, _, h1) = r1->Ok_0;
            let (d2, _, h2) = r2->Ok_0;
            &&& d1@.len() == d2@.len()
            &&& h1 == h2
            &&& forall|k: int|
                0 <= k < d1@.len() ==> ((#[trigger] d1@[k]) is Some <==> d2@[k] is Some) && (d1@[k] is Some
                    ==> d1@[k]->Some_0.graph_type.val@ == d2@[k]->Some_0.graph_type.val@
                    && d1@[k]->Some_0.graph_type.inv == d2@[k]->Some_0.graph_type.inv
                    && d1@[k]->Some_0.graph_type.how == d2@[k]->Some_0.graph_type.how)
        },
{
    let parts = segment_parts(source);
    let (ts1, cs1, os1, p1) = choose|ts: Seq<String>, cs: Seq<Option<Compiled<E>>>, os: Seq<Outcome>, plots: Seq<Option<Plot<E>>>|
        #[trigger] built(parts, compile, probe, ts, cs, os, plots) && match r1 {
            Ok((data, names, how)) => {
                &&& data@ == plots
                &&& exists|k: int| 0 <= k < plots.len() && (#[trigger] plots[k]) is Some
                &&& names@.len() == parts.len()
                &&& forall|k: int|
                    0 <= k < parts.len() ==> (#[trigger] names@[k]).0@.map_values(|p: String| p@)
                        == parts[k].drop_last() && names@[k].1@ == parts[k].last()
                &&& how == source_roles(cs, plots)
            },
            Err(_) => forall|k: int| 0 <= k < plots.len() ==> (#[trigger] plots[k]) is None,
        };
    let (ts2, cs2, os2, p2) = choose|ts: Seq<String>, cs: Seq<Option<Compiled<E>>>, os: Seq<Outcome>, plots: Seq<Option<Plot<E>>>|
        #[trigger] built(parts, compile, probe, ts, cs, os, plots) && match r2 {
            Ok((data, names, how)) => {
                &&& data@ == plots
                &&& exists|k: int| 0 <= k < plots.len() && (#[trigger] plots[k]) is Some
                &&& names@.len() == parts.len()
                &&& forall|k: int|
                    0 <= k < parts.len() ==> (#[trigger] names@[k]).0@.map_values(|p: String| p@)
                        == parts[k].drop_last() && names@[k].1@ == parts[k].last()
                &&& how == source_roles(cs, plots)
            },
            Err(_) => forall|k: int| 0 <= k < plots.len() ==> (#[trigger] plots[k]) is None,
        };
    assert forall|k: int| 0 <= k < parts.len() implies cs1[k] == cs2[k] && (#[trigger] p1[k] is Some
        <==> p2[k] is Some) && (p1[k] is Some ==> p1[k]->Some_0.graph_type.val@
        == p2[k]->Some_0.graph_type.val@ && p1[k]->Some_0.graph_type.inv == p2[k]->Some_0.graph_type.inv
        && p1[k]->Some_0.graph_type.how == p2[k]->Some_0.graph_type.how) by {
        assert(p1[k] == p1[k] && p2[k] == p2[k]);
        assert(call_ensures(compile, (&ts1[k],), cs1[k]));
        assert(call_ensures(compile, (&ts2[k],), cs2[k]));
        if cs1[k] is Some {
            assert(call_ensures(probe, (&cs1[k]->Some_0.func, cs1[k]->Some_0.how), os1[k]));
            assert(call_ensures(probe, (&cs2[k]->Some_0.func, cs2[k]->Some_0.how), os2[k]));
        }
    }
    assert forall|k: int| 0 <= k < cs1.len() implies cs1[k] == cs2[k] by {
        assert(p1[k] is Some <==> p2[k] is Some);
    }
    assert(cs1 =~= cs2);
    assert(all_space_literals(p1) == all_space_literals(p2)) by {
        if all_space_literals(p1) {
            assert forall|k: int| 0 <= k < p2.len() implies (#[trigger] p2[k]) is None
                || p2[k]->Some_0.graph_type.val@ is D3 by {
                assert(p1[k] is None || p1[k]->Some_0.graph_type.val@ is D3);
            }
        }
        if all_space_literals(p2) {
            assert forall|k: int| 0 <= k < p1.len() implies (#[trigger] p1[k]) is None
                || p1[k]->Some_0.graph_type.val@ is D3 by {
                assert(p2[k] is None || p2[k]->Some_0.graph_type.val@ is D3);
            }
        }
    }
    if r1 is Ok {
        let w = choose|k: int| 0 <= k < p1.len() && (#[trigger] p1[k]) is Some;
        assert(p2[w] is Some);
    }
    if r2 is Ok {
        let w = choose|k: int| 0 <= k < p2.len() && (#[trigger] p2[k]) is Some;
        assert(p1[w] is Some);
    }
}

/// The directives of a segment and its expression: the pieces before the last `;`, and the last.
pub fn take_vars(function: &str) -> (r: (Vec<String>, String))
    ensures
        r.0@.map_values(|p: String| p@) == split_on(function@, ';').drop_last(),
        r.1@ == split_on(function@, ';').last(),
{
    let mut split = split_text(function, ';');
    proof {
        lemma_split_nonempty(function@, ';');
    }
    let ghost all = split@.map_values(|p: String| p@);
    let body = split.pop().unwrap();
    assert(split@.map_values(|p: String| p@) =~= all.drop_last());
    (split, body)
}

fn starts_with_assign(s: &str, c: char) -> (r: bool)
    ensures
        r == starts_with_eq(s@, c),
{
    s.unicode_len() >= 2 && s.get_char(0) == c && s.get_char(1) == '='
}

fn expression_text(body: &str) -> (r: String)
    ensures
        r@ == expr_text(body@),
{
    let mut t = String::from_str("(");
    if starts_with_assign(body, 'x') || starts_with_assign(body, 'y') {
        t.append(body.substring_char(2, body.unicode_len()));
        assert(body@.subrange(2, body@.len() as int) =~= body@.skip(2));
    } else {
        t.append(body);
    }
    t.append(")");
    t
}

/// Builds the registry's slots from source text. For each `#`-separated
/// segment, in order: its directives go to `apply`, its expression is compiled,
/// probed once with the free axes at zero, and classified; a segment that does
/// not compile or classify leaves an empty slot, so that later slots keep their
/// index. Also gives, per segment, its directives and its expression text (the
/// display names), and the roles of the whole source. Fails when no slot holds a plot.
pub fn init<
    E,
    D: Fn(&String),
    K: Fn(&String) -> Option<Compiled<E>>,
    P: Fn(&E, Roles) -> Outcome,
>(function: &str, apply: &D, compile: &K, probe: &P) -> (r: Result<
    (Vec<Option<Plot<E>>>, Vec<(Vec<String>, String)>, Roles),
    &'static str,
>)
    requires
        forall|d: &String| #[trigger] call_requires(*apply, (d,)),
        forall|t: &String| #[trigger] call_requires(*compile, (t,)),
        forall|e: &E, h: Roles| #[trigger] call_requires(*probe, (e, h)),
    ensures
        initialized(function@, *compile, *probe, r),
{
    let segs = split_text(function, '#');
    let ghost parts = segment_parts(function@);
    proof {
        lemma_split_nonempty(function@, '#');
    }
    let mut data: Vec<Option<Plot<E>>> = Vec::new();
    let mut names: Vec<(Vec<String>, String)> = Vec::new();
    let ghost mut ts: Seq<String> = Seq::empty();
    let ghost mut cs: Seq<Option<Compiled<E>>> = Seq::empty();
    let ghost mut os: Seq<Outcome> = Seq::empty();
    let mut graph: Option<Roles> = None;
    let mut first = no_roles();
    let mut any = false;
    let mut all_d3 = true;
    let mut k: usize = 0;
    while k < segs.len()
        invariant
            k <= segs.len(),
            segs@.len() == parts.len(),
            parts.len() >= 1,
            forall|q: int| 0 <= q < segs@.len() ==> split_on((#[trigger] segs@[q])@, ';') == parts[q],
            forall|d: &String| #[trigger] call_requires(*apply, (d,)),
            forall|t: &String| #[trigger] call_requires(*compile, (t,)),
            forall|e: &E, h: Roles| #[trigger] call_requires(*probe, (e, h)),
            built(parts.take(k as int), *compile, *probe, ts, cs, os, data@),
            names@.len() == k,
            forall|q: int|
                0 <= q < k ==> (#[trigger] names@[q]).0@.map_values(|p: String| p@)
                    == parts[q].drop_last() && names@[q].1@ == parts[q].last(),
            graph == graph_roles(cs),
            k > 0 ==> first == (if cs[0] is Some { cs[0]->Some_0.how } else { no_roles() }),
            any == exists|q: int| 0 <= q < k && (#[trigger] data@[q]) is Some,
            all_d3 == all_space_literals(data@),
        decreases segs.len() - k,
    {
        let (vars, body) = take_vars(segs[k].as_str());
        assert(split_on(segs@[k as int]@, ';') == parts[k as int]);
        let mut d: usize = 0;
        while d < vars.len()
            invariant
                forall|x: &String| #[trigger] call_requires(*apply, (x,)),
            decreases vars.len() - d,
        {
            apply(&vars[d]);
            d += 1;
        }
        let text = expression_text(body.as_str());
        let from_x = starts_with_assign(body.as_str(), 'x');
        let c = compile(&text);
        let c_how: Option<Roles> = match &c {
            Some(x) => Some(x.how),
            None => None,
        };
        let ghost c_snap = c;
        let ghost mut o_snap = Outcome::Failed;
        let slot = match c {
            None => None,
            Some(c) => {
                let list = is_list(&c.tokens, &c.var_tokens);
                let o = probe(&c.func, c.how);
                proof {
                    o_snap = o;
                }
                match classify(&o, c.how, from_x, list) {
                    Some(t) => Some(Plot { func: c.func, graph_type: t }),
                    None => None,
                }
            },
        };
        let is_some = slot.is_some();
        let is_d3 = match &slot {
            Some(p) => match &p.graph_type.val {
                Val::Matrix(Mat::D3(_)) => true,
                _ => false,
            },
            None => true,
        };
        let ghost prev_data = data@;
        let ghost prev_cs = cs;
        let ghost prev_ts = ts;
        let ghost prev_os = os;
        proof {
            ts = ts.push(text);
            cs = cs.push(c_snap);
            os = os.push(o_snap);
            assert(cs.drop_last() =~= prev_cs);
        }
        if k == 0 {
            first = match c_how {
                Some(h) => h,
                None => no_roles(),
            };
        }
        if graph.is_none() {
            if let Some(h) = c_how {
                if h.graph {
                    graph = Some(h);
                }
            }
        }
        any = any || is_some;
        all_d3 = all_d3 && is_d3;
        data.push(slot);
        proof {
            let pk = parts.take(k + 1);
            assert forall|q: int| #![trigger data@[q]] 0 <= q < pk.len() implies {
                &&& ts[q]@ == expr_text(pk[q].last())
                &&& call_ensures(*compile, (&ts[q],), cs[q])
                &&& if cs[q] is Some {
                    call_ensures(*probe, (&cs[q]->Some_0.func, cs[q]->Some_0.how), os[q]) && plot_from(
                        cs[q]->Some_0,
                        os[q],
                        starts_with_eq(pk[q].last(), 'x'),
                        data@[q],
                    )
                } else {
                    data@[q] is None
                }
            } by {
                if q < k {
                    assert(data@[q] == prev_data[q]);
                    assert(ts[q] == prev_ts[q]);
                    assert(cs[q] == prev_cs[q]);
                    assert(os[q] == prev_os[q]);
                    assert(pk[q] == parts.take(k as int)[q]);
                    assert(prev_data[q] == data@[q]);
                } else {
                    assert(pk[q] == parts[k as int]);
                }
            }
            assert(built(pk, *compile, *probe, ts, cs, os, data@));
            if is_some {
                assert(data@[k as int] is Some);
            }
            if !any {
                assert forall|q: int| 0 <= q < k + 1 implies !((#[trigger] data@[q]) is Some) by {
                    if q < k {
                        assert(data@[q] == prev_data[q]);
                    }
                }
            }
            if any && !is_some {
                let w = choose|q: int| 0 <= q < k && (#[trigger] prev_data[q]) is Some;
                assert(data@[w] == prev_data[w]);
            }
            assert forall|q: int| 0 <= q < k implies data@[q] == prev_data[q] by {}
            if all_d3 {
                assert forall|q: int| 0 <= q < data@.len() implies (#[trigger] data@[q]) is None
                    || data@[q]->Some_0.graph_type.val@ is D3 by {
                    if q < k {
                        assert(data@[q] == prev_data[q]);
                    }
                }
            }
            if !all_d3 && is_d3 {
                let w = choose|q: int| 0 <= q < prev_data.len() && !((#[trigger] prev_data[q]) is None
                    || prev_data[q]->Some_0.graph_type.val@ is D3);
                assert(data@[w] == prev_data[w]);
            }
        }
        names.push((vars, body));
        k += 1;
    }
    proof {
        assert(parts.take(segs.len() as int) =~= parts);
    }
    if !any {
        return Err("no data");
    }
    let base = match graph {
        Some(h) => h,
        None => first,
    };
    let how = if all_d3 {
        Roles { x: true, y: true, ..base }
    } else {
        base
    };
    Ok((data, names, how))
}

} // verus!
