//! Source text: top-level segments separated by `#`, each a list of directives
//! separated by `;` and ending in the expression itself.
use vstd::prelude::*;

verus! {

/// `s` split at every `sep`, as `str::split` does: one piece more than there are separators.
pub open spec fn split_on(s: Seq<char>, sep: char) -> Seq<Seq<char>>
    decreases s.len(),
{
    if s.len() == 0 {
        seq![Seq::empty()]
    } else {
        let p = split_on(s.drop_last(), sep);
        if s.last() == sep {
            p.push(Seq::empty())
        } else {
            p.update(p.len() - 1, p.last().push(s.last()))
        }
    }
}

pub proof fn lemma_split_nonempty(s: Seq<char>, sep: char)
    ensures
        split_on(s, sep).len() >= 1,
    decreases s.len(),
{
    if s.len() > 0 {
        lemma_split_nonempty(s.drop_last(), sep);
    }
}

/// Splits `s` at every `sep`.
pub fn split_text(s: &str, sep: char) -> (r: Vec<String>)
    ensures
        r@.map_values(|p: String| p@) == split_on(s@, sep),
{
    let n = s.unicode_len();
    let mut pieces: Vec<String> = Vec::new();
    let mut start: usize = 0;
    let mut k: usize = 0;
    proof {
        assert(s@.take(0) =~= Seq::<char>::empty());
        assert(s@.subrange(0, 0) =~= Seq::<char>::empty());
        assert(pieces@.map_values(|p: String| p@).push(s@.subrange(0, 0)) =~= seq![Seq::<char>::empty()]);
    }
    while k < n
        invariant
            n == s@.len(),
            start <= k <= n,
            pieces@.map_values(|p: String| p@).push(s@.subrange(start as int, k as int)) == split_on(
                s@.take(k as int),
                sep,
            ),
        decreases n - k,
    {
        let c = s.get_char(k);
        proof {
            assert(s@.take(k + 1).drop_last() =~= s@.take(k as int));
            assert(s@.take(k + 1).last() == c);
        }
        if c == sep {
            let piece = s.substring_char(start, k).to_owned();
            let ghost before = pieces@.map_values(|p: String| p@);
            pieces.push(piece);
            proof {
                assert(pieces@.map_values(|p: String| p@) =~= before.push(piece@));
                assert(s@.subrange((k + 1) as int, (k + 1) as int) =~= Seq::<char>::empty());
            }
            start = k + 1;
        } else {
            proof {
                let p = split_on(s@.take(k as int), sep);
                assert(s@.subrange(start as int, k + 1) =~= s@.subrange(start as int, k as int).push(c));
                assert(pieces@.map_values(|p: String| p@).push(s@.subrange(start as int, k + 1)) =~= p.update(
                    p.len() - 1,
                    p.last().push(c),
                ));
            }
        }
        k += 1;
    }
    let last = s.substring_char(start, n).to_owned();
    let ghost before = pieces@.map_values(|p: String| p@);
    pieces.push(last);
    proof {
        assert(s@.take(n as int) =~= s@);
        assert(pieces@.map_values(|p: String| p@) =~= before.push(last@));
    }
    pieces
}

} // verus!

verus! {

/// `parts` joined with `sep` between each two.
pub open spec fn join_with(parts: Seq<Seq<char>>, sep: Seq<char>) -> Seq<char>
    decreases parts.len(),
{
    if parts.len() == 0 {
        Seq::empty()
    } else if parts.len() == 1 {
        parts[0]
    } else {
        join_with(parts.drop_last(), sep) + sep + parts.last()
    }
}

/// `s` with every `#` that directly follows a `;` removed (`replace(";#", ";")`).
pub open spec fn merge_empty(s: Seq<char>) -> Seq<char>
    decreases s.len(),
{
    if s.len() == 0 {
        s
    } else {
        let r = merge_empty(s.drop_last());
        if s.last() == '#' && s.len() >= 2 && s[s.len() - 2] == ';' {
            r
        } else {
            r.push(s.last())
        }
    }
}

/// The bound variables of one name that are kept: non-empty, and whose position
/// (`base` plus their index) is not hidden.
pub open spec fn kept_vars(vars: Seq<Seq<char>>, base: int, hidden: Seq<usize>) -> Seq<Seq<char>>
    decreases vars.len(),
{
    if vars.len() == 0 {
        Seq::empty()
    } else {
        let r = kept_vars(vars.drop_last(), base, hidden);
        let j = vars.len() - 1;
        if vars.last().len() > 0 && !hidden.contains((base + j) as usize) {
            r.push(vars.last())
        } else {
            r
        }
    }
}

/// The position of the first variable of name `t`: every variable and every name
/// before it takes one position.
pub open spec fn offset(names: Seq<(Seq<Seq<char>>, Seq<char>)>, t: int) -> int
    decreases t,
{
    if t <= 0 {
        0
    } else {
        offset(names, t - 1) + names[t - 1].0.len() + 1
    }
}

/// The source text of one name: its kept variables and the name, `;`-separated;
/// nothing when both are empty.
pub open spec fn entry_of(vars: Seq<Seq<char>>, name: Seq<char>) -> Option<Seq<char>> {
    if name.len() > 0 || vars.len() > 0 {
        Some(
            if vars.len() == 0 {
                name
            } else {
                join_with(vars, seq![';']) + seq![';'] + name
            },
        )
    } else {
        None
    }
}

pub open spec fn entries(names: Seq<(Seq<Seq<char>>, Seq<char>)>, hidden: Seq<usize>, t: int) -> Seq<Seq<char>>
    decreases t,
{
    if t <= 0 {
        Seq::empty()
    } else {
        let r = entries(names, hidden, t - 1);
        match entry_of(kept_vars(names[t - 1].0, offset(names, t - 1), hidden), names[t - 1].1) {
            Some(e) => r.push(e),
            None => r,
        }
    }
}

/// The source text rebuilt from the renderer's names: the entries `#`-joined,
/// with an entry of variables only merged into the next one.
pub open spec fn source_of(names: Seq<(Seq<Seq<char>>, Seq<char>)>, hidden: Seq<usize>) -> Seq<char> {
    merge_empty(join_with(entries(names, hidden, names.len() as int), seq!['#']))
}

pub open spec fn name_views(names: Seq<(Vec<String>, String)>) -> Seq<(Seq<Seq<char>>, Seq<char>)> {
    names.map_values(|n: (Vec<String>, String)| (n.0@.map_values(|v: String| v@), n.1@))
}

fn hidden_at(hidden: &Vec<usize>, i: usize) -> (r: bool)
    ensures
        r == hidden@.contains(i),
{
    let mut k: usize = 0;
    while k < hidden.len()
        invariant
            k <= hidden.len(),
            forall|j: int| 0 <= j < k ==> hidden@[j] != i,
        decreases hidden.len() - k,
    {
        if hidden[k] == i {
            return true;
        }
        k += 1;
    }
    false
}

/// Appends `part` to `out`, after `sep` unless `out` holds no part yet.
fn push_part(out: &mut String, first: bool, sep: &str, part: &str)
    ensures
        final(out)@ == if first {
            old(out)@ + part@
        } else {
            old(out)@ + sep@ + part@
        },
{
    if !first {
        out.append(sep);
    }
    out.append(part);
}

proof fn lemma_offset_mono(names: Seq<(Seq<Seq<char>>, Seq<char>)>, a: int, b: int)
    requires
        0 <= a <= b,
    ensures
        offset(names, a) <= offset(names, b),
    decreases b - a,
{
    if a < b {
        lemma_offset_mono(names, a, b - 1);
    }
}

proof fn lemma_join_push(parts: Seq<Seq<char>>, sep: Seq<char>, p: Seq<char>)
    ensures
        join_with(parts.push(p), sep) == if parts.len() == 0 {
            p
        } else {
            join_with(parts, sep) + sep + p
        },
{
    assert(parts.push(p).drop_last() =~= parts);
}

proof fn lemma_offset_step(names: Seq<(Seq<Seq<char>>, Seq<char>)>, t: int)
    requires
        0 <= t,
    ensures
        offset(names, t + 1) == offset(names, t) + names[t].0.len() + 1,
{
}

/// Rebuilds the source text from the renderer's names (bound variables, display
/// name), leaving out the variables at the `hidden` positions.
pub fn source_text(names: &Vec<(Vec<String>, String)>, hidden: &Vec<usize>) -> (r: String)
    requires
        offset(name_views(names@), names@.len() as int) < usize::MAX,
    ensures
        r@ == source_of(name_views(names@), hidden@),
{
    proof {
        reveal_strlit(";");
        reveal_strlit("#");
    }
    let ghost nv = name_views(names@);
    let mut joined = String::new();
    let mut count: usize = 0;
    let mut i: usize = 0;
    let mut t: usize = 0;
    proof {
        assert(joined@ =~= join_with(entries(nv, hidden@, 0), seq!['#']));
    }
    while t < names.len()
        invariant
            t <= names.len(),
            nv == name_views(names@),
            nv.len() == names@.len(),
            i == offset(nv, t as int),
            offset(nv, names@.len() as int) < usize::MAX,
            count <= t,
            count == entries(nv, hidden@, t as int).len(),
            joined@ == join_with(entries(nv, hidden@, t as int), seq!['#']),
            ";"@ == seq![';'],
            "#"@ == seq!['#'],
        decreases names.len() - t,
    {
        let (vars, name) = &names[t];
        let ghost vv = nv[t as int].0;
        assert(vv == vars@.map_values(|v: String| v@));
        let ghost base = i as int;
        let mut entry = String::new();
        let mut kept: usize = 0;
        let mut j: usize = 0;
        proof {
            lemma_offset_step(nv, t as int);
            lemma_offset_mono(nv, t + 1, names@.len() as int);
            assert(vv.take(0) =~= Seq::<Seq<char>>::empty());
            assert(entry@ =~= join_with(kept_vars(vv.take(0), base, hidden@), seq![';']));
        }
        while j < vars.len()
            invariant
                j <= vars.len(),
                vv == vars@.map_values(|v: String| v@),
                t < names.len(),
                i == base + j,
                base + vars.len() <= offset(nv, names@.len() as int),
                offset(nv, names@.len() as int) < usize::MAX,
                kept <= j,
                kept == kept_vars(vv.take(j as int), base, hidden@).len(),
                entry@ == join_with(kept_vars(vv.take(j as int), base, hidden@), seq![';']),
                ";"@ == seq![';'],
            decreases vars.len() - j,
        {
            let v = &vars[j];
            proof {
                assert(vv.take(j + 1).drop_last() =~= vv.take(j as int));
                assert(vv.take(j + 1).last() == v@);
            }
            if v.as_str().unicode_len() > 0 && !hidden_at(hidden, i) {
                proof {
                    let kv = kept_vars(vv.take(j as int), base, hidden@);
                    assert(kept_vars(vv.take(j + 1), base, hidden@) == kv.push(v@));
                    lemma_join_push(kv, seq![';'], v@);
                }
                push_part(&mut entry, kept == 0, ";", v.as_str());
                kept += 1;
            }
            i += 1;
            j += 1;
        }
        proof {
            assert(vv.take(vars.len() as int) =~= vv);
            lemma_offset_step(nv, t as int);
        }
        let keep = name.as_str().unicode_len() > 0 || kept > 0;
        if keep {
            if kept > 0 {
                entry.append(";");
            }
            entry.append(name.as_str());
            proof {
                lemma_join_push(entries(nv, hidden@, t as int), seq!['#'], entry@);
            }
            push_part(&mut joined, count == 0, "#", entry.as_str());
            count += 1;
        }
        i += 1;
        t += 1;
    }
    let mut out = String::new();
    let n = joined.as_str().unicode_len();
    let mut k: usize = 0;
    let ghost js = joined@;
    while k < n
        invariant
            k <= n,
            n == js.len(),
            js == joined@,
            out@ == merge_empty(js.take(k as int)),
        decreases n - k,
    {
        let c = joined.as_str().get_char(k);
        proof {
            assert(js.take(k + 1).drop_last() =~= js.take(k as int));
        }
        if c == '#' && k >= 1 && joined.as_str().get_char(k - 1) == ';' {
        } else {
            out.append(joined.as_str().substring_char(k, k + 1));
            assert(js.subrange(k as int, k + 1) =~= seq![c]);
        }
        k += 1;
    }
    assert(js.take(n as int) =~= js);
    out
}

} // verus!
