use vstd::prelude::*;

use super::shader::{
    ParseState, ShaderStage, contains, lemma_split_lines_len, fragment_directive, occurs_at, parse_line, parse_lines,
    parse_spec, split_lines, vertex_directive,
};

verus! {

/// Lines joined back into a stage text: each line newline-prefixed, in order.
pub open spec fn join_lines(ls: Seq<Seq<char>>) -> Seq<char>
    decreases ls.len(),
{
    if ls.len() == 0 {
        Seq::<char>::empty()
    } else {
        join_lines(ls.drop_last()) + seq!['\n'] + ls.last()
    }
}

/// A line that a parse keeps: non-empty, without a newline, and not a directive.
pub open spec fn code_line(l: Seq<char>) -> bool {
    &&& l.len() > 0
    &&& !l.contains('\n')
    &&& !contains(l, vertex_directive())
    &&& !contains(l, fragment_directive())
}

/// The parse of `lines`, in order, from the state `st`.
pub open spec fn parse_from(st: Option<ParseState>, lines: Seq<Seq<char>>) -> Option<ParseState>
    decreases lines.len(),
{
    if lines.len() == 0 {
        st
    } else {
        match parse_from(st, lines.drop_last()) {
            None => None,
            Some(s) => parse_line(s, lines.last()),
        }
    }
}

pub open spec fn initial_state() -> ParseState {
    (ShaderStage::Undefined, Seq::<char>::empty(), Seq::<char>::empty())
}

proof fn lemma_parse_lines_from(lines: Seq<Seq<char>>)
    ensures
        parse_lines(lines) == parse_from(Some(initial_state()), lines),
    decreases lines.len(),
{
    if lines.len() > 0 {
        lemma_parse_lines_from(lines.drop_last());
    }
}

proof fn lemma_parse_from_concat(st: Option<ParseState>, a: Seq<Seq<char>>, b: Seq<Seq<char>>)
    ensures
        parse_from(st, a + b) == parse_from(parse_from(st, a), b),
    decreases b.len(),
{
    if b.len() == 0 {
        assert(a + b =~= a);
    } else {
        assert((a + b).drop_last() =~= a + b.drop_last());
        assert((a + b).last() == b.last());
        lemma_parse_from_concat(st, a, b.drop_last());
    }
}

proof fn lemma_split_lines_no_newline(s: Seq<char>)
    ensures
        forall|i: int| 0 <= i < split_lines(s).len() ==> !(#[trigger] split_lines(s)[i]).contains('\n'),
    decreases s.len(),
{
    if s.len() > 0 {
        let p = s.drop_last();
        lemma_split_lines_no_newline(p);
        lemma_split_lines_len(p);
        let ls = split_lines(p);
        if s.last() != '\n' {
            let l = ls.last().push(s.last());
            assert forall|j: int| 0 <= j < l.len() implies l[j] != '\n' by {
                if j < l.len() - 1 {
                    assert(l[j] == ls.last()[j]);
                    assert(!ls[ls.len() - 1].contains('\n'));
                }
            }
            assert forall|i: int| 0 <= i < split_lines(s).len() implies !(#[trigger] split_lines(s)[i]).contains('\n') by {
                if i < ls.len() - 1 {
                    assert(split_lines(s)[i] == ls[i]);
                }
            }
        } else {
            assert forall|i: int| 0 <= i < split_lines(s).len() implies !(#[trigger] split_lines(s)[i]).contains('\n') by {
                if i < ls.len() {
                    assert(split_lines(s)[i] == ls[i]);
                } else {
                    assert(split_lines(s)[i] =~= Seq::<char>::empty());
                }
            }
        }
    }
}

proof fn lemma_split_lines_concat(a: Seq<char>, b: Seq<char>)
    ensures
        split_lines(a + seq!['\n'] + b) == split_lines(a) + split_lines(b),
    decreases b.len(),
{
    let an = a + seq!['\n'];
    if b.len() == 0 {
        assert(an + b =~= an);
        assert(an.drop_last() =~= a);
        assert(split_lines(a) + split_lines(b) =~= split_lines(a).push(Seq::<char>::empty()));
    } else {
        lemma_split_lines_concat(a, b.drop_last());
        lemma_split_lines_len(b.drop_last());
        assert((an + b).drop_last() =~= an + b.drop_last());
        assert((an + b).last() == b.last());
        let lb = split_lines(b.drop_last());
        let la = split_lines(a);
        if b.last() == '\n' {
            assert(split_lines(an + b) =~= (la + lb).push(Seq::<char>::empty()));
            assert(la + split_lines(b) =~= (la + lb).push(Seq::<char>::empty()));
        } else {
            assert(split_lines(an + b) =~= (la + lb).update(la.len() + lb.len() - 1, lb.last().push(b.last())));
            assert(la + split_lines(b) =~= (la + lb).update(la.len() + lb.len() - 1, lb.last().push(b.last())));
        }
    }
}

proof fn lemma_split_single_line(l: Seq<char>)
    requires
        !l.contains('\n'),
    ensures
        split_lines(l) == seq![l],
    decreases l.len(),
{
    if l.len() == 0 {
        assert(l =~= Seq::<char>::empty());
        assert(split_lines(l) =~= seq![l]);
    } else {
        let p = l.drop_last();
        assert(!p.contains('\n')) by {
            assert forall|j: int| 0 <= j < p.len() implies p[j] != '\n' by {
                assert(p[j] == l[j]);
            }
        }
        assert(l[l.len() - 1] != '\n');
        lemma_split_single_line(p);
        assert(p.push(l.last()) =~= l);
        let ls = split_lines(p);
        assert(ls.last() == p);
        assert(split_lines(l) == ls.update(ls.len() - 1, ls.last().push(l.last())));
        assert(split_lines(l) =~= seq![l]);
    }
}

proof fn lemma_split_join(p: Seq<char>, ls: Seq<Seq<char>>)
    requires
        !p.contains('\n'),
        forall|i: int| 0 <= i < ls.len() ==> !(#[trigger] ls[i]).contains('\n'),
    ensures
        split_lines(p + join_lines(ls)) == seq![p] + ls,
    decreases ls.len(),
{
    if ls.len() == 0 {
        assert(p + join_lines(ls) =~= p);
        lemma_split_single_line(p);
        assert(seq![p] + ls =~= seq![p]);
    } else {
        let init = ls.drop_last();
        assert forall|i: int| 0 <= i < init.len() implies !(#[trigger] init[i]).contains('\n') by {
            assert(init[i] == ls[i]);
        }
        lemma_split_join(p, init);
        assert(p + join_lines(ls) =~= (p + join_lines(init)) + seq!['\n'] + ls.last());
        lemma_split_lines_concat(p + join_lines(init), ls.last());
        assert(!ls[ls.len() - 1].contains('\n'));
        lemma_split_single_line(ls.last());
        assert(seq![p] + ls =~= (seq![p] + init) + seq![ls.last()]);
    }
}

proof fn lemma_append_code_lines(stage: ShaderStage, v: Seq<char>, f: Seq<char>, ls: Seq<Seq<char>>)
    requires
        stage != ShaderStage::Undefined,
        forall|i: int| 0 <= i < ls.len() ==> code_line(#[trigger] ls[i]),
    ensures
        stage == ShaderStage::Vertex ==> parse_from(Some((stage, v, f)), ls) == Some((stage, v + join_lines(ls), f)),
        stage == ShaderStage::Fragment ==> parse_from(Some((stage, v, f)), ls) == Some((stage, v, f + join_lines(ls))),
    decreases ls.len(),
{
    if ls.len() == 0 {
        assert(v + join_lines(ls) =~= v);
        assert(f + join_lines(ls) =~= f);
    } else {
        let init = ls.drop_last();
        assert forall|i: int| 0 <= i < init.len() implies code_line(#[trigger] init[i]) by {
            assert(init[i] == ls[i]);
        }
        lemma_append_code_lines(stage, v, f, init);
        assert(code_line(ls[ls.len() - 1]));
        assert(v + join_lines(init) + seq!['\n'] + ls.last() =~= v + join_lines(ls));
        assert(f + join_lines(init) + seq!['\n'] + ls.last() =~= f + join_lines(ls));
    }
}

/// The lines that a parse kept, per stage, given that it succeeded.
proof fn lemma_parse_output(lines: Seq<Seq<char>>) -> (r: (Seq<Seq<char>>, Seq<Seq<char>>))
    requires
        parse_lines(lines) is Some,
        forall|i: int| 0 <= i < lines.len() ==> !(#[trigger] lines[i]).contains('\n'),
    ensures
        parse_lines(lines) matches Some(st) && st.1 == join_lines(r.0) && st.2 == join_lines(r.1),
        forall|i: int| 0 <= i < r.0.len() ==> code_line(#[trigger] r.0[i]),
        forall|i: int| 0 <= i < r.1.len() ==> code_line(#[trigger] r.1[i]),
    decreases lines.len(),
{
    if lines.len() == 0 {
        let e = Seq::<Seq<char>>::empty();
        assert(join_lines(e) == Seq::<char>::empty());
        (e, e)
    } else {
        let init = lines.drop_last();
        assert forall|i: int| 0 <= i < init.len() implies !(#[trigger] init[i]).contains('\n') by {
            assert(init[i] == lines[i]);
        }
        let (vl, fl) = lemma_parse_output(init);
        let st = parse_lines(init)->0;
        let line = lines.last();
        assert(!lines[lines.len() - 1].contains('\n'));
        if line.len() == 0 || contains(line, vertex_directive()) || contains(line, fragment_directive()) {
            (vl, fl)
        } else if st.0 == ShaderStage::Vertex {
            let vl2 = vl.push(line);
            assert(vl2.drop_last() =~= vl);
            assert forall|i: int| 0 <= i < vl2.len() implies code_line(#[trigger] vl2[i]) by {
                if i < vl.len() {
                    assert(vl2[i] == vl[i]);
                }
            }
            (vl2, fl)
        } else {
            let fl2 = fl.push(line);
            assert(fl2.drop_last() =~= fl);
            assert forall|i: int| 0 <= i < fl2.len() implies code_line(#[trigger] fl2[i]) by {
                if i < fl.len() {
                    assert(fl2[i] == fl[i]);
                }
            }
            (vl, fl2)
        }
    }
}

proof fn lemma_directive_facts()
    ensures
        !vertex_directive().contains('\n'),
        !fragment_directive().contains('\n'),
        vertex_directive().len() > 0,
        fragment_directive().len() > 0,
        contains(vertex_directive(), vertex_directive()),
        contains(fragment_directive(), fragment_directive()),
        !contains(fragment_directive(), vertex_directive()),
{
    let dv = vertex_directive();
    let df = fragment_directive();
    assert(dv.subrange(0, dv.len() as int) =~= dv);
    assert(occurs_at(dv, dv, 0));
    assert(df.subrange(0, df.len() as int) =~= df);
    assert(occurs_at(df, df, 0));
    assert forall|k: int| !occurs_at(df, dv, k) by {
        if 0 <= k && k + dv.len() <= df.len() {
            if k == 0 {
                assert(df.subrange(k, k + dv.len())[7] != dv[7]);
            } else {
                assert(df.subrange(k, k + dv.len())[0] != dv[0]);
            }
        }
    }
    assert forall|j: int| 0 <= j < dv.len() implies dv[j] != '\n' by {}
    assert forall|j: int| 0 <= j < df.len() implies df[j] != '\n' by {}
}

/// The lines of a serialized pair of stage texts.
proof fn lemma_split_serialized(vl: Seq<Seq<char>>, fl: Seq<Seq<char>>)
    requires
        forall|i: int| 0 <= i < vl.len() ==> code_line(#[trigger] vl[i]),
        forall|i: int| 0 <= i < fl.len() ==> code_line(#[trigger] fl[i]),
    ensures
        split_lines(vertex_directive() + join_lines(vl) + seq!['\n'] + fragment_directive() + join_lines(fl))
            == ((seq![vertex_directive()] + vl) + seq![fragment_directive()]) + fl,
{
    let dv = vertex_directive();
    let df = fragment_directive();
    lemma_directive_facts();
    assert forall|i: int| 0 <= i < vl.len() implies !(#[trigger] vl[i]).contains('\n') by {
        assert(code_line(vl[i]));
    }
    assert forall|i: int| 0 <= i < fl.len() implies !(#[trigger] fl[i]).contains('\n') by {
        assert(code_line(fl[i]));
    }
    let out = dv + join_lines(vl) + seq!['\n'] + df + join_lines(fl);
    assert(out =~= (dv + join_lines(vl)) + seq!['\n'] + (df + join_lines(fl)));
    lemma_split_lines_concat(dv + join_lines(vl), df + join_lines(fl));
    lemma_split_join(dv, vl);
    lemma_split_join(df, fl);
    assert(split_lines(out) =~= ((seq![dv] + vl) + seq![df]) + fl);
}

proof fn lemma_parse_directive_lines(v: Seq<char>)
    ensures
        parse_from(Some(initial_state()), seq![vertex_directive()]) == Some(
            (ShaderStage::Vertex, Seq::<char>::empty(), Seq::<char>::empty()),
        ),
        parse_from(Some((ShaderStage::Vertex, v, Seq::<char>::empty())), seq![fragment_directive()]) == Some(
            (ShaderStage::Fragment, v, Seq::<char>::empty()),
        ),
{
    lemma_directive_facts();
    let e = Seq::<Seq<char>>::empty();
    let a = seq![vertex_directive()];
    let b = seq![fragment_directive()];
    assert(a.drop_last() =~= e);
    assert(a.last() == vertex_directive());
    assert(parse_from(Some(initial_state()), e) == Some(initial_state()));
    assert(parse_line(initial_state(), vertex_directive()) == Some(
        (ShaderStage::Vertex, Seq::<char>::empty(), Seq::<char>::empty()),
    ));
    assert(b.drop_last() =~= e);
    assert(b.last() == fragment_directive());
    let st = (ShaderStage::Vertex, v, Seq::<char>::empty());
    assert(parse_from(Some(st), e) == Some(st));
    assert(parse_line(st, fragment_directive()) == Some((ShaderStage::Fragment, v, Seq::<char>::empty())));
}

/// The parse of the lines of a serialized pair of stage texts.
proof fn lemma_parse_serialized(vl: Seq<Seq<char>>, fl: Seq<Seq<char>>)
    requires
        forall|i: int| 0 <= i < vl.len() ==> code_line(#[trigger] vl[i]),
        forall|i: int| 0 <= i < fl.len() ==> code_line(#[trigger] fl[i]),
    ensures
        parse_lines(((seq![vertex_directive()] + vl) + seq![fragment_directive()]) + fl)
            == Some((ShaderStage::Fragment, join_lines(vl), join_lines(fl))),
{
    let dv = vertex_directive();
    let df = fragment_directive();
    let a = seq![dv];
    let b = seq![df];
    let empty = Seq::<char>::empty();
    lemma_parse_lines_from(((a + vl) + b) + fl);
    let init = Some(initial_state());
    lemma_parse_from_concat(init, (a + vl) + b, fl);
    lemma_parse_from_concat(init, a + vl, b);
    lemma_parse_from_concat(init, a, vl);
    lemma_parse_directive_lines(join_lines(vl));
    lemma_append_code_lines(ShaderStage::Vertex, empty, empty, vl);
    assert(empty + join_lines(vl) =~= join_lines(vl));
    lemma_append_code_lines(ShaderStage::Fragment, join_lines(vl), empty, fl);
    assert(empty + join_lines(fl) =~= join_lines(fl));
}

/// Parsing a source and writing its two texts back, each after its own
/// directive line, gives a source that parses to the same two texts.
pub proof fn lemma_parse_round_trip(source: Seq<char>)
    requires
        parse_spec(source) is Some,
    ensures
        ({
            let (v, f) = parse_spec(source)->0;
            parse_spec(vertex_directive() + v + seq!['\n'] + fragment_directive() + f) == Some((v, f))
        }),
{
    let lines = split_lines(source);
    lemma_split_lines_no_newline(source);
    let (vl, fl) = lemma_parse_output(lines);
    lemma_split_serialized(vl, fl);
    lemma_parse_serialized(vl, fl);
}

proof fn lemma_split_literal(fl: Seq<Seq<char>>)
    requires
        forall|i: int| 0 <= i < fl.len() ==> code_line(#[trigger] fl[i]),
    ensures
        split_lines(vertex_directive() + seq!['\n'] + fragment_directive() + seq!['\n'] + join_lines(fl))
            == ((seq![vertex_directive()] + seq![fragment_directive()]) + seq![Seq::<char>::empty()]) + fl,
{
    let dv = vertex_directive();
    let df = fragment_directive();
    let e = Seq::<char>::empty();
    lemma_directive_facts();
    assert forall|i: int| 0 <= i < fl.len() implies !(#[trigger] fl[i]).contains('\n') by {
        assert(code_line(fl[i]));
    }
    let out = dv + seq!['\n'] + df + seq!['\n'] + join_lines(fl);
    assert(out =~= dv + seq!['\n'] + (df + seq!['\n'] + (e + join_lines(fl))));
    lemma_split_lines_concat(dv, df + seq!['\n'] + (e + join_lines(fl)));
    lemma_split_lines_concat(df, e + join_lines(fl));
    lemma_split_single_line(dv);
    lemma_split_single_line(df);
    assert(!e.contains('\n'));
    lemma_split_join(e, fl);
    assert(split_lines(out) =~= ((seq![dv] + seq![df]) + seq![e]) + fl);
}

proof fn lemma_parse_literal(fl: Seq<Seq<char>>)
    requires
        forall|i: int| 0 <= i < fl.len() ==> code_line(#[trigger] fl[i]),
    ensures
        parse_lines(((seq![vertex_directive()] + seq![fragment_directive()]) + seq![Seq::<char>::empty()]) + fl)
            == Some((ShaderStage::Fragment, Seq::<char>::empty(), join_lines(fl))),
{
    let e = Seq::<char>::empty();
    let a = seq![vertex_directive()];
    let b = seq![fragment_directive()];
    let c = seq![e];
    lemma_parse_lines_from(((a + b) + c) + fl);
    let init = Some(initial_state());
    lemma_parse_from_concat(init, (a + b) + c, fl);
    lemma_parse_from_concat(init, a + b, c);
    lemma_parse_from_concat(init, a, b);
    lemma_parse_directive_lines(e);
    let st = (ShaderStage::Fragment, e, e);
    assert(c.drop_last() =~= Seq::<Seq<char>>::empty());
    assert(c.last() == e);
    assert(parse_from(Some(st), Seq::<Seq<char>>::empty()) == Some(st));
    assert(parse_from(Some(st), c) == Some(st));
    lemma_append_code_lines(ShaderStage::Fragment, e, e, fl);
    assert(e + join_lines(fl) =~= join_lines(fl));
}

/// Where a source parses to an empty vertex text, writing it back as
/// `#stage vertex`, newline, the vertex text, `#stage fragment`, newline, the
/// fragment text gives a source that parses to the same two texts. (With a
/// non-empty vertex text this layout joins its last line to the fragment
/// directive, and that line is lost.)
pub proof fn lemma_parse_round_trip_empty_vertex(source: Seq<char>)
    requires
        parse_spec(source) matches Some((v, f)) && v.len() == 0,
    ensures
        ({
            let (v, f) = parse_spec(source)->0;
            parse_spec(vertex_directive() + seq!['\n'] + v + fragment_directive() + seq!['\n'] + f) == Some((v, f))
        }),
{
    let lines = split_lines(source);
    lemma_split_lines_no_newline(source);
    let (vl, fl) = lemma_parse_output(lines);
    let (v, f) = parse_spec(source)->0;
    let dv = vertex_directive();
    let df = fragment_directive();
    assert(v =~= Seq::<char>::empty());
    assert(dv + seq!['\n'] + v + df + seq!['\n'] + f =~= dv + seq!['\n'] + df + seq!['\n'] + join_lines(fl));
    lemma_split_literal(fl);
    lemma_parse_literal(fl);
}

proof fn lemma_parse_from_none(lines: Seq<Seq<char>>)
    ensures
        parse_from(None, lines) is None,
    decreases lines.len(),
{
    if lines.len() > 0 {
        lemma_parse_from_none(lines.drop_last());
    }
}

proof fn lemma_parse_from_empty_lines(lines: Seq<Seq<char>>)
    requires
        forall|i: int| 0 <= i < lines.len() ==> (#[trigger] lines[i]).len() == 0,
    ensures
        parse_from(Some(initial_state()), lines) == Some(initial_state()),
    decreases lines.len(),
{
    if lines.len() > 0 {
        let init = lines.drop_last();
        assert forall|i: int| 0 <= i < init.len() implies (#[trigger] init[i]).len() == 0 by {
            assert(init[i] == lines[i]);
        }
        lemma_parse_from_empty_lines(init);
        assert(lines[lines.len() - 1].len() == 0);
    }
}

/// A source whose first non-empty line is not a stage directive fails to
/// parse, whatever follows it.
pub proof fn lemma_code_before_directive_fails(source: Seq<char>, k: int)
    requires
        0 <= k < split_lines(source).len(),
        forall|i: int| 0 <= i < k ==> (#[trigger] split_lines(source)[i]).len() == 0,
        split_lines(source)[k].len() > 0,
        !contains(split_lines(source)[k], vertex_directive()),
        !contains(split_lines(source)[k], fragment_directive()),
    ensures
        parse_spec(source) is None,
{
    let lines = split_lines(source);
    let head = lines.take(k);
    let line = seq![lines[k]];
    let rest = lines.skip(k + 1);
    assert(lines =~= (head + line) + rest);
    assert forall|i: int| 0 <= i < head.len() implies (#[trigger] head[i]).len() == 0 by {
        assert(head[i] == lines[i]);
    }
    lemma_parse_from_empty_lines(head);
    let init = Some(initial_state());
    lemma_parse_lines_from(lines);
    lemma_parse_from_concat(init, head + line, rest);
    lemma_parse_from_concat(init, head, line);
    assert(line.drop_last() =~= Seq::<Seq<char>>::empty());
    assert(parse_from(Some(initial_state()), Seq::<Seq<char>>::empty()) == Some(initial_state()));
    assert(parse_from(Some(initial_state()), line) is None);
    lemma_parse_from_none(rest);
}

} // verus!
