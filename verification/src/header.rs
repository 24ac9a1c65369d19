//! Wire header construction: every (name, values) entry contributes one
//! `name: value` line per value, in order, and repeated names stay repeated
//! lines — never merged.
use vstd::prelude::*;
use vstd::string::StringExecFns;

use crate::codec::hview;

verus! {

/// View of a line list.
pub open spec fn lines_view(s: Seq<String>) -> Seq<Seq<char>> {
    s.map_values(|x: String| x@)
}

/// The wire lines one header entry contributes: one line per value, in order.
pub open spec fn entry_lines(name: Seq<char>, values: Seq<Seq<char>>) -> Seq<Seq<char>> {
    values.map_values(|v: Seq<char>| name + ": "@ + v)
}

/// The wire lines of a whole header mapping, entry after entry.
pub open spec fn wire_lines_spec(h: Seq<(Seq<char>, Seq<Seq<char>>)>) -> Seq<Seq<char>>
    decreases h.len(),
{
    if h.len() == 0 {
        Seq::empty()
    } else {
        entry_lines(h[0].0, h[0].1) + wire_lines_spec(h.drop_first())
    }
}

proof fn lemma_wire_snoc(h: Seq<(Seq<char>, Seq<Seq<char>>)>, e: (Seq<char>, Seq<Seq<char>>))
    ensures
        wire_lines_spec(h.push(e)) == wire_lines_spec(h) + entry_lines(e.0, e.1),
    decreases h.len(),
{
    if h.len() == 0 {
        assert(h.push(e).drop_first() =~= Seq::<(Seq<char>, Seq<Seq<char>>)>::empty());
        assert(h.push(e)[0] == e);
        assert(h.push(e).len() == 1);
        assert(wire_lines_spec(h.push(e)) == entry_lines(h.push(e)[0].0, h.push(e)[0].1)
            + wire_lines_spec(h.push(e).drop_first()));
        assert(entry_lines(h.push(e)[0].0, h.push(e)[0].1) == entry_lines(e.0, e.1));
        assert(wire_lines_spec(h.push(e).drop_first()).len() == 0);
        assert(wire_lines_spec(h).len() == 0);
        assert(wire_lines_spec(h.push(e)) =~= wire_lines_spec(h) + entry_lines(e.0, e.1));
    } else {
        assert(h.push(e).drop_first() =~= h.drop_first().push(e));
        assert(h.push(e)[0] == h[0]);
        lemma_wire_snoc(h.drop_first(), e);
        assert(wire_lines_spec(h.push(e)) =~= wire_lines_spec(h) + entry_lines(e.0, e.1));
    }
}

fn append_entry_lines(out: &mut Vec<String>, name: &String, values: &Vec<String>)
    ensures
        lines_view(final(out)@) == lines_view(old(out)@) + entry_lines(
            name@,
            values@.map_values(|v: String| v@),
        ),
{
    let ghost base = out@;
    let ghost vv = values@.map_values(|v: String| v@);
    let m = values.len();
    let mut j: usize = 0;
    while j < m
        invariant
            m == values@.len(),
            j <= m,
            vv == values@.map_values(|v: String| v@),
            lines_view(out@) == lines_view(base) + entry_lines(name@, vv.subrange(0, j as int)),
        decreases m - j,
    {
        let mut line = name.clone();
        line.append(": ");
        line.append(values[j].as_str());
        proof {
            assert(vv[j as int] == values@[j as int]@);
            assert(line@ == name@ + ": "@ + vv[j as int]);
        }
        let ghost prev = out@;
        out.push(line);
        proof {
            let l1 = lines_view(out@);
            let l2 = lines_view(base) + entry_lines(name@, vv.subrange(0, j + 1));
            assert(lines_view(prev).len() == prev.len());
            assert(lines_view(base).len() == base.len());
            assert(entry_lines(name@, vv.subrange(0, j as int)).len() == j);
            assert(l1.len() == out@.len());
            assert(entry_lines(name@, vv.subrange(0, j + 1)).len() == j + 1);
            assert forall|k: int| 0 <= k < l1.len() implies l1[k] == l2[k] by {
                assert(l1[k] == out@[k]@);
                if k < prev.len() {
                    assert(out@[k] == prev[k]);
                    assert(lines_view(prev)[k] == prev[k]@);
                    if k >= base.len() {
                        assert(entry_lines(name@, vv.subrange(0, j as int))[k - base.len()]
                            == name@ + ": "@ + vv.subrange(0, j as int)[k - base.len()]);
                        assert(entry_lines(name@, vv.subrange(0, j + 1))[k - base.len()] == name@
                            + ": "@ + vv.subrange(0, j + 1)[k - base.len()]);
                        assert(vv.subrange(0, j as int)[k - base.len()] == vv.subrange(
                            0,
                            j + 1,
                        )[k - base.len()]);
                    } else {
                        assert(lines_view(base)[k] == base[k]@);
                    }
                } else {
                    assert(out@[k] == prev.push(out@[prev.len() as int])[k]);
                    assert(entry_lines(name@, vv.subrange(0, j + 1))[j as int] == name@ + ": "@
                        + vv.subrange(0, j + 1)[j as int]);
                    assert(vv.subrange(0, j + 1)[j as int] == vv[j as int]);
                }
            }
            assert(l1 =~= l2);
        }
        j += 1;
    }
    proof {
        assert(vv.subrange(0, m as int) =~= vv);
    }
}

/// Build the wire header lines of a header mapping: for a name mapped to N
/// values, exactly N `name: value` lines, order-preserving.
pub fn wire_header_lines(headers: &Vec<(String, Vec<String>)>) -> (r: Vec<String>)
    ensures
        lines_view(r@) == wire_lines_spec(hview(headers@)),
{
    let mut out: Vec<String> = Vec::new();
    let n = headers.len();
    let mut i: usize = 0;
    while i < n
        invariant
            n == headers@.len(),
            i <= n,
            lines_view(out@) == wire_lines_spec(hview(headers@).subrange(0, i as int)),
        decreases n - i,
    {
        proof {
            assert(hview(headers@)[i as int] == (
                headers@[i as int].0@,
                headers@[i as int].1@.map_values(|v: String| v@),
            ));
        }
        append_entry_lines(&mut out, &headers[i].0, &headers[i].1);
        proof {
            let hv = hview(headers@);
            lemma_wire_snoc(hv.subrange(0, i as int), hv[i as int]);
            assert(hv.subrange(0, i as int).push(hv[i as int]) =~= hv.subrange(0, i + 1));
            assert(entry_lines(headers@[i as int].0@, headers@[i as int].1@.map_values(
                |v: String| v@,
            )) == entry_lines(hv[i as int].0, hv[i as int].1));
        }
        i += 1;
    }
    proof {
        assert(hview(headers@).subrange(0, n as int) =~= hview(headers@));
    }
    out
}

/// Number of wire lines contributed by the first `i` entries.
pub open spec fn entry_offset(h: Seq<(Seq<char>, Seq<Seq<char>>)>, i: int) -> int
    decreases i,
{
    if i <= 0 {
        0
    } else {
        h[0].1.len() + entry_offset(h.drop_first(), i - 1)
    }
}

/// The wire representation is exactly one line per value: the whole line list
/// has one slot per value, and the entry at index `i` occupies the slots from
/// its offset on — its values in order, each as `name: value`.
pub proof fn lemma_wire_lines_per_entry(h: Seq<(Seq<char>, Seq<Seq<char>>)>, i: int)
    requires
        0 <= i < h.len(),
    ensures
        wire_lines_spec(h).len() == entry_offset(h, h.len() as int),
        entry_offset(h, i) + h[i].1.len() <= wire_lines_spec(h).len(),
        forall|j: int|
            0 <= j < h[i].1.len() ==> wire_lines_spec(h)[entry_offset(h, i) + j] == h[i].0 + ": "@
                + h[i].1[j],
    decreases h.len(),
{
    lemma_wire_len(h);
    let e = entry_lines(h[0].0, h[0].1);
    assert(e.len() == h[0].1.len());
    if i == 0 {
        lemma_wire_len(h.drop_first());
        lemma_offset_nonneg(h.drop_first(), h.drop_first().len() as int);
        assert forall|j: int| 0 <= j < h[0].1.len() implies wire_lines_spec(h)[entry_offset(h, 0)
            + j] == h[0].0 + ": "@ + h[0].1[j] by {
            assert(wire_lines_spec(h)[j] == e[j]);
            assert(e[j] == h[0].0 + ": "@ + h[0].1[j]);
        }
    } else {
        lemma_wire_lines_per_entry(h.drop_first(), i - 1);
        lemma_offset_nonneg(h.drop_first(), i - 1);
        lemma_wire_len(h.drop_first());
        assert(h.drop_first()[i - 1] == h[i]);
        assert(wire_lines_spec(h) == e + wire_lines_spec(h.drop_first()));
        assert forall|j: int| 0 <= j < h[i].1.len() implies wire_lines_spec(h)[entry_offset(h, i)
            + j] == h[i].0 + ": "@ + h[i].1[j] by {
            assert(entry_offset(h.drop_first(), i - 1) + j < wire_lines_spec(
                h.drop_first(),
            ).len());
            assert(wire_lines_spec(h.drop_first())[entry_offset(h.drop_first(), i - 1) + j] == h[
                i].0 + ": "@ + h[i].1[j]);
            assert(wire_lines_spec(h)[e.len() + entry_offset(h.drop_first(), i - 1) + j]
                == wire_lines_spec(h.drop_first())[entry_offset(h.drop_first(), i - 1) + j]);
            assert(entry_offset(h, i) == e.len() + entry_offset(h.drop_first(), i - 1));
        }
    }
}

proof fn lemma_wire_len(h: Seq<(Seq<char>, Seq<Seq<char>>)>)
    ensures
        wire_lines_spec(h).len() == entry_offset(h, h.len() as int),
        entry_offset(h, h.len() as int) >= 0,
    decreases h.len(),
{
    if h.len() > 0 {
        lemma_wire_len(h.drop_first());
        assert(entry_lines(h[0].0, h[0].1).len() == h[0].1.len());
    }
}

proof fn lemma_offset_nonneg(h: Seq<(Seq<char>, Seq<Seq<char>>)>, i: int)
    ensures
        entry_offset(h, i) >= 0,
    decreases i,
{
    if i > 0 {
        lemma_offset_nonneg(h.drop_first(), i - 1);
    }
}

} // verus!
