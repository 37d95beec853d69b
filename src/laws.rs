//! Properties that hold of every document and query.
use vstd::prelude::*;

use crate::search::{keeps, lower_of, select, selected};
use crate::text::{contains, lines};

verus! {

broadcast use vstd::seq_lib::group_filter_ensures;

/// A filter keeps every item when every item passes.
proof fn lemma_filter_all(ls: Seq<Seq<char>>, p: spec_fn(Seq<char>) -> bool)
    requires
        forall|i: int| 0 <= i < ls.len() ==> p(#[trigger] ls[i]),
    ensures
        ls.filter(p) == ls,
    decreases ls.len(),
{
    reveal(Seq::filter);
    if ls.len() > 0 {
        lemma_filter_all(ls.drop_last(), p);
        assert(ls.drop_last().push(ls.last()) =~= ls);
    }
}

/// A filter and the filter by the opposite test share out the items.
proof fn lemma_filter_split(ls: Seq<Seq<char>>, p: spec_fn(Seq<char>) -> bool, q: spec_fn(Seq<char>) -> bool)
    requires
        forall|l: Seq<char>| #[trigger] q(l) == !p(l),
    ensures
        ls.filter(p).len() + ls.filter(q).len() == ls.len(),
    decreases ls.len(),
{
    reveal(Seq::filter);
    if ls.len() > 0 {
        lemma_filter_split(ls.drop_last(), p, q);
        assert(q(ls.last()) == !p(ls.last()));
    }
}

/// Filtering twice by one test is filtering once.
proof fn lemma_filter_twice(ls: Seq<Seq<char>>, p: spec_fn(Seq<char>) -> bool)
    ensures
        ls.filter(p).filter(p) == ls.filter(p),
    decreases ls.len(),
{
    let once = ls.filter(p);
    assert forall|i: int| 0 <= i < once.len() implies p(#[trigger] once[i]) by {}
    lemma_filter_all(once, p);
}

/// With an empty query, the direct exact search reports every line of the
/// document, in order, and the inverted one reports none.
pub proof fn lemma_empty_query(doc: Seq<char>)
    ensures
        selected(Seq::empty(), doc, true, false) == lines(doc),
        selected(Seq::empty(), doc, true, true).len() == 0,
{
    let e = Seq::<char>::empty();
    assert forall|l: Seq<char>| contains(l, e) by {
        assert(l.subrange(0, 0 + e.len() as int) =~= e);
    }
    let ls = lines(doc);
    let direct = |l: Seq<char>| keeps(e, l, true, false);
    let inverted = |l: Seq<char>| keeps(e, l, true, true);
    assert forall|i: int| 0 <= i < ls.len() implies direct(#[trigger] ls[i]) by {
        assert(contains(ls[i], e));
    }
    lemma_filter_all(ls, direct);
    lemma_filter_split(ls, direct, inverted);
}

/// Ignoring case, two queries with the same lowercase form report the same
/// lines, and two lines with the same lowercase form are both reported or
/// both left out.
pub proof fn lemma_case_insensitive(
    q1: Seq<char>,
    q2: Seq<char>,
    l1: Seq<char>,
    l2: Seq<char>,
    doc: Seq<char>,
    invert: bool,
)
    ensures
        lower_of(q1) == lower_of(q2) ==> selected(q1, doc, false, invert) == selected(
            q2,
            doc,
            false,
            invert,
        ),
        lower_of(l1) == lower_of(l2) ==> keeps(q1, l1, false, invert) == keeps(
            q1,
            l2,
            false,
            invert,
        ),
{
    if lower_of(q1) == lower_of(q2) {
        let p1 = |l: Seq<char>| keeps(q1, l, false, invert);
        let p2 = |l: Seq<char>| keeps(q2, l, false, invert);
        assert(p1 =~= p2);
    }
}

/// For one sensitivity, each line of the document is reported by exactly
/// one of the direct and the inverted search, and together they report as
/// many lines as the document has.
pub proof fn lemma_invert_complements(query: Seq<char>, doc: Seq<char>, case_sensitive: bool)
    ensures
        forall|l: Seq<char>|
            #![trigger selected(query, doc, case_sensitive, true).contains(l)]
            #![trigger selected(query, doc, case_sensitive, false).contains(l)]
            lines(doc).contains(l) ==> (selected(query, doc, case_sensitive, true).contains(l)
                <==> !selected(query, doc, case_sensitive, false).contains(l)),
        selected(query, doc, case_sensitive, true).len() + selected(
            query,
            doc,
            case_sensitive,
            false,
        ).len() == lines(doc).len(),
{
    let ls = lines(doc);
    let direct = |l: Seq<char>| keeps(query, l, case_sensitive, false);
    let inverted = |l: Seq<char>| keeps(query, l, case_sensitive, true);
    lemma_filter_split(ls, direct, inverted);
    assert forall|l: Seq<char>| ls.contains(l) implies (ls.filter(inverted).contains(l)
        <==> !ls.filter(direct).contains(l)) by {
        let i = choose|i: int| 0 <= i < ls.len() && ls[i] == l;
        if direct(l) {
            assert(ls.filter(direct).contains(ls[i]));
            if ls.filter(inverted).contains(l) {
                let j = choose|j: int| 0 <= j < ls.filter(inverted).len() && ls.filter(inverted)[j] == l;
                assert(inverted(ls.filter(inverted)[j]));
            }
        } else {
            assert(ls.filter(inverted).contains(ls[i]));
            if ls.filter(direct).contains(l) {
                let j = choose|j: int| 0 <= j < ls.filter(direct).len() && ls.filter(direct)[j] == l;
                assert(direct(ls.filter(direct)[j]));
            }
        }
    }
}

/// Selecting again, with the same query and flags, from lines already
/// selected changes nothing.
pub proof fn lemma_select_idempotent(
    ls: Seq<Seq<char>>,
    query: Seq<char>,
    case_sensitive: bool,
    invert: bool,
)
    ensures
        select(select(ls, query, case_sensitive, invert), query, case_sensitive, invert) == select(
            ls,
            query,
            case_sensitive,
            invert,
        ),
{
    lemma_filter_twice(ls, |l: Seq<char>| keeps(query, l, case_sensitive, invert));
}

} // verus!
