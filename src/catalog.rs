//! The names of the task and role files offered for selection: the files
//! ending in `.md`, with that suffix removed, in sorted order.
use vstd::prelude::*;
use vstd::relations::{sorted_by, total_ordering};
use crate::text::{chars_of, string_of, texts};

verus! {

/// Lexicographic order on texts, by character.
pub open spec fn text_le(a: Seq<char>, b: Seq<char>) -> bool
    decreases a.len(),
{
    if a.len() == 0 {
        true
    } else if b.len() == 0 {
        false
    } else if a[0] != b[0] {
        a[0] < b[0]
    } else {
        text_le(a.drop_first(), b.drop_first())
    }
}

pub open spec fn text_order() -> spec_fn(Seq<char>, Seq<char>) -> bool {
    |a: Seq<char>, b: Seq<char>| text_le(a, b)
}

proof fn lemma_text_le_reflexive(a: Seq<char>)
    ensures
        text_le(a, a),
    decreases a.len(),
{
    if a.len() > 0 {
        lemma_text_le_reflexive(a.drop_first());
    }
}

proof fn lemma_text_le_antisymmetric(a: Seq<char>, b: Seq<char>)
    requires
        text_le(a, b),
        text_le(b, a),
    ensures
        a == b,
    decreases a.len(),
{
    if a.len() == 0 || b.len() == 0 {
        assert(a.len() == 0 && b.len() == 0);
        assert(a =~= b);
    } else {
        assert(a[0] == b[0]);
        lemma_text_le_antisymmetric(a.drop_first(), b.drop_first());
        assert forall|i: int| 0 <= i < a.len() implies a[i] == b[i] by {
            if i > 0 {
                assert(a[i] == a.drop_first()[i - 1]);
                assert(b[i] == b.drop_first()[i - 1]);
            }
        }
        assert(a =~= b);
    }
}

proof fn lemma_text_le_transitive(a: Seq<char>, b: Seq<char>, c: Seq<char>)
    requires
        text_le(a, b),
        text_le(b, c),
    ensures
        text_le(a, c),
    decreases a.len(),
{
    if a.len() > 0 && b.len() > 0 && c.len() > 0 && a[0] == b[0] && b[0] == c[0] {
        lemma_text_le_transitive(a.drop_first(), b.drop_first(), c.drop_first());
    }
}

proof fn lemma_text_le_total(a: Seq<char>, b: Seq<char>)
    ensures
        text_le(a, b) || text_le(b, a),
    decreases a.len(),
{
    if a.len() > 0 && b.len() > 0 && a[0] == b[0] {
        lemma_text_le_total(a.drop_first(), b.drop_first());
    }
}

proof fn lemma_text_order_total()
    ensures
        total_ordering(text_order()),
{
    assert forall|a: Seq<char>| #[trigger] text_order()(a, a) by {
        lemma_text_le_reflexive(a);
    }
    assert forall|a: Seq<char>, b: Seq<char>|
        #[trigger] text_order()(a, b) && #[trigger] text_order()(b, a) implies a == b by {
        lemma_text_le_antisymmetric(a, b);
    }
    assert forall|a: Seq<char>, b: Seq<char>, c: Seq<char>|
        #[trigger] text_order()(a, b) && #[trigger] text_order()(b, c) implies text_order()(
        a,
        c,
    ) by {
        lemma_text_le_transitive(a, b, c);
    }
    assert forall|a: Seq<char>, b: Seq<char>|
        #[trigger] text_order()(a, b) || #[trigger] text_order()(b, a) by {
        lemma_text_le_total(a, b);
    }
}

/// Whether `a` comes before `b` or equals it, by character.
pub fn text_less_eq(a: &str, b: &str) -> (r: bool)
    ensures
        r == text_le(a@, b@),
{
    let x = chars_of(a);
    let y = chars_of(b);
    let mut i: usize = 0;
    assert(x@.subrange(0, x.len() as int) =~= x@);
    assert(y@.subrange(0, y.len() as int) =~= y@);
    while i < x.len() && i < y.len() && x[i] == y[i]
        invariant
            x@ == a@,
            y@ == b@,
            i <= x.len(),
            i <= y.len(),
            text_le(a@, b@) == text_le(
                x@.subrange(i as int, x.len() as int),
                y@.subrange(i as int, y.len() as int),
            ),
        decreases x.len() - i,
    {
        let ghost xs = x@.subrange(i as int, x.len() as int);
        let ghost ys = y@.subrange(i as int, y.len() as int);
        assert(xs.drop_first() =~= x@.subrange(i + 1, x.len() as int));
        assert(ys.drop_first() =~= y@.subrange(i + 1, y.len() as int));
        i += 1;
    }
    if i == x.len() {
        true
    } else if i == y.len() {
        false
    } else {
        let ghost xs = x@.subrange(i as int, x.len() as int);
        let ghost ys = y@.subrange(i as int, y.len() as int);
        assert(xs[0] == x@[i as int]);
        assert(ys[0] == y@[i as int]);
        x[i] < y[i]
    }
}

/// The suffix of the files that hold tasks and roles.
pub open spec fn md_suffix() -> Seq<char> {
    seq!['.', 'm', 'd']
}

pub open spec fn has_md_suffix(s: Seq<char>) -> bool {
    s.len() >= 3 && s.subrange(s.len() - 3, s.len() as int) == md_suffix()
}

/// `s` with every trailing repetition of the suffix removed.
pub open spec fn strip_md(s: Seq<char>) -> Seq<char>
    decreases s.len(),
{
    if has_md_suffix(s) {
        strip_md(s.subrange(0, s.len() - 3))
    } else {
        s
    }
}

/// The stripped names of the files that end in the suffix, in order.
pub open spec fn md_stems(names: Seq<Seq<char>>) -> Seq<Seq<char>>
    decreases names.len(),
{
    if names.len() == 0 {
        Seq::empty()
    } else {
        let rest = md_stems(names.drop_last());
        if has_md_suffix(names.last()) {
            rest.push(strip_md(names.last()))
        } else {
            rest
        }
    }
}

/// The names offered for selection, from the names of the files found.
pub open spec fn catalog(names: Seq<Seq<char>>) -> Seq<Seq<char>> {
    md_stems(names).sort_by(text_order())
}

/// Whether `v[..end]` ends in the suffix.
fn ends_in_md(v: &Vec<char>, end: usize) -> (r: bool)
    requires
        end <= v.len(),
    ensures
        r == has_md_suffix(v@.subrange(0, end as int)),
{
    let ghost s = v@.subrange(0, end as int);
    if end < 3 {
        return false;
    }
    let r = v[end - 3] == '.' && v[end - 2] == 'm' && v[end - 1] == 'd';
    assert(r == (s.subrange(end - 3, end as int) =~= md_suffix()));
    r
}

/// `name` with every trailing repetition of the suffix removed.
fn stem_of(name: &str) -> (r: String)
    ensures
        r@ == strip_md(name@),
{
    let v = chars_of(name);
    let mut end: usize = v.len();
    assert(v@.subrange(0, end as int) =~= name@);
    while ends_in_md(&v, end)
        invariant
            end <= v.len(),
            strip_md(name@) == strip_md(v@.subrange(0, end as int)),
        decreases end,
    {
        assert(v@.subrange(0, end as int).subrange(0, end - 3) =~= v@.subrange(0, end - 3));
        end -= 3;
    }
    string_of(&v, 0, end)
}

/// Inserts `x` into the sorted `v` at its place in the order.
fn insert_sorted(v: &mut Vec<String>, x: String)
    requires
        sorted_by(texts(old(v)@), text_order()),
    ensures
        sorted_by(texts(final(v)@), text_order()),
        texts(final(v)@).to_multiset() == texts(old(v)@).to_multiset().insert(x@),
{
    proof {
        lemma_text_order_total();
    }
    let mut k: usize = 0;
    while k < v.len() && text_less_eq(v[k].as_str(), x.as_str())
        invariant
            k <= v.len(),
            v@ == old(v)@,
            forall|j: int| 0 <= j < k ==> text_le(#[trigger] v@[j]@, x@),
        decreases v.len() - k,
    {
        k += 1;
    }
    let ghost before = texts(v@);
    proof {
        if k < v.len() {
            lemma_text_le_total(x@, v@[k as int]@);
        }
    }
    v.insert(k, x);
    assert(texts(v@) =~= before.insert(k as int, x@));
    proof {
        vstd::seq_lib::to_multiset_insert(before, k as int, x@);
        let t = texts(v@);
        assert forall|i: int, j: int| 0 <= i < j < t.len() implies #[trigger] text_order()(
            t[i],
            t[j],
        ) by {
            if j < k {
                assert(t[i] == before[i] && t[j] == before[j]);
            } else if j == k {
                assert(t[i] == before[i]);
            } else if i < k {
                assert(t[i] == before[i] && t[j] == before[j - 1]);
                assert(text_order()(before[i], before[j - 1]));
            } else if i == k {
                assert(t[j] == before[j - 1]);
                assert(text_le(x@, before[k as int]));
                if j > k + 1 {
                    assert(text_order()(before[k as int], before[j - 1]));
                    lemma_text_le_transitive(x@, before[k as int], before[j - 1]);
                }
            } else {
                assert(t[i] == before[i - 1] && t[j] == before[j - 1]);
            }
        }
    }
}

/// The names offered for selection, from the names of the files found: each
/// name that ends in `.md`, with every trailing `.md` removed, sorted.
pub fn md_names(file_names: &Vec<String>) -> (r: Vec<String>)
    ensures
        texts(r@) == catalog(texts(file_names@)),
{
    let ghost names = texts(file_names@);
    let mut r: Vec<String> = Vec::new();
    let mut i: usize = 0;
    assert(texts(r@).to_multiset() =~= md_stems(names.subrange(0, 0)).to_multiset()) by {
        assert(texts(r@) =~= Seq::<Seq<char>>::empty());
        assert(names.subrange(0, 0) =~= Seq::<Seq<char>>::empty());
    }
    while i < file_names.len()
        invariant
            i <= file_names.len(),
            names == texts(file_names@),
            sorted_by(texts(r@), text_order()),
            texts(r@).to_multiset() == md_stems(names.subrange(0, i as int)).to_multiset(),
        decreases file_names.len() - i,
    {
        assert(names.subrange(0, i + 1).drop_last() =~= names.subrange(0, i as int));
        let name = file_names[i].as_str();
        let v = chars_of(name);
        let ghost stems = md_stems(names.subrange(0, i as int));
        assert(v@.subrange(0, v.len() as int) =~= name@);
        if ends_in_md(&v, v.len()) {
            let stem = stem_of(name);
            insert_sorted(&mut r, stem);
            proof {
                vstd::seq_lib::to_multiset_build(stems, stem@);
            }
        }
        i += 1;
    }
    proof {
        assert(names.subrange(0, i as int) =~= names);
        lemma_text_order_total();
        md_stems(names).lemma_sort_by_ensures(text_order());
        vstd::seq_lib::lemma_sorted_unique(texts(r@), catalog(names), text_order());
    }
    r
}

} // verus!
