//! Lexicographic ordering of strings, and a sort that the partition-path
//! lists of decoded partition tables are run through: the bus does not
//! guarantee any order, so the decoder imposes one for determinism.

use vstd::prelude::*;

verus! {

/// Lexicographic order on character sequences, comparing by code point:
/// `a` at or before `b`.
pub open spec fn lex_le(a: Seq<char>, b: Seq<char>) -> bool
    decreases a.len(),
{
    if a.len() == 0 {
        true
    } else if b.len() == 0 {
        false
    } else if (a[0] as u32) < (b[0] as u32) {
        true
    } else if (a[0] as u32) > (b[0] as u32) {
        false
    } else {
        lex_le(a.drop_first(), b.drop_first())
    }
}

/// The order is total: any two strings compare one way or the other.
pub proof fn lemma_lex_le_total(a: Seq<char>, b: Seq<char>)
    ensures
        lex_le(a, b) || lex_le(b, a),
    decreases a.len(),
{
    if a.len() > 0 && b.len() > 0 && (a[0] as u32) == (b[0] as u32) {
        lemma_lex_le_total(a.drop_first(), b.drop_first());
    }
}

/// The order is transitive.
pub proof fn lemma_lex_le_trans(a: Seq<char>, b: Seq<char>, c: Seq<char>)
    requires
        lex_le(a, b),
        lex_le(b, c),
    ensures
        lex_le(a, c),
    decreases a.len(),
{
    if a.len() > 0 && b.len() > 0 && c.len() > 0 && (a[0] as u32) == (b[0] as u32) && (b[0] as u32)
        == (c[0] as u32) {
        lemma_lex_le_trans(a.drop_first(), b.drop_first(), c.drop_first());
    }
}

/// A string inserted into a sorted sequence of strings: it lands after
/// every string at or below it.
pub open spec fn spec_insert_string(x: Seq<char>, s: Seq<Seq<char>>) -> Seq<Seq<char>>
    decreases s.len(),
{
    if s.len() == 0 {
        seq![x]
    } else if lex_le(s[0], x) {
        seq![s[0]] + spec_insert_string(x, s.drop_first())
    } else {
        seq![x] + s
    }
}

/// A sequence of strings sorted ascending by insertion.
pub open spec fn spec_sort_strings(s: Seq<Seq<char>>) -> Seq<Seq<char>>
    decreases s.len(),
{
    if s.len() == 0 {
        s
    } else {
        spec_insert_string(s.last(), spec_sort_strings(s.drop_last()))
    }
}

/// Whether a sequence of strings is sorted ascending lexicographically.
pub open spec fn spec_strings_sorted(s: Seq<Seq<char>>) -> bool {
    forall|i: int, j: int| 0 <= i < j < s.len() ==> lex_le(#[trigger] s[i], #[trigger] s[j])
}

/// A non-empty sequence is its first element beside the rest.
pub proof fn lemma_multiset_drop_first<T>(s: Seq<T>)
    requires
        s.len() > 0,
    ensures
        s.to_multiset() == s.drop_first().to_multiset().insert(s[0]),
{
    broadcast use vstd::seq_lib::group_to_multiset_ensures;

    assert(s.remove(0) =~= s.drop_first());
    assert(s.remove(0).to_multiset() =~= s.to_multiset().remove(s[0]));
    assert(s.contains(s[0]));
    assert(s.to_multiset().count(s[0]) > 0);
    assert(s.drop_first().to_multiset().insert(s[0]) =~= s.to_multiset());
}

/// A non-empty sequence is the rest beside its last element.
pub proof fn lemma_multiset_drop_last<T>(s: Seq<T>)
    requires
        s.len() > 0,
    ensures
        s.to_multiset() == s.drop_last().to_multiset().insert(s.last()),
{
    broadcast use vstd::seq_lib::group_to_multiset_ensures;

    assert(s.remove(s.len() - 1) =~= s.drop_last());
    assert(s.remove(s.len() - 1).to_multiset() =~= s.to_multiset().remove(s.last()));
    assert(s.contains(s.last()));
    assert(s.to_multiset().count(s.last()) > 0);
    assert(s.drop_last().to_multiset().insert(s.last()) =~= s.to_multiset());
}

/// Insertion keeps a sorted sequence sorted and adds exactly the new
/// string.
pub proof fn lemma_insert_string_sorted(x: Seq<char>, s: Seq<Seq<char>>)
    requires
        spec_strings_sorted(s),
    ensures
        spec_strings_sorted(spec_insert_string(x, s)),
        spec_insert_string(x, s).to_multiset() == s.to_multiset().insert(x),
        spec_insert_string(x, s).len() == s.len() + 1,
    decreases s.len(),
{
    broadcast use vstd::seq_lib::group_to_multiset_ensures;

    if s.len() == 0 {
        assert(spec_insert_string(x, s) =~= seq![x]);
        assert(seq![x] =~= Seq::<Seq<char>>::empty().push(x));
        assert(s =~= Seq::<Seq<char>>::empty());
        assert(seq![x].to_multiset() =~= s.to_multiset().insert(x));
    } else if lex_le(s[0], x) {
        let rest = spec_insert_string(x, s.drop_first());
        assert(spec_strings_sorted(s.drop_first())) by {
            assert(forall|i: int, j: int|
                0 <= i < j < s.drop_first().len() ==> lex_le(
                    #[trigger] s.drop_first()[i],
                    #[trigger] s.drop_first()[j],
                ));
        }
        lemma_insert_string_sorted(x, s.drop_first());
        let out = seq![s[0]] + rest;
        assert forall|i: int, j: int| 0 <= i < j < out.len() implies lex_le(
            #[trigger] out[i],
            #[trigger] out[j],
        ) by {
            if i == 0 {
                // out[j] is either x or an element of s.drop_first(),
                // both at or above s[0]
                assert(rest.to_multiset().contains(out[j]));
                assert(rest.contains(out[j]));
                let k = choose|k: int| 0 <= k < rest.len() && rest[k] == out[j];
                if out[j] != x {
                    assert(s.drop_first().to_multiset().contains(out[j])) by {
                        assert(rest.to_multiset() == s.drop_first().to_multiset().insert(x));
                    }
                    assert(s.drop_first().contains(out[j]));
                    let m = choose|m: int|
                        0 <= m < s.drop_first().len() && s.drop_first()[m] == out[j];
                    assert(lex_le(s[0], s[m + 1]));
                } else {
                    assert(lex_le(s[0], x));
                }
            } else {
                assert(lex_le(rest[i - 1], rest[j - 1]));
            }
        }
        assert(out.drop_first() =~= rest);
        assert(out[0] == s[0]);
        assert(out.to_multiset() == s.to_multiset().insert(x)) by {
            lemma_multiset_drop_first(out);
            lemma_multiset_drop_first(s);
            assert(s.drop_first().to_multiset().insert(x).insert(s[0]) =~= s.drop_first()
                .to_multiset().insert(s[0]).insert(x));
        }
    } else {
        let out = seq![x] + s;
        lemma_lex_le_total(x, s[0]);
        assert forall|i: int, j: int| 0 <= i < j < out.len() implies lex_le(
            #[trigger] out[i],
            #[trigger] out[j],
        ) by {
            if i == 0 {
                assert(lex_le(x, s[0]));
                if j == 1 {
                    assert(out[j] == s[0]);
                } else {
                    assert(lex_le(s[0], s[j - 1]));
                    lemma_lex_le_trans(x, s[0], out[j]);
                }
            } else {
                assert(lex_le(s[i - 1], s[j - 1]));
            }
        }
        assert(out.drop_first() =~= s);
        assert(out[0] == x);
        assert(out.to_multiset() == s.to_multiset().insert(x)) by {
            lemma_multiset_drop_first(out);
        }
    }
}

/// Inserting before the first strictly greater element is what
/// [`spec_insert_string`] does.
proof fn lemma_insert_at_index(x: Seq<char>, s: Seq<Seq<char>>, j: int)
    requires
        0 <= j <= s.len(),
        forall|k: int| 0 <= k < j ==> lex_le(#[trigger] s[k], x),
        j < s.len() ==> !lex_le(s[j], x),
    ensures
        spec_insert_string(x, s) == s.insert(j, x),
    decreases j,
{
    if j == 0 {
        if s.len() == 0 {
            assert(spec_insert_string(x, s) =~= s.insert(0, x));
        } else {
            assert(spec_insert_string(x, s) =~= s.insert(0, x));
        }
    } else {
        assert(lex_le(s[0], x));
        lemma_insert_at_index(x, s.drop_first(), j - 1);
        assert(spec_insert_string(x, s) == seq![s[0]] + spec_insert_string(x, s.drop_first()));
        assert(seq![s[0]] + s.drop_first().insert(j - 1, x) =~= s.insert(j, x));
    }
}

/// Compare two strings lexicographically by code point.
pub fn str_lex_le(a: &str, b: &str) -> (r: bool)
    ensures
        r == lex_le(a@, b@),
{
    let a_len = a.unicode_len();
    let b_len = b.unicode_len();
    let mut i: usize = 0;
    assert(a@.skip(0) =~= a@);
    assert(b@.skip(0) =~= b@);
    while i < a_len && i < b_len
        invariant
            i <= a_len,
            i <= b_len,
            a_len == a@.len(),
            b_len == b@.len(),
            lex_le(a@, b@) == lex_le(a@.skip(i as int), b@.skip(i as int)),
        decreases a_len - i,
    {
        let ca = a.get_char(i) as u32;
        let cb = b.get_char(i) as u32;
        if ca < cb {
            return true;
        }
        if ca > cb {
            return false;
        }
        i = i + 1;
        assert(a@.skip(i - 1).drop_first() =~= a@.skip(i as int));
        assert(b@.skip(i - 1).drop_first() =~= b@.skip(i as int));
    }
    i >= a_len
}

/// The index at which a string belongs in a sorted list: just after the
/// last element at or below it.
fn find_insert_pos(x: &String, sorted: &Vec<String>) -> (j: usize)
    ensures
        j <= sorted.len(),
        forall|k: int| 0 <= k < j ==> lex_le(#[trigger] sorted.deep_view()[k], x@),
        j < sorted.len() ==> !lex_le(sorted.deep_view()[j as int], x@),
{
    let mut j: usize = 0;
    while j < sorted.len()
        invariant
            j <= sorted.len(),
            forall|k: int| 0 <= k < j ==> lex_le(#[trigger] sorted.deep_view()[k], x@),
        decreases sorted.len() - j,
    {
        if !str_lex_le(sorted[j].as_str(), x.as_str()) {
            return j;
        }
        j = j + 1;
    }
    j
}

/// Sort a list of strings ascending lexicographically.
pub fn sort_strings(input: Vec<String>) -> (r: Vec<String>)
    ensures
        r.deep_view() == spec_sort_strings(input.deep_view()),
        spec_strings_sorted(r.deep_view()),
{
    let ghost orig = input.deep_view();
    let mut remaining = input;
    let mut out: Vec<String> = Vec::new();
    let ghost mut n: int = 0;
    proof {
        assert(remaining.deep_view() =~= orig.skip(0));
        assert(orig.take(0) =~= Seq::<Seq<char>>::empty());
        assert(out.deep_view() =~= spec_sort_strings(orig.take(0)));
    }
    while remaining.len() > 0
        invariant
            0 <= n,
            n + remaining.deep_view().len() == orig.len(),
            remaining.deep_view() == orig.skip(n),
            out.deep_view() == spec_sort_strings(orig.take(n)),
            spec_strings_sorted(out.deep_view()),
        decreases remaining.len(),
    {
        let ghost out_before = out.deep_view();
        let ghost rem_before = remaining@;
        let ghost rem_dv_before = remaining.deep_view();
        let x = remaining.remove(0);
        proof {
            assert(x == rem_before[0]);
            assert(rem_dv_before[0] == rem_before[0].deep_view());
            assert(x@ == orig[n]);
            assert forall|i: int| 0 <= i < remaining@.len() implies remaining.deep_view()[i]
                == orig.skip(n + 1)[i] by {
                assert(remaining@[i] == rem_before[i + 1]);
                assert(remaining.deep_view()[i] == remaining@[i].deep_view());
                assert(rem_dv_before[i + 1] == rem_before[i + 1].deep_view());
            }
            assert(remaining.deep_view() =~= orig.skip(n + 1));
        }
        let j = find_insert_pos(&x, &out);
        proof {
            lemma_insert_at_index(x@, out_before, j as int);
            lemma_insert_string_sorted(x@, out_before);
        }
        out.insert(j, x);
        proof {
            n = n + 1;
            assert(out.deep_view() =~= out_before.insert(j as int, x@));
            assert(orig.take(n).drop_last() =~= orig.take(n - 1));
            assert(orig.take(n).last() == orig[n - 1]);
        }
    }
    proof {
        assert(orig.take(n) =~= orig);
    }
    out
}

/// The sort yields an ascending permutation of its input.
pub proof fn lemma_sort_strings_sorted(s: Seq<Seq<char>>)
    ensures
        spec_strings_sorted(spec_sort_strings(s)),
        spec_sort_strings(s).to_multiset() == s.to_multiset(),
        spec_sort_strings(s).len() == s.len(),
    decreases s.len(),
{
    broadcast use vstd::seq_lib::group_to_multiset_ensures;

    if s.len() > 0 {
        lemma_sort_strings_sorted(s.drop_last());
        lemma_insert_string_sorted(s.last(), spec_sort_strings(s.drop_last()));
        lemma_multiset_drop_last(s);
    }
}

} // verus!
