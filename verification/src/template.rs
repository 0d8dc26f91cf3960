//! Filling `{{key}}` placeholders in a text from a table of values.
use vstd::prelude::*;
use crate::text::{chars_of, pairs_view};

verus! {

/// Whether `s` begins with `p`.
pub open spec fn starts_with(s: Seq<char>, p: Seq<char>) -> bool {
    p.len() <= s.len() && s.take(p.len() as int) == p
}

/// `s` with every occurrence of `pat` replaced by `rep`, scanning from the
/// left and never letting two occurrences overlap (as `str::replace` does
/// for a non-empty pattern).
pub open spec fn replace_all(s: Seq<char>, pat: Seq<char>, rep: Seq<char>) -> Seq<char>
    decreases s.len(),
{
    if pat.len() == 0 || s.len() == 0 {
        s
    } else if starts_with(s, pat) {
        rep + replace_all(s.skip(pat.len() as int), pat, rep)
    } else {
        seq![s[0]] + replace_all(s.drop_first(), pat, rep)
    }
}

/// The placeholder that stands for `key` in a template: `{{key}}`.
pub open spec fn token(key: Seq<char>) -> Seq<char> {
    seq!['{', '{'] + key + seq!['}', '}']
}

/// `s` with the placeholder of each key of `table` replaced by its value,
/// one entry after the other in table order.
pub open spec fn stencil_text(s: Seq<char>, table: Seq<(Seq<char>, Seq<char>)>) -> Seq<char>
    decreases table.len(),
{
    if table.len() == 0 {
        s
    } else {
        replace_all(stencil_text(s, table.drop_last()), token(table.last().0), table.last().1)
    }
}

/// Whether `s` holds neither `{` nor `}`.
pub open spec fn brace_free(s: Seq<char>) -> bool {
    forall|i: int| 0 <= i < s.len() ==> s[i] != '{' && s[i] != '}'
}

/// Whether `pat` occurs nowhere in `s`.
pub open spec fn occurs_nowhere(s: Seq<char>, pat: Seq<char>) -> bool {
    forall|j: int| 0 <= j <= s.len() ==> !starts_with(#[trigger] s.skip(j), pat)
}

/// Where `cs` holds `ps` at position `i`.
fn matches_at(cs: &Vec<char>, i: usize, ps: &Vec<char>) -> (r: bool)
    requires
        i <= cs.len(),
    ensures
        r == starts_with(cs@.skip(i as int), ps@),
{
    let n = cs.len();
    let m = ps.len();
    if m > n - i {
        return false;
    }
    let mut j: usize = 0;
    while j < m
        invariant
            i + m <= n,
            n == cs.len(),
            m == ps.len(),
            j <= m,
            forall|k: int| 0 <= k < j ==> cs@[i + k] == ps@[k],
        decreases m - j,
    {
        if cs[i + j] != ps[j] {
            assert(cs@.skip(i as int).take(m as int)[j as int] != ps@[j as int]);
            return false;
        }
        j = j + 1;
    }
    assert(cs@.skip(i as int).take(m as int) =~= ps@);
    true
}

/// Unfolding `replace_all` at a position where `pat` does not begin.
proof fn lemma_replace_step(s: Seq<char>, i: int, pat: Seq<char>, rep: Seq<char>)
    requires
        0 <= i < s.len(),
        pat.len() > 0,
        !starts_with(s.skip(i), pat),
    ensures
        replace_all(s.skip(i), pat, rep) == seq![s[i]] + replace_all(s.skip(i + 1), pat, rep),
{
    assert(s.skip(i).drop_first() =~= s.skip(i + 1));
}

/// Unfolding `replace_all` at a position where `pat` begins.
proof fn lemma_replace_match(s: Seq<char>, i: int, pat: Seq<char>, rep: Seq<char>)
    requires
        0 <= i < s.len(),
        pat.len() > 0,
        starts_with(s.skip(i), pat),
    ensures
        replace_all(s.skip(i), pat, rep) == rep + replace_all(
            s.skip(i + pat.len()),
            pat,
            rep,
        ),
{
    assert(s.skip(i).skip(pat.len() as int) =~= s.skip(i + pat.len()));
}

/// `s` with every occurrence of the non-empty `pat` replaced by `rep`.
pub fn replace(s: &str, pat: &str, rep: &str) -> (r: String)
    requires
        pat@.len() > 0,
    ensures
        r@ == replace_all(s@, pat@, rep@),
{
    let cs = chars_of(s);
    let ps = chars_of(pat);
    let n = cs.len();
    let m = ps.len();
    let mut out = String::new();
    let mut start: usize = 0;
    let mut i: usize = 0;
    assert(s@.skip(0) =~= s@);
    assert(out@ + s@.subrange(0, 0) =~= Seq::<char>::empty());
    while i < n
        invariant
            n == cs.len(),
            m == ps.len(),
            m > 0,
            cs@ == s@,
            ps@ == pat@,
            start <= i <= n,
            replace_all(s@, pat@, rep@) == out@ + s@.subrange(start as int, i as int)
                + replace_all(s@.skip(i as int), pat@, rep@),
        decreases n - i,
    {
        if matches_at(&cs, i, &ps) {
            proof {
                lemma_replace_match(s@, i as int, pat@, rep@);
            }
            let ghost before = out@;
            out.append(s.substring_char(start, i));
            out.append(rep);
            assert(out@ == before + s@.subrange(start as int, i as int) + rep@);
            i = i + m;
            start = i;
            assert(s@.subrange(start as int, i as int) =~= Seq::<char>::empty());
            assert(replace_all(s@, pat@, rep@) =~= out@ + s@.subrange(start as int, i as int)
                + replace_all(s@.skip(i as int), pat@, rep@));
        } else {
            proof {
                lemma_replace_step(s@, i as int, pat@, rep@);
                assert(s@.subrange(start as int, i + 1) =~= s@.subrange(start as int, i as int)
                    + seq![s@[i as int]]);
            }
            i = i + 1;
            assert(replace_all(s@, pat@, rep@) =~= out@ + s@.subrange(start as int, i as int)
                + replace_all(s@.skip(i as int), pat@, rep@));
        }
    }
    assert(s@.skip(n as int) =~= Seq::<char>::empty());
    out.append(s.substring_char(start, n));
    out
}

/// The placeholder for `key`.
pub fn placeholder(key: &str) -> (r: String)
    ensures
        r@ == token(key@),
{
    let mut r = String::from_str("{{");
    r.append(key);
    r.append("}}");
    proof {
        reveal_strlit("{{");
        reveal_strlit("}}");
        assert(r@ =~= token(key@));
    }
    r
}

/// `s` with each `{{key}}` of `table` replaced by its value, entry by entry.
pub fn stencil(s: &str, table: &Vec<(String, String)>) -> (r: String)
    ensures
        r@ == stencil_text(s@, pairs_view(table@)),
{
    let mut cur = String::from_str(s);
    let mut k: usize = 0;
    assert(pairs_view(table@).take(0) =~= Seq::<(Seq<char>, Seq<char>)>::empty());
    while k < table.len()
        invariant
            k <= table.len(),
            cur@ == stencil_text(s@, pairs_view(table@).take(k as int)),
        decreases table.len() - k,
    {
        let tok = placeholder(table[k].0.as_str());
        let next = replace(cur.as_str(), tok.as_str(), table[k].1.as_str());
        assert(pairs_view(table@).take(k + 1).drop_last() =~= pairs_view(table@).take(k as int));
        cur = next;
        k = k + 1;
    }
    assert(pairs_view(table@).take(table.len() as int) =~= pairs_view(table@));
    cur
}

/// Replacing a pattern that occurs nowhere leaves the text as it was.
pub proof fn lemma_replace_absent(s: Seq<char>, pat: Seq<char>, rep: Seq<char>)
    requires
        occurs_nowhere(s, pat),
    ensures
        replace_all(s, pat, rep) == s,
    decreases s.len(),
{
    if pat.len() > 0 && s.len() > 0 {
        assert(s.skip(0) =~= s);
        assert(!starts_with(s.skip(0), pat));
        let t = s.drop_first();
        assert forall|j: int| 0 <= j <= t.len() implies !starts_with(#[trigger] t.skip(j), pat) by {
            assert(t.skip(j) =~= s.skip(j + 1));
        }
        lemma_replace_absent(t, pat, rep);
        assert(seq![s[0]] + t =~= s);
    }
}

/// A placeholder occurs nowhere in a text free of braces.
pub proof fn lemma_token_absent_from_brace_free(s: Seq<char>, key: Seq<char>)
    requires
        brace_free(s),
    ensures
        occurs_nowhere(s, token(key)),
{
    assert forall|j: int| 0 <= j <= s.len() implies !starts_with(#[trigger] s.skip(j), token(key)) by {
        if starts_with(s.skip(j), token(key)) {
            assert(s.skip(j).take(token(key).len() as int)[0] == '{');
            assert(s[j] == '{');
        }
    }
}

/// The placeholder of one brace-free key occurs nowhere in that of another.
pub proof fn lemma_token_absent_from_token(k: Seq<char>, k2: Seq<char>)
    requires
        brace_free(k),
        brace_free(k2),
        k != k2,
    ensures
        occurs_nowhere(token(k), token(k2)),
{
    let t = token(k);
    let t2 = token(k2);
    assert forall|j: int| 0 <= j <= t.len() implies !starts_with(#[trigger] t.skip(j), t2) by {
        if starts_with(t.skip(j), t2) {
            let w = t.skip(j).take(t2.len() as int);
            assert(w[0] == '{' && w[1] == '{');
            assert(t[j] == '{' && t[j + 1] == '{');
            if j >= 1 {
                if j + 1 < k.len() + 2 {
                    assert(t[j + 1] == k[j - 1]);
                } else {
                    assert(t[j + 1] == '}');
                }
            }
            assert(j == 0);
            if k2.len() < k.len() {
                assert(w[k2.len() as int + 2] == '}');
                assert(t[k2.len() as int + 2] == k[k2.len() as int]);
            } else {
                assert(k2.len() == k.len());
                assert forall|i: int| 0 <= i < k.len() implies k[i] == k2[i] by {
                    assert(w[i + 2] == t2[i + 2]);
                    assert(t[i + 2] == k[i]);
                }
                assert(k =~= k2);
            }
        }
    }
}

/// A template with no `{` comes back unchanged, whatever the table holds.
pub proof fn lemma_stencil_plain_text(s: Seq<char>, table: Seq<(Seq<char>, Seq<char>)>)
    requires
        brace_free(s),
    ensures
        stencil_text(s, table) == s,
    decreases table.len(),
{
    if table.len() > 0 {
        lemma_stencil_plain_text(s, table.drop_last());
        lemma_token_absent_from_brace_free(s, table.last().0);
        lemma_replace_absent(s, token(table.last().0), table.last().1);
    }
}

/// A template that is just the placeholder of a table key comes out as that
/// key's value, where keys are distinct and keys and values hold no braces.
pub proof fn lemma_stencil_single_placeholder(
    table: Seq<(Seq<char>, Seq<char>)>,
    idx: int,
)
    requires
        0 <= idx < table.len(),
        forall|a: int| 0 <= a < table.len() ==> brace_free(#[trigger] table[a].0),
        forall|a: int| 0 <= a < table.len() ==> brace_free(#[trigger] table[a].1),
        forall|a: int| 0 <= a < table.len() && a != idx ==> #[trigger] table[a].0 != table[idx].0,
    ensures
        stencil_text(token(table[idx].0), table) == table[idx].1,
    decreases table.len(),
{
    let k = table[idx].0;
    let last = table.len() - 1;
    let before = table.drop_last();
    if idx < last {
        assert forall|a: int| 0 <= a < before.len() && a != idx implies #[trigger] before[a].0
            != before[idx].0 by {
            assert(before[a] == table[a]);
        }
        assert forall|a: int| 0 <= a < before.len() implies brace_free(#[trigger] before[a].0)
            && brace_free(before[a].1) by {
            assert(before[a] == table[a]);
        }
        lemma_stencil_single_placeholder(before, idx);
        assert(table.last() == table[last]);
        lemma_token_absent_from_brace_free(table[idx].1, table[last].0);
        lemma_replace_absent(table[idx].1, token(table[last].0), table[last].1);
    } else {
        lemma_stencil_placeholder_kept(before, k);
        let t = token(k);
        assert(t.skip(0) =~= t);
        assert(t.take(t.len() as int) =~= t);
        assert(starts_with(t, t));
        assert(t.skip(t.len() as int) =~= Seq::<char>::empty());
        assert(replace_all(t, t, table[idx].1) == table[idx].1 + replace_all(
            Seq::<char>::empty(),
            t,
            table[idx].1,
        ));
        assert(table[idx].1 + Seq::<char>::empty() =~= table[idx].1);
    }
}

/// The placeholder of a key that no entry of the table has is left as it is.
pub proof fn lemma_stencil_placeholder_kept(table: Seq<(Seq<char>, Seq<char>)>, k: Seq<char>)
    requires
        brace_free(k),
        forall|a: int| 0 <= a < table.len() ==> brace_free(#[trigger] table[a].0),
        forall|a: int| 0 <= a < table.len() ==> #[trigger] table[a].0 != k,
    ensures
        stencil_text(token(k), table) == token(k),
    decreases table.len(),
{
    if table.len() > 0 {
        let before = table.drop_last();
        assert forall|a: int| 0 <= a < before.len() implies brace_free(#[trigger] before[a].0)
            && before[a].0 != k by {
            assert(before[a] == table[a]);
        }
        lemma_stencil_placeholder_kept(before, k);
        assert(table.last() == table[table.len() - 1]);
        lemma_token_absent_from_token(k, table.last().0);
        lemma_replace_absent(token(k), token(table.last().0), table.last().1);
    }
}

} // verus!
