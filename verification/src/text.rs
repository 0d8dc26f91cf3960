//! Small text helpers shared by the rest of the library: splitting on a
//! separator, defaults for optional text, path and name shortening.
use vstd::prelude::*;

verus! {

/// The pieces of `s` between occurrences of `sep`, as `str::split` with a
/// one-character pattern yields them (there is always at least one piece).
pub open spec fn fields(s: Seq<char>, sep: char) -> Seq<Seq<char>>
    decreases s.len(),
{
    if s.len() == 0 {
        seq![Seq::<char>::empty()]
    } else {
        let r = fields(s.drop_last(), sep);
        if s.last() == sep {
            r.push(Seq::<char>::empty())
        } else {
            r.update(r.len() - 1, r.last().push(s.last()))
        }
    }
}

/// The longest suffix of `s` that holds no `sep`.
pub open spec fn tail_after(s: Seq<char>, sep: char) -> Seq<char>
    decreases s.len(),
{
    if s.len() == 0 || s.last() == sep {
        Seq::<char>::empty()
    } else {
        tail_after(s.drop_last(), sep).push(s.last())
    }
}

/// Field `n` of `s` split on `sep`, or the empty text where there is no such field.
pub open spec fn nth_field(s: Seq<char>, sep: char, n: int) -> Seq<char> {
    if 0 <= n < fields(s, sep).len() {
        fields(s, sep)[n]
    } else {
        Seq::<char>::empty()
    }
}

/// Splitting never yields an empty list of pieces.
pub proof fn lemma_fields_nonempty(s: Seq<char>, sep: char)
    ensures
        fields(s, sep).len() >= 1,
    decreases s.len(),
{
    if s.len() > 0 {
        lemma_fields_nonempty(s.drop_last(), sep);
    }
}

/// The last piece of a split is the longest suffix free of the separator.
pub proof fn lemma_last_field_is_tail(s: Seq<char>, sep: char)
    ensures
        fields(s, sep).last() == tail_after(s, sep),
    decreases s.len(),
{
    if s.len() > 0 {
        lemma_last_field_is_tail(s.drop_last(), sep);
        lemma_fields_nonempty(s.drop_last(), sep);
    }
}

/// What `tail_after` gives: a suffix of `s`, free of `sep`, preceded by `sep`
/// unless it is the whole of `s`.
pub proof fn lemma_tail_after_shape(s: Seq<char>, sep: char)
    ensures
        tail_after(s, sep).len() <= s.len(),
        tail_after(s, sep) == s.subrange(s.len() - tail_after(s, sep).len(), s.len() as int),
        !tail_after(s, sep).contains(sep),
        tail_after(s, sep).len() < s.len() ==> s[s.len() - tail_after(s, sep).len() - 1] == sep,
    decreases s.len(),
{
    if s.len() > 0 && s.last() != sep {
        let p = s.drop_last();
        lemma_tail_after_shape(p, sep);
        let t = tail_after(p, sep);
        assert(tail_after(s, sep) =~= s.subrange(s.len() - t.len() - 1, s.len() as int));
        assert forall|i: int| 0 <= i < t.len() + 1 implies tail_after(s, sep)[i] != sep by {
            if i < t.len() {
                assert(tail_after(s, sep)[i] == t[i]);
                assert(!t.contains(sep));
                if t[i] == sep {
                    assert(t.contains(sep));
                }
            }
        }
    }
}

/// The pieces `parts` joined with `sep` between each two.
pub open spec fn join(parts: Seq<Seq<char>>, sep: char) -> Seq<char>
    decreases parts.len(),
{
    if parts.len() == 0 {
        Seq::<char>::empty()
    } else if parts.len() == 1 {
        parts[0]
    } else {
        join(parts.drop_last(), sep).push(sep) + parts.last()
    }
}

/// Appending separator-free text to `s` extends its last piece.
proof fn lemma_fields_extend(s: Seq<char>, t: Seq<char>, sep: char)
    requires
        !t.contains(sep),
    ensures
        fields(s + t, sep) == fields(s, sep).update(
            fields(s, sep).len() - 1,
            fields(s, sep).last() + t,
        ),
    decreases t.len(),
{
    lemma_fields_nonempty(s, sep);
    if t.len() == 0 {
        assert(s + t =~= s);
        assert(fields(s, sep).last() + t =~= fields(s, sep).last());
        assert(fields(s, sep).update(fields(s, sep).len() - 1, fields(s, sep).last())
            =~= fields(s, sep));
    } else {
        let u = t.drop_last();
        assert(!u.contains(sep)) by {
            if u.contains(sep) {
                let k = choose|k: int| 0 <= k < u.len() && u[k] == sep;
                assert(t[k] == sep);
            }
        }
        assert(t.last() != sep) by {
            assert(t[t.len() - 1] == t.last());
        }
        lemma_fields_extend(s, u, sep);
        lemma_fields_nonempty(s + u, sep);
        assert((s + t).drop_last() =~= s + u);
        assert((s + t).last() == t.last());
        assert(fields(s, sep).last() + u + seq![t.last()] =~= fields(s, sep).last() + t);
        let f = fields(s, sep);
        let r = fields(s + u, sep);
        assert(r.len() == f.len());
        assert(r.last() == f.last() + u);
        assert(fields(s + t, sep) == r.update(r.len() - 1, r.last().push(t.last())));
        assert((f.last() + u).push(t.last()) =~= f.last() + t);
        assert(fields(s + t, sep) =~= fields(s, sep).update(
            fields(s, sep).len() - 1,
            fields(s, sep).last() + t,
        ));
    }
}

/// Splitting the join of separator-free pieces gives the pieces back.
pub proof fn lemma_fields_of_join(parts: Seq<Seq<char>>, sep: char)
    requires
        parts.len() >= 1,
        forall|i: int| 0 <= i < parts.len() ==> !(#[trigger] parts[i]).contains(sep),
    ensures
        fields(join(parts, sep), sep) == parts,
    decreases parts.len(),
{
    if parts.len() == 1 {
        lemma_fields_extend(Seq::<char>::empty(), parts[0], sep);
        assert(Seq::<char>::empty() + parts[0] =~= parts[0]);
        assert(Seq::<char>::empty() + parts[0] =~= parts[0]);
        assert(fields(parts[0], sep) =~= parts);
    } else {
        let d = parts.drop_last();
        assert forall|i: int| 0 <= i < d.len() implies !(#[trigger] d[i]).contains(sep) by {
            assert(d[i] == parts[i]);
        }
        lemma_fields_of_join(d, sep);
        let h = join(d, sep).push(sep);
        assert(parts.last() == parts[parts.len() - 1]);
        lemma_fields_extend(h, parts.last(), sep);
        assert(h.drop_last() =~= join(d, sep));
        assert(fields(h, sep) == d.push(Seq::<char>::empty()));
        assert(Seq::<char>::empty() + parts.last() =~= parts.last());
        assert(fields(join(parts, sep), sep) =~= parts);
    }
}

/// The characters of `s`, in order.
pub fn chars_of(s: &str) -> (v: Vec<char>)
    ensures
        v@ == s@,
{
    let mut v: Vec<char> = Vec::new();
    for c in it: s.chars()
        invariant
            v@ == it.seq().take(it.index() as int),
            it.seq() == s@,
    {
        v.push(c);
    }
    v
}

/// The text held in `s`, or `default` where `s` is `None`.
pub fn maybe_string(s: Option<String>, default: &str) -> (r: String)
    ensures
        r@ == match s {
            Some(x) => x@,
            None => default@,
        },
{
    match s {
        Some(x) => x,
        None => String::from_str(default),
    }
}

/// The pieces of `s` between occurrences of `sep`.
pub fn split(s: &str, sep: char) -> (parts: Vec<String>)
    ensures
        parts.len() == fields(s@, sep).len(),
        forall|i: int| 0 <= i < parts.len() ==> #[trigger] parts[i]@ == fields(s@, sep)[i],
{
    let cs = chars_of(s);
    let n = cs.len();
    let mut parts: Vec<String> = Vec::new();
    let mut start: usize = 0;
    let mut i: usize = 0;
    assert(s@.take(0) =~= Seq::<char>::empty());
    assert(parts@.map_values(|p: String| p@) =~= Seq::<Seq<char>>::empty());
    assert(s@.subrange(0, 0) =~= Seq::<char>::empty());
    while i < n
        invariant
            n == cs.len(),
            cs@ == s@,
            start <= i <= n,
            fields(s@.take(i as int), sep) =~= parts@.map_values(|p: String| p@).push(
                s@.subrange(start as int, i as int),
            ),
        decreases n - i,
    {
        let ghost before = parts@.map_values(|p: String| p@);
        assert(s@.take(i + 1).drop_last() =~= s@.take(i as int));
        if cs[i] == sep {
            let piece = s.substring_char(start, i);
            parts.push(String::from_str(piece));
            assert(parts@.map_values(|p: String| p@) =~= before.push(
                s@.subrange(start as int, i as int),
            ));
            start = i + 1;
            assert(s@.subrange(start as int, i + 1) =~= Seq::<char>::empty());
            assert(fields(s@.take(i + 1), sep) =~= fields(s@.take(i as int), sep).push(
                Seq::<char>::empty(),
            ));
        } else {
            assert(s@.subrange(start as int, i + 1) =~= s@.subrange(start as int, i as int).push(
                s@[i as int],
            ));
            let ghost r = fields(s@.take(i as int), sep);
            assert(fields(s@.take(i + 1), sep) =~= r.update(r.len() - 1, r.last().push(s@[i as int])));
        }
        i = i + 1;
    }
    let last = s.substring_char(start, n);
    let ghost before = parts@.map_values(|p: String| p@);
    parts.push(String::from_str(last));
    assert(s@.take(n as int) =~= s@);
    assert(parts@.map_values(|p: String| p@) =~= before.push(s@.subrange(start as int, n as int)));
    assert forall|i: int| 0 <= i < parts.len() implies #[trigger] parts[i]@ == fields(s@, sep)[i] by {
        assert(parts@.map_values(|p: String| p@)[i] == parts[i]@);
    }
    parts
}

/// The text after the last `sep` in `s`; all of `s` where it holds none.
pub fn tail_of(s: &str, sep: char) -> (r: String)
    ensures
        r@ == tail_after(s@, sep),
{
    let cs = chars_of(s);
    let n = cs.len();
    let mut start: usize = 0;
    let mut i: usize = 0;
    while i < n
        invariant
            n == cs.len(),
            cs@ == s@,
            start <= i <= n,
            tail_after(s@.take(i as int), sep) == s@.subrange(start as int, i as int),
        decreases n - i,
    {
        assert(s@.take(i + 1).drop_last() =~= s@.take(i as int));
        if cs[i] == sep {
            start = i + 1;
            assert(s@.subrange(start as int, i + 1) =~= Seq::<char>::empty());
        } else {
            assert(s@.subrange(start as int, i + 1) =~= s@.subrange(start as int, i as int).push(
                s@[i as int],
            ));
        }
        i = i + 1;
    }
    assert(s@.take(n as int) =~= s@);
    String::from_str(s.substring_char(start, n))
}

/// Element `n` of `parts`, or the empty text where `parts` is shorter.
pub fn nth(parts: &Vec<String>, n: usize) -> (r: String)
    ensures
        r@ == if n < parts.len() {
            parts[n as int]@
        } else {
            Seq::<char>::empty()
        },
{
    if n < parts.len() {
        parts[n].clone()
    } else {
        String::new()
    }
}

/// The last component of a `/`-separated path.
pub fn basename(path: &str) -> (r: String)
    ensures
        r@ == tail_after(path@, '/'),
{
    tail_of(path, '/')
}

} // verus!

verus! {

/// The text of (name, value) pairs.
pub open spec fn pairs_view(s: Seq<(String, String)>) -> Seq<(Seq<char>, Seq<char>)> {
    s.map_values(|e: (String, String)| (e.0@, e.1@))
}

/// A copy of the (name, value) pairs `s`.
pub fn copy_pairs(s: &Vec<(String, String)>) -> (r: Vec<(String, String)>)
    ensures
        pairs_view(r@) == pairs_view(s@),
{
    let mut r: Vec<(String, String)> = Vec::new();
    let mut i: usize = 0;
    while i < s.len()
        invariant
            i <= s.len(),
            r.len() == i,
            forall|k: int| 0 <= k < i ==> #[trigger] r@[k].0@ == s@[k].0@ && r@[k].1@ == s@[k].1@,
        decreases s.len() - i,
    {
        r.push((s[i].0.clone(), s[i].1.clone()));
        i = i + 1;
    }
    assert(pairs_view(r@) =~= pairs_view(s@));
    r
}

/// Whether `a` and `b` hold the same text.
pub fn str_eq(a: &str, b: &str) -> (r: bool)
    ensures
        r == (a@ == b@),
{
    String::from_str(a) == String::from_str(b)
}

} // verus!
