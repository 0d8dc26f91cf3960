//! Rendering `{{key}}` templates from a deployment context.
use vstd::prelude::*;
use crate::env::Env;
use crate::template::{stencil, stencil_text, token, brace_free,
    lemma_stencil_single_placeholder};
use crate::text::{fields, lemma_fields_nonempty, pairs_view, split};

verus! {

/// The first character of each non-empty piece, in order.
pub open spec fn initials(pieces: Seq<Seq<char>>) -> Seq<char>
    decreases pieces.len(),
{
    if pieces.len() == 0 {
        Seq::<char>::empty()
    } else {
        initials(pieces.drop_last()) + if pieces.last().len() > 0 {
            seq![pieces.last()[0]]
        } else {
            Seq::<char>::empty()
        }
    }
}

/// The short form of a name: the initials of its `-`-separated parts.
pub open spec fn abbreviation(name: Seq<char>) -> Seq<char> {
    initials(fields(name, '-'))
}

/// A name as it may stand in resource names: names longer than 15
/// characters are shortened to their abbreviation.
pub open spec fn abbr_text(name: Seq<char>) -> Seq<char> {
    if name.len() > 15 {
        abbreviation(name)
    } else {
        name
    }
}

/// The initials of the `sep`-separated parts of `name`.
pub fn abbreviate(name: &str, sep: char) -> (r: String)
    ensures
        r@ == initials(fields(name@, sep)),
{
    let parts = split(name, sep);
    let ghost ps = fields(name@, sep);
    let mut r = String::new();
    let mut i: usize = 0;
    assert(ps.take(0) =~= Seq::<Seq<char>>::empty());
    while i < parts.len()
        invariant
            i <= parts.len(),
            parts.len() == ps.len(),
            forall|j: int| 0 <= j < parts.len() ==> #[trigger] parts[j]@ == ps[j],
            r@ == initials(ps.take(i as int)),
        decreases parts.len() - i,
    {
        let part = parts[i].as_str();
        assert(ps.take(i + 1).drop_last() =~= ps.take(i as int));
        assert(ps.take(i + 1).last() == ps[i as int]);
        if part.unicode_len() > 0 {
            let first = part.substring_char(0, 1);
            r.append(first);
            assert(first@ =~= seq![ps[i as int][0]]);
            assert(r@ =~= initials(ps.take(i + 1)));
        } else {
            assert(initials(ps.take(i + 1)) =~= initials(ps.take(i as int)));
        }
        i = i + 1;
    }
    assert(ps.take(parts.len() as int) =~= ps);
    r
}

/// `name`, shortened to its abbreviation where it is longer than 15 characters.
pub fn abbr(name: &str) -> (r: String)
    ensures
        r@ == abbr_text(name@),
        name@.len() > 15 ==> r@ == initials(fields(name@, '-')),
        name@.len() <= 15 ==> r@ == name@,
{
    if name.unicode_len() > 15 {
        abbreviate(name, '-')
    } else {
        String::from_str(name)
    }
}

/// What a template is rendered against: the environment, the namespace
/// and the sandbox of a deployment.
#[derive(Debug, PartialEq, Eq)]
pub struct Context {
    pub env: Env,
    pub namespace: String,
    pub sandbox: String,
    pub trace: bool,
}

impl Context {
    /// The placeholders a template may use, each with its value.
    pub open spec fn table_text(self) -> Seq<(Seq<char>, Seq<char>)> {
        seq![
            ("account"@, self.env.account@),
            ("acc"@, self.env.account@),
            ("region"@, self.env.region@),
            ("namespace"@, self.namespace@),
            ("abbr_namespace"@, abbr_text(self.namespace@)),
            ("sandbox"@, self.sandbox@),
            ("env"@, self.env.name@),
            ("profile"@, self.env.name@),
        ]
    }

    /// The placeholder table, in the order it is applied.
    pub fn table(&self) -> (t: Vec<(String, String)>)
        ensures
            pairs_view(t@) == self.table_text(),
    {
        let account = self.env.account();
        let region = self.env.region();
        let mut t: Vec<(String, String)> = Vec::new();
        t.push((String::from_str("account"), account.clone()));
        t.push((String::from_str("acc"), account));
        t.push((String::from_str("region"), region));
        t.push((String::from_str("namespace"), self.namespace.clone()));
        t.push((String::from_str("abbr_namespace"), abbr(self.namespace.as_str())));
        t.push((String::from_str("sandbox"), self.sandbox.clone()));
        t.push((String::from_str("env"), self.env.name.clone()));
        t.push((String::from_str("profile"), self.env.name.clone()));
        assert(pairs_view(t@) =~= self.table_text());
        t
    }

    /// `s` with each placeholder of the context replaced by its value.
    pub fn render(&self, s: &str) -> (r: String)
        ensures
            r@ == stencil_text(s@, self.table_text()),
    {
        let t = self.table();
        stencil(s, &t)
    }
}

/// Every character of a piece of a split is a character of the text split.
proof fn lemma_fields_chars(s: Seq<char>, sep: char, i: int, j: int)
    requires
        0 <= i < fields(s, sep).len(),
        0 <= j < fields(s, sep)[i].len(),
    ensures
        s.contains(fields(s, sep)[i][j]),
    decreases s.len(),
{
    if s.len() > 0 {
        let p = s.drop_last();
        let r = fields(p, sep);
        lemma_fields_nonempty(p, sep);
        if s.last() == sep {
            lemma_fields_chars(p, sep, i, j);
            assert(p.contains(fields(s, sep)[i][j]));
        } else if i < r.len() - 1 || j < r.last().len() {
            lemma_fields_chars(p, sep, i, j);
            assert(p.contains(fields(s, sep)[i][j]));
        } else {
            assert(fields(s, sep)[i][j] == s.last());
            assert(s[s.len() - 1] == s.last());
        }
        if p.contains(fields(s, sep)[i][j]) {
            let k = choose|k: int| 0 <= k < p.len() && p[k] == fields(s, sep)[i][j];
            assert(s[k] == p[k]);
        }
    }
}

/// The initials of the pieces of a brace-free text hold no braces.
proof fn lemma_initials_brace_free(s: Seq<char>, sep: char, n: int)
    requires
        brace_free(s),
        0 <= n <= fields(s, sep).len(),
    ensures
        brace_free(initials(fields(s, sep).take(n))),
    decreases n,
{
    let ps = fields(s, sep);
    if n > 0 {
        lemma_initials_brace_free(s, sep, n - 1);
        assert(ps.take(n).drop_last() =~= ps.take(n - 1));
        if ps[n - 1].len() > 0 {
            lemma_fields_chars(s, sep, n - 1, 0);
        }
    }
}

/// Rendering `{{abbr_namespace}}` gives the namespace itself where it has at
/// most 15 characters, and otherwise the initials of its `-`-separated parts,
/// however many parts it has.
pub proof fn lemma_render_abbr_namespace(c: Context)
    requires
        brace_free(c.env.account@),
        brace_free(c.env.region@),
        brace_free(c.env.name@),
        brace_free(c.namespace@),
        brace_free(c.sandbox@),
    ensures
        c.namespace@.len() > 15 ==> stencil_text(token("abbr_namespace"@), c.table_text())
            == initials(fields(c.namespace@, '-')),
        c.namespace@.len() <= 15 ==> stencil_text(token("abbr_namespace"@), c.table_text())
            == c.namespace@,
{
    lemma_render_placeholder(c, 4);
}

/// With brace-free values, rendering the placeholder of any key of a
/// context's table gives that key's value.
pub proof fn lemma_render_placeholder(c: Context, i: int)
    requires
        0 <= i < 8,
        brace_free(c.env.account@),
        brace_free(c.env.region@),
        brace_free(c.env.name@),
        brace_free(c.namespace@),
        brace_free(c.sandbox@),
    ensures
        stencil_text(token(c.table_text()[i].0), c.table_text()) == c.table_text()[i].1,
{
    reveal_strlit("account");
    reveal_strlit("acc");
    reveal_strlit("region");
    reveal_strlit("namespace");
    reveal_strlit("abbr_namespace");
    reveal_strlit("sandbox");
    reveal_strlit("env");
    reveal_strlit("profile");
    let t = c.table_text();
    let ps = fields(c.namespace@, '-');
    lemma_initials_brace_free(c.namespace@, '-', ps.len() as int);
    assert(ps.take(ps.len() as int) =~= ps);
    assert forall|a: int| 0 <= a < t.len() implies brace_free(#[trigger] t[a].0) && brace_free(
        t[a].1,
    ) by {}
    assert forall|a: int| 0 <= a < t.len() && a != i implies #[trigger] t[a].0 != t[i].0 by {
        if t[a].0 == t[i].0 {
            assert(t[a].0.len() == t[i].0.len());
            assert(t[a].0[0] == t[i].0[0]);
            assert(t[a].0[1] == t[i].0[1]);
        }
    }
    lemma_stencil_single_placeholder(t, i);
}

} // verus!
