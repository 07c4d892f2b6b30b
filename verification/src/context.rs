//! The validated run context, and the lexical path model that keeps every
//! path of a run inside the directory it was started from.
use vstd::prelude::*;
use crate::cli::{AcquireMode, Cli};
use crate::error::{DeployError, ErrorView, unit_outcome};
use crate::git::{parse_url, trim_slashes, trimmed_slashes, url_parse};
use crate::process::env_views;
use crate::text::{chars_of, concat3, string_of};

verus! {

// ---------------------------------------------------------------------------
// Lexical path model
// ---------------------------------------------------------------------------

/// Both `/` and `\` separate path components.
pub open spec fn is_sep(c: char) -> bool {
    c == '/' || c == '\\'
}

/// The pieces of `s` between separators, empty pieces included
/// (`"/a//b"` gives `["", "a", "", "b"]`).
pub open spec fn split_sep(s: Seq<char>) -> Seq<Seq<char>>
    decreases s.len(),
{
    if s.len() == 0 {
        seq![Seq::<char>::empty()]
    } else {
        let p = split_sep(s.drop_last());
        if is_sep(s.last()) {
            p.push(Seq::<char>::empty())
        } else {
            p.update(p.len() - 1, p.last().push(s.last()))
        }
    }
}

/// One step of lexical normalization: empty pieces and `.` are dropped, `..`
/// removes the last kept component (if any), anything else is kept.
pub open spec fn apply_piece(stack: Seq<Seq<char>>, piece: Seq<char>) -> Seq<Seq<char>> {
    if piece.len() == 0 || piece == seq!['.'] {
        stack
    } else if piece == seq!['.', '.'] {
        if stack.len() > 0 { stack.drop_last() } else { stack }
    } else {
        stack.push(piece)
    }
}

/// The components kept after normalizing a list of pieces, left to right.
pub open spec fn collapse(pieces: Seq<Seq<char>>) -> Seq<Seq<char>>
    decreases pieces.len(),
{
    if pieces.len() == 0 {
        Seq::empty()
    } else {
        apply_piece(collapse(pieces.drop_last()), pieces.last())
    }
}

/// The normalized components of a path.
pub open spec fn components(s: Seq<char>) -> Seq<Seq<char>> {
    collapse(split_sep(s))
}

/// A path is rooted when it starts with a separator.
pub open spec fn is_rooted(s: Seq<char>) -> bool {
    s.len() > 0 && is_sep(s[0])
}

/// The first separator written in `s`; `/` when there is none.
pub open spec fn separator_of(s: Seq<char>) -> char
    decreases s.len(),
{
    if s.len() == 0 {
        '/'
    } else if is_sep(s[0]) {
        s[0]
    } else {
        separator_of(s.drop_first())
    }
}

/// Components written one after another with `sep` between them.
pub open spec fn join_with(parts: Seq<Seq<char>>, sep: char) -> Seq<char>
    decreases parts.len(),
{
    if parts.len() == 0 {
        Seq::empty()
    } else if parts.len() == 1 {
        parts[0]
    } else {
        join_with(parts.drop_last(), sep).push(sep) + parts.last()
    }
}

/// A path written out from its root flag and components.
pub open spec fn render(rooted: bool, parts: Seq<Seq<char>>, sep: char) -> Seq<char> {
    (if rooted { seq![sep] } else { Seq::empty() }) + join_with(parts, sep)
}

/// The lexical normal form of a path: same root, normalized components,
/// written with the separator the path itself uses.
pub open spec fn normalized(s: Seq<char>) -> Seq<char> {
    render(is_rooted(s), components(s), separator_of(s))
}

/// `base` is a component-wise prefix of `target` (a path with no components
/// and no root is a prefix of every path).
pub open spec fn within(base: Seq<char>, target: Seq<char>) -> bool {
    let b = components(base);
    let t = components(target);
    &&& (is_rooted(base) == is_rooted(target) || (!is_rooted(base) && b.len() == 0))
    &&& b.len() <= t.len()
    &&& t.subrange(0, b.len() as int) == b
}

/// `base` joined with `rest`: a rooted `rest` replaces `base`; otherwise the
/// two are written with one `/` between them.
pub open spec fn joined(base: Seq<char>, rest: Seq<char>) -> Seq<char> {
    if is_rooted(rest) || base.len() == 0 {
        rest
    } else if is_sep(base.last()) {
        base + rest
    } else {
        base.push('/') + rest
    }
}

/// Joins two paths, as `Path::join` does.
pub fn join_path(base: &str, rest: &str) -> (p: String)
    ensures
        p@ == joined(base@, rest@),
{
    let b = chars_of(base);
    let r = chars_of(rest);
    if (r.len() > 0 && (r[0] == '/' || r[0] == '\\')) || b.len() == 0 {
        return String::from_str(rest);
    }
    let last = b[b.len() - 1];
    if last == '/' || last == '\\' {
        let mut s = String::from_str(base);
        s.append(rest);
        s
    } else {
        proof {
            reveal_strlit("/");
            assert(base@ + "/"@ =~= base@.push('/'));
        }
        concat3(base, "/", rest)
    }
}

fn is_separator(c: char) -> (b: bool)
    ensures
        b == is_sep(c),
{
    c == '/' || c == '\\'
}

fn is_dot(piece: &Vec<char>) -> (b: bool)
    ensures
        b == (piece@ == seq!['.']),
{
    if piece.len() == 1 && piece[0] == '.' {
        assert(piece@ =~= seq!['.']);
        true
    } else {
        false
    }
}

fn is_dot_dot(piece: &Vec<char>) -> (b: bool)
    ensures
        b == (piece@ == seq!['.', '.']),
{
    if piece.len() == 2 && piece[0] == '.' && piece[1] == '.' {
        assert(piece@ =~= seq!['.', '.']);
        true
    } else {
        false
    }
}

fn push_piece(stack: &mut Vec<Vec<char>>, piece: Vec<char>)
    ensures
        final(stack).deep_view() == apply_piece(old(stack).deep_view(), piece@),
{
    if piece.len() == 0 || is_dot(&piece) {
    } else if is_dot_dot(&piece) {
        if stack.len() > 0 {
            let ghost before = stack.deep_view();
            stack.pop();
            assert(stack.deep_view() =~= before.drop_last());
        }
    } else {
        let ghost before = stack.deep_view();
        let ghost p = piece@;
        assert(piece.deep_view() =~= p);
        stack.push(piece);
        assert(stack.deep_view() =~= before.push(p));
    }
}

proof fn lemma_split_step(s: Seq<char>, i: int)
    requires
        0 <= i < s.len(),
    ensures
        split_sep(s.take(i + 1)) == (if is_sep(s[i]) {
            split_sep(s.take(i)).push(Seq::<char>::empty())
        } else {
            let p = split_sep(s.take(i));
            p.update(p.len() - 1, p.last().push(s[i]))
        }),
{
    assert(s.take(i + 1).drop_last() =~= s.take(i));
}

/// The root flag, normalized components and separator of a path.
fn lexical_parts(path: &str) -> (r: (bool, Vec<Vec<char>>, char))
    ensures
        r.0 == is_rooted(path@),
        r.1.deep_view() == components(path@),
        r.2 == separator_of(path@),
{
    let chars = chars_of(path);
    let ghost s = path@;
    let n = chars.len();
    let mut stack: Vec<Vec<char>> = Vec::new();
    let mut cur: Vec<char> = Vec::new();
    let ghost mut pieces: Seq<Seq<char>> = Seq::empty();
    let mut sep: char = '/';
    let mut seen_sep = false;
    let mut i: usize = 0;
    assert(s.take(0) =~= Seq::<char>::empty());
    assert(s.skip(0) =~= s);
    while i < n
        invariant
            chars@ == s,
            n == s.len(),
            i <= n,
            split_sep(s.take(i as int)) == pieces.push(cur@),
            stack.deep_view() == collapse(pieces),
            seen_sep ==> separator_of(s) == sep,
            !seen_sep ==> separator_of(s) == separator_of(s.skip(i as int)),
            !seen_sep ==> sep == '/',
        decreases n - i,
    {
        let c = chars[i];
        proof {
            lemma_split_step(s, i as int);
            if !seen_sep {
                assert(s.skip(i as int).drop_first() =~= s.skip(i + 1));
            }
        }
        if is_separator(c) {
            if !seen_sep {
                sep = c;
                seen_sep = true;
            }
            let piece = cur;
            cur = Vec::new();
            proof {
                assert(pieces.push(piece@).drop_last() =~= pieces);
            }
            push_piece(&mut stack, piece);
            proof {
                pieces = pieces.push(piece@);
                assert(pieces.push(cur@) =~= split_sep(s.take(i + 1)));
            }
        } else {
            proof {
                let p = pieces.push(cur@);
                assert(p.update(p.len() - 1, p.last().push(c)) =~= pieces.push(cur@.push(c)));
            }
            cur.push(c);
        }
        i = i + 1;
    }
    proof {
        assert(s.take(n as int) =~= s);
        assert(pieces.push(cur@).drop_last() =~= pieces);
        if !seen_sep {
            assert(s.skip(n as int) =~= Seq::<char>::empty());
        }
    }
    push_piece(&mut stack, cur);
    let rooted = n > 0 && is_separator(chars[0]);
    (rooted, stack, sep)
}

/// Writes a path out from its root flag, components and separator.
fn render_path(rooted: bool, stack: &Vec<Vec<char>>, sep: char) -> (p: String)
    ensures
        p@ == render(rooted, stack.deep_view(), sep),
{
    let ghost parts = stack.deep_view();
    let mut out: Vec<char> = Vec::new();
    if rooted {
        out.push(sep);
    }
    let ghost prefix = out@;
    let mut k: usize = 0;
    while k < stack.len()
        invariant
            parts == stack.deep_view(),
            k <= stack.len(),
            out@ == prefix + join_with(parts.take(k as int), sep),
        decreases stack.len() - k,
    {
        proof {
            assert(parts.take(k + 1).drop_last() =~= parts.take(k as int));
            assert(parts.take(k + 1).last() == parts[k as int]);
        }
        if k > 0 {
            out.push(sep);
        }
        let piece = &stack[k];
        let mut j: usize = 0;
        let ghost mid = out@;
        while j < piece.len()
            invariant
                j <= piece.len(),
                out@ == mid + piece@.take(j as int),
            decreases piece.len() - j,
        {
            out.push(piece[j]);
            j = j + 1;
            assert(out@ =~= mid + piece@.take(j as int));
        }
        proof {
            assert(piece@.take(j as int) =~= piece@);
            assert(stack.deep_view()[k as int] == piece@);
            if k == 0 {
                assert(parts.take(1) =~= seq![parts[0]]);
                assert(out@ =~= prefix + join_with(parts.take(1), sep));
            } else {
                assert(out@ =~= prefix + join_with(parts.take(k + 1), sep));
            }
        }
        k = k + 1;
    }
    proof {
        assert(parts.take(stack.len() as int) =~= parts);
    }
    string_of(out.as_slice())
}

/// Normalizes a path lexically, without touching the file system: `.` and
/// empty components are dropped and `..` removes the component before it.
pub fn normalize_path(path: &str) -> (p: String)
    ensures
        p@ == normalized(path@),
{
    let (rooted, stack, sep) = lexical_parts(path);
    render_path(rooted, &stack, sep)
}

fn chars_equal(a: &Vec<char>, b: &Vec<char>) -> (r: bool)
    ensures
        r == (a@ == b@),
{
    if a.len() != b.len() {
        return false;
    }
    let mut i: usize = 0;
    while i < a.len()
        invariant
            a.len() == b.len(),
            i <= a.len(),
            forall|j: int| 0 <= j < i ==> a@[j] == b@[j],
        decreases a.len() - i,
    {
        if a[i] != b[i] {
            return false;
        }
        i = i + 1;
    }
    assert(a@ =~= b@);
    true
}

fn is_parts_prefix(b: &Vec<Vec<char>>, t: &Vec<Vec<char>>) -> (r: bool)
    ensures
        r == (b.deep_view().len() <= t.deep_view().len() && t.deep_view().subrange(
            0,
            b.deep_view().len() as int,
        ) == b.deep_view()),
{
    let ghost bv = b.deep_view();
    let ghost tv = t.deep_view();
    if b.len() > t.len() {
        return false;
    }
    let mut i: usize = 0;
    while i < b.len()
        invariant
            bv == b.deep_view(),
            tv == t.deep_view(),
            b.len() <= t.len(),
            i <= b.len(),
            forall|j: int| 0 <= j < i ==> tv[j] == bv[j],
        decreases b.len() - i,
    {
        let same = chars_equal(&b[i], &t[i]);
        proof {
            assert(bv[i as int] == b[i as int]@);
            assert(tv[i as int] == t[i as int]@);
        }
        if !same {
            assert(tv.subrange(0, bv.len() as int)[i as int] == tv[i as int]);
            return false;
        }
        i = i + 1;
    }
    assert(tv.subrange(0, bv.len() as int) =~= bv);
    true
}

/// What checking that `target` lies inside `base` gives.
pub open spec fn within_check(base: Seq<char>, target: Seq<char>) -> Result<(), ErrorView> {
    if within(base, target) {
        Ok(())
    } else {
        Err(ErrorView::PathOutsideWorkspace { path: normalized(target) })
    }
}

/// Checks that `target`, once normalized, lies inside the normalized `base`.
pub fn ensure_within(base: &str, target: &str) -> (r: Result<(), DeployError>)
    ensures
        unit_outcome(r) == within_check(base@, target@),
{
    let (b_rooted, b_parts, _b_sep) = lexical_parts(base);
    let (t_rooted, t_parts, t_sep) = lexical_parts(target);
    let ok = (b_rooted == t_rooted || (!b_rooted && b_parts.len() == 0))
        && is_parts_prefix(&b_parts, &t_parts);
    if ok {
        Ok(())
    } else {
        let path = render_path(t_rooted, &t_parts, t_sep);
        Err(DeployError::PathOutsideWorkspace { path })
    }
}

// ---------------------------------------------------------------------------
// Laws of the path model
// ---------------------------------------------------------------------------

/// A text without separators.
pub open spec fn sep_free(p: Seq<char>) -> bool {
    forall|i: int| 0 <= i < p.len() ==> !is_sep(#[trigger] p[i])
}

/// A component that normalization keeps unchanged.
pub open spec fn clean(p: Seq<char>) -> bool {
    p.len() > 0 && p != seq!['.'] && p != seq!['.', '.'] && sep_free(p)
}

proof fn lemma_split_nonempty(s: Seq<char>)
    ensures
        split_sep(s).len() >= 1,
    decreases s.len(),
{
    if s.len() > 0 {
        lemma_split_nonempty(s.drop_last());
    }
}

proof fn lemma_split_sep_free(s: Seq<char>)
    ensures
        forall|k: int| 0 <= k < split_sep(s).len() ==> sep_free(#[trigger] split_sep(s)[k]),
    decreases s.len(),
{
    if s.len() > 0 {
        lemma_split_sep_free(s.drop_last());
        lemma_split_nonempty(s.drop_last());
        let p = split_sep(s.drop_last());
        if !is_sep(s.last()) {
            let q = p.update(p.len() - 1, p.last().push(s.last()));
            assert forall|k: int| 0 <= k < q.len() implies sep_free(#[trigger] q[k]) by {
                if k == p.len() - 1 {
                    assert(sep_free(p[k]));
                    let x = p.last().push(s.last());
                    assert forall|i: int| 0 <= i < x.len() implies !is_sep(#[trigger] x[i]) by {
                        if i < p.last().len() {
                            assert(x[i] == p[k][i]);
                        }
                    }
                }
            }
        } else {
            let q = p.push(Seq::<char>::empty());
            assert forall|k: int| 0 <= k < q.len() implies sep_free(#[trigger] q[k]) by {
                if k < p.len() {
                    assert(q[k] == p[k]);
                }
            }
        }
    }
}

/// Splitting a concatenation joins the last piece of the first text with the
/// first piece of the second.
proof fn lemma_split_concat(a: Seq<char>, b: Seq<char>)
    ensures
        split_sep(a + b) == split_sep(a).drop_last() + seq![split_sep(a).last() + split_sep(b)[0]]
            + split_sep(b).drop_first(),
    decreases b.len(),
{
    lemma_split_nonempty(a);
    if b.len() == 0 {
        assert(a + b =~= a);
        assert(split_sep(a).last() + split_sep(b)[0] =~= split_sep(a).last());
        assert(split_sep(a).drop_last() + seq![split_sep(a).last()] + split_sep(b).drop_first() =~= split_sep(a));
    } else {
        let b1 = b.drop_last();
        let c = b.last();
        lemma_split_concat(a, b1);
        lemma_split_nonempty(b1);
        assert((a + b).drop_last() =~= a + b1);
        assert((a + b).last() == c);
        let big = split_sep(a);
        let small = split_sep(b1);
        if is_sep(c) {
            assert(split_sep(b) == small.push(Seq::<char>::empty()));
            assert(split_sep(b)[0] == small[0]);
            assert(split_sep(b).drop_first() =~= small.drop_first().push(Seq::<char>::empty()));
            assert(split_sep(a + b) =~= big.drop_last() + seq![big.last() + split_sep(b)[0]] + split_sep(b).drop_first());
        } else {
            let nb = small.update(small.len() - 1, small.last().push(c));
            assert(split_sep(b) == nb);
            if small.len() == 1 {
                assert(nb[0] == small[0].push(c));
                assert(nb.drop_first() =~= Seq::<Seq<char>>::empty());
                assert(small.drop_first() =~= Seq::<Seq<char>>::empty());
                assert(big.last() + nb[0] =~= (big.last() + small[0]).push(c));
                assert(split_sep(a + b) =~= big.drop_last() + seq![big.last() + nb[0]] + nb.drop_first());
            } else {
                assert(nb[0] == small[0]);
                assert(nb.drop_first() =~= small.drop_first().update(small.len() - 2, small.last().push(c)));
                assert(split_sep(a + b) =~= big.drop_last() + seq![big.last() + nb[0]] + nb.drop_first());
            }
        }
    }
}

proof fn lemma_split_of_sep_free(x: Seq<char>)
    requires
        sep_free(x),
    ensures
        split_sep(x) == seq![x],
    decreases x.len(),
{
    if x.len() > 0 {
        let y = x.drop_last();
        assert(sep_free(y)) by {
            assert forall|i: int| 0 <= i < y.len() implies !is_sep(#[trigger] y[i]) by {
                assert(y[i] == x[i]);
            }
        }
        lemma_split_of_sep_free(y);
        assert(!is_sep(x.last()));
        assert(split_sep(y) == seq![y]);
        assert(seq![y].update(0, y.push(x.last())) =~= seq![y.push(x.last())]);
        assert(y.push(x.last()) =~= x);
    } else {
        assert(x =~= Seq::<char>::empty());
    }
}

proof fn lemma_split_join(parts: Seq<Seq<char>>, sep: char)
    requires
        is_sep(sep),
        parts.len() >= 1,
        forall|k: int| 0 <= k < parts.len() ==> sep_free(#[trigger] parts[k]),
    ensures
        split_sep(join_with(parts, sep)) == parts,
    decreases parts.len(),
{
    if parts.len() == 1 {
        assert(sep_free(parts[0]));
        lemma_split_of_sep_free(parts[0]);
        assert(seq![parts[0]] =~= parts);
    } else {
        let init = parts.drop_last();
        assert forall|k: int| 0 <= k < init.len() implies sep_free(#[trigger] init[k]) by {
            assert(init[k] == parts[k]);
        }
        lemma_split_join(init, sep);
        let a = join_with(init, sep).push(sep);
        assert(sep_free(parts.last()));
        lemma_split_of_sep_free(parts.last());
        lemma_split_concat(a, parts.last());
        assert(a.drop_last() =~= join_with(init, sep));
        assert(split_sep(a) == init.push(Seq::<char>::empty()));
        assert(Seq::<char>::empty() + parts.last() =~= parts.last());
        assert(split_sep(join_with(parts, sep)) =~= parts);
    }
}

proof fn lemma_collapse_clean(ps: Seq<Seq<char>>)
    requires
        forall|k: int| 0 <= k < ps.len() ==> clean(#[trigger] ps[k]),
    ensures
        collapse(ps) == ps,
    decreases ps.len(),
{
    if ps.len() > 0 {
        let init = ps.drop_last();
        assert forall|k: int| 0 <= k < init.len() implies clean(#[trigger] init[k]) by {
            assert(init[k] == ps[k]);
        }
        lemma_collapse_clean(init);
        assert(clean(ps.last()));
        assert(init.push(ps.last()) =~= ps);
    }
}

proof fn lemma_collapse_is_clean(ps: Seq<Seq<char>>)
    requires
        forall|k: int| 0 <= k < ps.len() ==> sep_free(#[trigger] ps[k]),
    ensures
        forall|k: int| 0 <= k < collapse(ps).len() ==> clean(#[trigger] collapse(ps)[k]),
    decreases ps.len(),
{
    if ps.len() > 0 {
        let init = ps.drop_last();
        assert forall|k: int| 0 <= k < init.len() implies sep_free(#[trigger] init[k]) by {
            assert(init[k] == ps[k]);
        }
        lemma_collapse_is_clean(init);
        let c = collapse(init);
        let piece = ps.last();
        assert(sep_free(piece));
        let r = apply_piece(c, piece);
        assert forall|k: int| 0 <= k < r.len() implies clean(#[trigger] r[k]) by {
            if piece.len() == 0 || piece == seq!['.'] {
            } else if piece == seq!['.', '.'] {
                if c.len() > 0 {
                    assert(r[k] == c[k]);
                }
            } else {
                if k < c.len() {
                    assert(r[k] == c[k]);
                }
            }
        }
    }
}

proof fn lemma_collapse_single_empty()
    ensures
        collapse(seq![Seq::<char>::empty()]) == Seq::<Seq<char>>::empty(),
{
    let e = seq![Seq::<char>::empty()];
    assert(e.drop_last() =~= Seq::<Seq<char>>::empty());
    assert(e.last() == Seq::<char>::empty());
    assert(collapse(Seq::<Seq<char>>::empty()) == Seq::<Seq<char>>::empty());
}

proof fn lemma_collapse_skips_empty_head(ps: Seq<Seq<char>>)
    ensures
        collapse(seq![Seq::<char>::empty()] + ps) == collapse(ps),
    decreases ps.len(),
{
    let e = seq![Seq::<char>::empty()];
    lemma_collapse_single_empty();
    if ps.len() == 0 {
        assert(e + ps =~= e);
    } else {
        lemma_collapse_skips_empty_head(ps.drop_last());
        assert((e + ps).drop_last() =~= e + ps.drop_last());
        assert((e + ps).last() == ps.last());
    }
}

/// The components of a path are clean.
pub proof fn lemma_components_clean(s: Seq<char>)
    ensures
        forall|k: int| 0 <= k < components(s).len() ==> clean(#[trigger] components(s)[k]),
{
    lemma_split_sep_free(s);
    lemma_collapse_is_clean(split_sep(s));
}

proof fn lemma_components_of_render(rooted: bool, parts: Seq<Seq<char>>, sep: char)
    requires
        is_sep(sep),
        forall|k: int| 0 <= k < parts.len() ==> clean(#[trigger] parts[k]),
    ensures
        components(render(rooted, parts, sep)) == parts,
{
    assert forall|k: int| 0 <= k < parts.len() implies sep_free(#[trigger] parts[k]) by {
        assert(clean(parts[k]));
    }
    let j = join_with(parts, sep);
    if parts.len() == 0 {
        assert(j =~= Seq::<char>::empty());
    }
    if rooted {
        let r = seq![sep] + j;
        lemma_split_of_sep_free(Seq::<char>::empty());
        assert(seq![sep].drop_last() =~= Seq::<char>::empty());
        assert(seq![sep].last() == sep);
        assert(split_sep(Seq::<char>::empty()) == seq![Seq::<char>::empty()]);
        assert(split_sep(seq![sep]) =~= seq![Seq::<char>::empty(), Seq::<char>::empty()]);
        lemma_split_concat(seq![sep], j);
        lemma_split_nonempty(j);
        assert(render(rooted, parts, sep) =~= r);
        if parts.len() == 0 {
            lemma_split_of_sep_free(j);
            assert(split_sep(r) =~= seq![Seq::<char>::empty(), Seq::<char>::empty()]);
            let e = seq![Seq::<char>::empty()];
            lemma_collapse_skips_empty_head(e);
            lemma_collapse_single_empty();
            assert(e + e =~= seq![Seq::<char>::empty(), Seq::<char>::empty()]);
            assert(collapse(split_sep(r)) =~= Seq::<Seq<char>>::empty());
        } else {
            lemma_split_join(parts, sep);
            assert(Seq::<char>::empty() + parts[0] =~= parts[0]);
            assert(split_sep(r) =~= seq![Seq::<char>::empty()] + parts);
            lemma_collapse_skips_empty_head(parts);
            lemma_collapse_clean(parts);
        }
    } else {
        assert(render(rooted, parts, sep) =~= j);
        if parts.len() == 0 {
            lemma_split_of_sep_free(j);
            lemma_collapse_single_empty();
        } else {
            lemma_split_join(parts, sep);
            lemma_collapse_clean(parts);
        }
    }
}

proof fn lemma_join_head(parts: Seq<Seq<char>>, sep: char)
    requires
        parts.len() >= 1,
    ensures
        join_with(parts, sep).len() >= parts[0].len(),
        join_with(parts, sep).take(parts[0].len() as int) == parts[0],
        parts.len() >= 2 ==> join_with(parts, sep) == parts[0] + seq![sep] + join_with(parts.drop_first(), sep),
    decreases parts.len(),
{
    if parts.len() >= 2 {
        let init = parts.drop_last();
        lemma_join_head(init, sep);
        assert(init[0] == parts[0]);
        if parts.len() == 2 {
            assert(parts.drop_first() =~= seq![parts[1]]);
            assert(join_with(parts, sep) =~= parts[0] + seq![sep] + join_with(parts.drop_first(), sep));
        } else {
            assert(parts.drop_first().drop_last() =~= init.drop_first());
            assert(parts.drop_first().last() == parts.last());
            assert(join_with(parts, sep) =~= parts[0] + seq![sep] + join_with(parts.drop_first(), sep));
        }
        assert(join_with(parts, sep).take(parts[0].len() as int) =~= parts[0]);
    }
}

proof fn lemma_separator_after_free(x: Seq<char>, y: Seq<char>)
    requires
        sep_free(x),
    ensures
        separator_of(x + y) == separator_of(y),
    decreases x.len(),
{
    if x.len() > 0 {
        let t = x.drop_first();
        assert(sep_free(t)) by {
            assert forall|i: int| 0 <= i < t.len() implies !is_sep(#[trigger] t[i]) by {
                assert(t[i] == x[i + 1]);
            }
        }
        assert((x + y).drop_first() =~= t + y);
        assert((x + y)[0] == x[0]);
        lemma_separator_after_free(t, y);
    } else {
        assert(x + y =~= y);
    }
}

proof fn lemma_separator_of_render(rooted: bool, parts: Seq<Seq<char>>, sep: char)
    requires
        is_sep(sep),
        rooted || parts.len() >= 2,
        forall|k: int| 0 <= k < parts.len() ==> clean(#[trigger] parts[k]),
    ensures
        separator_of(render(rooted, parts, sep)) == sep,
{
    let r = render(rooted, parts, sep);
    if rooted {
        assert(r[0] == sep);
    } else {
        lemma_join_head(parts, sep);
        assert(clean(parts[0]));
        let rest = seq![sep] + join_with(parts.drop_first(), sep);
        assert(r =~= parts[0] + rest);
        lemma_separator_after_free(parts[0], rest);
        assert(rest[0] == sep);
    }
}

proof fn lemma_rooted_render(rooted: bool, parts: Seq<Seq<char>>, sep: char)
    requires
        is_sep(sep),
        forall|k: int| 0 <= k < parts.len() ==> clean(#[trigger] parts[k]),
    ensures
        is_rooted(render(rooted, parts, sep)) == rooted,
{
    let r = render(rooted, parts, sep);
    if rooted {
        assert(r[0] == sep);
    } else if parts.len() > 0 {
        lemma_join_head(parts, sep);
        assert(clean(parts[0]));
        assert(r[0] == parts[0][0]);
    } else {
        assert(r =~= Seq::<char>::empty());
    }
}

proof fn lemma_separator_is_sep(s: Seq<char>)
    ensures
        is_sep(separator_of(s)),
    decreases s.len(),
{
    if s.len() > 0 && !is_sep(s[0]) {
        lemma_separator_is_sep(s.drop_first());
    }
}

/// Normalizing keeps a path's root and components: a normalized path has the
/// same meaning as the original.
pub proof fn lemma_normalized_same_path(s: Seq<char>)
    ensures
        is_rooted(normalized(s)) == is_rooted(s),
        components(normalized(s)) == components(s),
{
    lemma_components_clean(s);
    lemma_separator_is_sep(s);
    lemma_rooted_render(is_rooted(s), components(s), separator_of(s));
    lemma_components_of_render(is_rooted(s), components(s), separator_of(s));
}

/// Normalization is idempotent: normalizing a normalized path changes nothing.
pub proof fn lemma_normalize_idempotent(s: Seq<char>)
    ensures
        normalized(normalized(s)) == normalized(s),
{
    let n = normalized(s);
    let r = is_rooted(s);
    let parts = components(s);
    let sep = separator_of(s);
    lemma_normalized_same_path(s);
    lemma_components_clean(s);
    lemma_separator_is_sep(s);
    if r || parts.len() >= 2 {
        lemma_separator_of_render(r, parts, sep);
    } else {
        if parts.len() == 0 {
            assert(join_with(parts, separator_of(n)) =~= join_with(parts, sep));
        }
        assert(render(r, parts, separator_of(n)) =~= render(r, parts, sep));
    }
}

/// Whether a path lies inside another depends only on their normalized forms.
pub proof fn lemma_within_normalized(base: Seq<char>, target: Seq<char>)
    ensures
        within(normalized(base), normalized(target)) == within(base, target),
{
    lemma_normalized_same_path(base);
    lemma_normalized_same_path(target);
}

/// Every path lies inside itself.
pub proof fn lemma_within_reflexive(p: Seq<char>)
    ensures
        within(p, p),
{
    assert(components(p).subrange(0, components(p).len() as int) =~= components(p));
}

/// Lying inside is transitive.
pub proof fn lemma_within_transitive(a: Seq<char>, b: Seq<char>, c: Seq<char>)
    requires
        within(a, b),
        within(b, c),
    ensures
        within(a, c),
{
    let ca = components(a);
    let cb = components(b);
    let cc = components(c);
    assert forall|i: int| 0 <= i < ca.len() implies #[trigger] cc[i] == ca[i] by {
        assert(cc.subrange(0, cb.len() as int)[i] == cb[i]);
        assert(cb.subrange(0, ca.len() as int)[i] == ca[i]);
    }
    assert(cc.subrange(0, ca.len() as int) =~= ca);
}

/// Joining a plain name (no separator, not `.` or `..`) to a path gives a
/// path with the same root and that name as one more component; so it lies
/// inside the path it was joined to.
pub proof fn lemma_within_child(base: Seq<char>, name: Seq<char>)
    requires
        clean(name),
    ensures
        is_rooted(joined(base, name)) == is_rooted(base),
        components(joined(base, name)) == components(base).push(name),
        within(base, joined(base, name)),
{
    let j = joined(base, name);
    lemma_split_of_sep_free(name);
    lemma_collapse_single_empty();
    assert(!is_sep(name[0]));
    assert(collapse(Seq::<Seq<char>>::empty()) == Seq::<Seq<char>>::empty());
    assert(seq![name].drop_last() =~= Seq::<Seq<char>>::empty());
    assert(collapse(seq![name]) == apply_piece(Seq::<Seq<char>>::empty(), name));
    assert(Seq::<Seq<char>>::empty().push(name) =~= seq![name]);
    if base.len() == 0 {
        assert(j == name);
        assert(split_sep(base) == seq![Seq::<char>::empty()]);
        assert(components(base) == Seq::<Seq<char>>::empty());
    } else if is_sep(base.last()) {
        assert(j == base + name);
        lemma_split_nonempty(base.drop_last());
        lemma_split_concat(base, name);
        let sb = split_sep(base);
        assert(sb == split_sep(base.drop_last()).push(Seq::<char>::empty()));
        assert(sb.last() + name =~= name);
        assert(seq![name].drop_first() =~= Seq::<Seq<char>>::empty());
        assert(split_sep(j) =~= sb.drop_last().push(name));
        assert(sb.drop_last().push(name).drop_last() =~= sb.drop_last());
        assert(collapse(sb) == apply_piece(collapse(sb.drop_last()), sb.last()));
        assert(j[0] == base[0]);
    } else {
        let a = base.push('/');
        assert(j == a + name);
        assert(a.drop_last() =~= base);
        assert(split_sep(a) == split_sep(base).push(Seq::<char>::empty()));
        lemma_split_concat(a, name);
        assert(split_sep(a).drop_last() =~= split_sep(base));
        assert(split_sep(a).last() + name =~= name);
        assert(seq![name].drop_first() =~= Seq::<Seq<char>>::empty());
        assert(split_sep(j) =~= split_sep(base).push(name));
        assert(split_sep(base).push(name).drop_last() =~= split_sep(base));
        assert(j[0] == base[0]);
    }
    let b = components(base);
    assert(components(j).subrange(0, b.len() as int) =~= b);
}

/// A run context keeps its paths nested: the repository directory lies
/// inside the start directory, and the Docker client configuration inside
/// the repository directory (so inside the start directory too).
pub proof fn lemma_context_paths_nested(cli: Cli, base: Seq<char>)
    requires
        context_result(cli, base) is Ok,
    ensures
        within(base, context_result(cli, base)->Ok_0),
        within(context_result(cli, base)->Ok_0, joined(context_result(cli, base)->Ok_0, ".docker"@)),
        within(base, joined(context_result(cli, base)->Ok_0, ".docker"@)),
{
    let ws = context_result(cli, base)->Ok_0;
    let name = ".docker"@;
    reveal_strlit(".docker");
    assert(sep_free(name));
    assert(name.len() == 7);
    assert(seq!['.'].len() == 1 && seq!['.', '.'].len() == 2);
    assert(name != seq!['.']);
    assert(name != seq!['.', '.']);
    lemma_within_child(ws, name);
    lemma_within_transitive(base, ws, joined(ws, name));
}

/// Each repository gets its own directory: the repository directory is the
/// workspace root (`--workspace-dir` under the start directory) with one
/// more component, the repository's key.
pub proof fn lemma_repository_directory(cli: Cli, base: Seq<char>)
    requires
        context_result(cli, base) is Ok,
    ensures
        cli.git_url is Some,
        repo_key_of(cli.git_url->0@) is Some,
        is_rooted(context_result(cli, base)->Ok_0) == is_rooted(joined(base, cli.workspace_dir@)),
        components(context_result(cli, base)->Ok_0)
            == components(joined(base, cli.workspace_dir@)).push(repo_key_of(cli.git_url->0@)->0),
{
    let url = cli.git_url->0@;
    let root = joined(base, cli.workspace_dir@);
    let k = repo_key_of(url)->0;
    let (_, h, _, p) = url_parse(url)->0;
    lemma_repo_key_clean(h->0, p);
    lemma_within_child(root, k);
    lemma_normalized_same_path(joined(root, k));
}

// ---------------------------------------------------------------------------
// Run context
// ---------------------------------------------------------------------------

/// The run context: the command line once checked, with every path the run
/// uses derived from the directory the run started in.
#[derive(Debug, Clone)]
pub struct RunContext {
    pub cli: Cli,
    /// The directory the run started in.
    pub base_dir: String,
    /// The repository's own directory: `--workspace-dir` under the start
    /// directory, then the repository key (see [`repo_key`]).
    pub workspace_dir: String,
    /// The isolated Docker client configuration, inside the repository directory.
    pub docker_config_dir: String,
}

/// The Java build tool finally chosen.
#[derive(Debug, Clone, Copy, PartialEq, Eq, Structural)]
pub enum EffectiveBuildTool {
    Maven,
    Gradle,
}

/// What detection found out about the project; the build stages consume it.
#[derive(Debug, Clone)]
pub struct ProjectSpec {
    pub project_type: crate::cli::ProjectType,
    pub java_layout: Option<crate::cli::JavaLayout>,
    pub module_name: Option<String>,
    pub build_tool: Option<EffectiveBuildTool>,
    pub build_tool_command: Option<String>,
    pub project_root: String,
    pub dockerfile_path: String,
    pub build_context_dir: String,
    pub artifact_search_dir: Option<String>,
}

/// Image coordinates, reported once the image has been built and pushed.
#[derive(Debug, Clone)]
pub struct ImageMetadata {
    pub image: String,
    pub tag: String,
    pub full_name: String,
    pub branch: String,
    pub short_sha: String,
}

pub struct ProjectSpecView {
    pub project_type: crate::cli::ProjectType,
    pub java_layout: Option<crate::cli::JavaLayout>,
    pub module_name: Option<Seq<char>>,
    pub build_tool: Option<EffectiveBuildTool>,
    pub build_tool_command: Option<Seq<char>>,
    pub project_root: Seq<char>,
    pub dockerfile_path: Seq<char>,
    pub build_context_dir: Seq<char>,
    pub artifact_search_dir: Option<Seq<char>>,
}

impl View for ProjectSpec {
    type V = ProjectSpecView;

    open spec fn view(&self) -> ProjectSpecView {
        ProjectSpecView {
            project_type: self.project_type,
            java_layout: self.java_layout,
            module_name: self.module_name.deep_view(),
            build_tool: self.build_tool,
            build_tool_command: self.build_tool_command.deep_view(),
            project_root: self.project_root@,
            dockerfile_path: self.dockerfile_path@,
            build_context_dir: self.build_context_dir@,
            artifact_search_dir: self.artifact_search_dir.deep_view(),
        }
    }
}

pub struct ImageMetadataView {
    pub image: Seq<char>,
    pub tag: Seq<char>,
    pub full_name: Seq<char>,
    pub branch: Seq<char>,
    pub short_sha: Seq<char>,
}

impl View for ImageMetadata {
    type V = ImageMetadataView;

    open spec fn view(&self) -> ImageMetadataView {
        ImageMetadataView {
            image: self.image@,
            tag: self.tag@,
            full_name: self.full_name@,
            branch: self.branch@,
            short_sha: self.short_sha@,
        }
    }
}

/// The refusal of one `--build-arg` value that lacks `=`.
pub open spec fn build_arg_error(item: Seq<char>) -> ErrorView {
    ErrorView::InvalidArgument { message: "--build-arg `"@ + item + "` 缺少 `=`，应为 KEY=VALUE"@ }
}

/// Every `--build-arg` must have the `KEY=VALUE` shape; the first one that
/// lacks `=` is reported.
pub open spec fn build_args_check(items: Seq<Seq<char>>) -> Result<(), ErrorView>
    decreases items.len(),
{
    if items.len() == 0 {
        Ok(())
    } else {
        match build_args_check(items.drop_last()) {
            Err(e) => Err(e),
            Ok(_) => if items.last().contains('=') { Ok(()) } else { Err(build_arg_error(items.last())) },
        }
    }
}

proof fn lemma_first_bad_arg(items: Seq<Seq<char>>, i: int)
    requires
        0 <= i < items.len(),
        build_args_check(items.take(i)) == Ok::<(), ErrorView>(()),
        !items[i].contains('='),
    ensures
        build_args_check(items) == Err::<(), ErrorView>(build_arg_error(items[i])),
    decreases items.len() - i,
{
    if i + 1 == items.len() {
        assert(items.drop_last() =~= items.take(i));
    } else {
        let shorter = items.drop_last();
        assert(shorter.take(i) =~= items.take(i));
        lemma_first_bad_arg(shorter, i);
        assert(shorter[i] == items[i]);
    }
}

fn has_equal_sign(item: &str) -> (b: bool)
    ensures
        b == item@.contains('='),
{
    let v = chars_of(item);
    let mut i: usize = 0;
    while i < v.len()
        invariant
            v@ == item@,
            i <= v.len(),
            forall|j: int| 0 <= j < i ==> v@[j] != '=',
        decreases v.len() - i,
    {
        if v[i] == '=' {
            assert(item@[i as int] == '=');
            return true;
        }
        i = i + 1;
    }
    false
}

/// Checks that every `--build-arg` has the `KEY=VALUE` shape.
pub fn validate_build_args(build_args: &[String]) -> (r: Result<(), DeployError>)
    ensures
        unit_outcome(r) == build_args_check(build_args@.map_values(|s: String| s@)),
{
    let ghost items = build_args@.map_values(|s: String| s@);
    let mut i: usize = 0;
    assert(items.take(0) =~= Seq::<Seq<char>>::empty());
    while i < build_args.len()
        invariant
            items == build_args@.map_values(|s: String| s@),
            i <= build_args.len(),
            build_args_check(items.take(i as int)) == Ok::<(), ErrorView>(()),
        decreases build_args.len() - i,
    {
        let item = &build_args[i];
        proof {
            assert(items[i as int] == item@);
            assert(items.take(i + 1).drop_last() =~= items.take(i as int));
        }
        if !has_equal_sign(item.as_str()) {
            proof { lemma_first_bad_arg(items, i as int); }
            let message = concat3("--build-arg `", item.as_str(), "` 缺少 `=`，应为 KEY=VALUE");
            return Err(DeployError::InvalidArgument { message });
        }
        i = i + 1;
    }
    assert(items.take(build_args.len() as int) =~= items);
    Ok(())
}

// ---------------------------------------------------------------------------
// The repository directory
// ---------------------------------------------------------------------------

pub open spec fn ascii_alnum(c: char) -> bool {
    ('a' <= c && c <= 'z') || ('A' <= c && c <= 'Z') || ('0' <= c && c <= '9')
}

/// A character that may stand in a repository key.
pub open spec fn key_char_ok(c: char) -> bool {
    ascii_alnum(c) || c == '_'
}

/// ASCII letters and digits stay; every other character becomes `_`.
pub open spec fn key_chars(s: Seq<char>) -> Seq<char> {
    Seq::new(s.len(), |i: int| if ascii_alnum(s[i]) { s[i] } else { '_' })
}

/// Runs of `_` become one `_`, and a leading `_` is dropped.
pub open spec fn squeeze_underscores(s: Seq<char>) -> Seq<char>
    decreases s.len(),
{
    if s.len() == 0 {
        Seq::empty()
    } else {
        let p = squeeze_underscores(s.drop_last());
        if s.last() == '_' && (p.len() == 0 || p.last() == '_') { p } else { p.push(s.last()) }
    }
}

/// A path without its `.git` suffix.
pub open spec fn without_git_suffix(p: Seq<char>) -> Seq<char> {
    if p.len() >= 4 && p.subrange(p.len() - 4, p.len() as int) == ".git"@ {
        p.subrange(0, p.len() - 4)
    } else {
        p
    }
}

/// The name of a repository's own directory, from its host and path:
/// `git.example.com` and `/team/app.git` give `git_example_com_team_app`.
/// Characters other than ASCII letters and digits become `_`, runs of `_`
/// shrink to one, and no `_` is left at either end.
pub open spec fn repo_key(host: Seq<char>, path: Seq<char>) -> Seq<char> {
    let t = squeeze_underscores(key_chars(host + without_git_suffix(trim_slashes(path))));
    if t.len() > 0 && t.last() == '_' { t.drop_last() } else { t }
}

/// The key of a repository address: none when the address does not parse,
/// has no host, or leaves an empty key.
pub open spec fn repo_key_of(url: Seq<char>) -> Option<Seq<char>> {
    match url_parse(url) {
        Some((_, Some(host), _, path)) => if repo_key(host, path).len() > 0 {
            Some(repo_key(host, path))
        } else {
            None
        },
        _ => None,
    }
}

proof fn lemma_squeeze_chars(s: Seq<char>)
    requires
        forall|i: int| 0 <= i < s.len() ==> key_char_ok(#[trigger] s[i]),
    ensures
        forall|i: int| 0 <= i < squeeze_underscores(s).len() ==> key_char_ok(#[trigger] squeeze_underscores(s)[i]),
    decreases s.len(),
{
    if s.len() > 0 {
        let init = s.drop_last();
        assert forall|i: int| 0 <= i < init.len() implies key_char_ok(#[trigger] init[i]) by {
            assert(init[i] == s[i]);
        }
        lemma_squeeze_chars(init);
        assert(key_char_ok(s[s.len() - 1]));
        let q = squeeze_underscores(init);
        let r = squeeze_underscores(s);
        assert forall|i: int| 0 <= i < r.len() implies key_char_ok(#[trigger] r[i]) by {
            if i < q.len() {
                assert(r[i] == q[i]);
            }
        }
    }
}

/// A repository key is a plain name: it holds only ASCII letters, digits and
/// `_`, so it is one clean path component whenever it is not empty.
pub proof fn lemma_repo_key_clean(host: Seq<char>, path: Seq<char>)
    ensures
        forall|i: int| 0 <= i < repo_key(host, path).len() ==> key_char_ok(#[trigger] repo_key(host, path)[i]),
        repo_key(host, path).len() > 0 ==> clean(repo_key(host, path)),
{
    let m = key_chars(host + without_git_suffix(trim_slashes(path)));
    assert forall|i: int| 0 <= i < m.len() implies key_char_ok(#[trigger] m[i]) by {}
    lemma_squeeze_chars(m);
    let t = squeeze_underscores(m);
    let k = repo_key(host, path);
    assert forall|i: int| 0 <= i < k.len() implies key_char_ok(#[trigger] k[i]) by {
        assert(k[i] == t[i]);
    }
    if k.len() > 0 {
        assert(sep_free(k)) by {
            assert forall|i: int| 0 <= i < k.len() implies !is_sep(#[trigger] k[i]) by {
                assert(key_char_ok(k[i]));
            }
        }
        assert(key_char_ok(k[0]));
        assert(k != seq!['.']) by {
            if k.len() == 1 {
                assert(k[0] != seq!['.'][0]);
            }
        }
        assert(k != seq!['.', '.']) by {
            if k.len() == 2 {
                assert(k[0] != seq!['.', '.'][0]);
            }
        }
    }
}

fn alnum(c: char) -> (b: bool)
    ensures
        b == ascii_alnum(c),
{
    ('a' <= c && c <= 'z') || ('A' <= c && c <= 'Z') || ('0' <= c && c <= '9')
}

/// The directory name of a repository, from the host and path of its address.
pub fn repository_key(host: &str, path: &str) -> (k: String)
    ensures
        k@ == repo_key(host@, path@),
{
    let mut p = trimmed_slashes(path);
    let ghost tp = trim_slashes(path@);
    proof { reveal_strlit(".git"); }
    let n = p.len();
    if n >= 4 && p[n - 4] == '.' && p[n - 3] == 'g' && p[n - 2] == 'i' && p[n - 1] == 't' {
        assert(tp.subrange(n - 4, n as int) =~= ".git"@);
        p.truncate(n - 4);
        assert(p@ =~= without_git_suffix(tp));
    } else {
        proof {
            if n >= 4 {
                let tail = tp.subrange(n - 4, n as int);
                assert(tail[0] == tp[n - 4] && tail[1] == tp[n - 3] && tail[2] == tp[n - 2] && tail[3] == tp[n - 1]);
                assert(tail != ".git"@ || (tail[0] == '.' && tail[1] == 'g' && tail[2] == 'i' && tail[3] == 't'));
            }
        }
        assert(p@ =~= without_git_suffix(tp));
    }
    let mut all = chars_of(host);
    let ghost raw = host@ + without_git_suffix(tp);
    let mut j: usize = 0;
    while j < p.len()
        invariant
            j <= p.len(),
            all@ == host@ + p@.take(j as int),
        decreases p.len() - j,
    {
        all.push(p[j]);
        j = j + 1;
        assert(all@ =~= host@ + p@.take(j as int));
    }
    assert(p@.take(p.len() as int) =~= p@);
    assert(all@ == raw);
    let ghost m = key_chars(raw);
    let mut out: Vec<char> = Vec::new();
    let mut i: usize = 0;
    let total = all.len();
    assert(m.take(0) =~= Seq::<char>::empty());
    while i < total
        invariant
            all@ == raw,
            m == key_chars(raw),
            total == raw.len(),
            i <= total,
            out@ == squeeze_underscores(m.take(i as int)),
        decreases total - i,
    {
        let c = all[i];
        let d = if alnum(c) { c } else { '_' };
        assert(d == m[i as int]);
        assert(m.take(i + 1).drop_last() =~= m.take(i as int));
        if d == '_' && (out.len() == 0 || out[out.len() - 1] == '_') {
        } else {
            out.push(d);
        }
        i = i + 1;
    }
    assert(m.take(total as int) =~= m);
    if out.len() > 0 && out[out.len() - 1] == '_' {
        let ghost before = out@;
        out.pop();
        assert(out@ =~= before.drop_last());
    }
    string_of(out.as_slice())
}

/// The key of a repository address, when it has one.
pub fn repository_key_of(url: &str) -> (k: Option<String>)
    ensures
        k.deep_view() == repo_key_of(url@),
{
    match parse_url(url) {
        Some(parts) => match &parts.host {
            Some(host) => {
                let k = repository_key(host.as_str(), parts.path.as_str());
                if k.as_str().unicode_len() > 0 { Some(k) } else { None }
            },
            None => None,
        },
        None => None,
    }
}

/// The repository directory of a run started in `base` with
/// `--workspace-dir ws`, for the repository whose key is `key`.
pub open spec fn workspace_of(base: Seq<char>, ws: Seq<char>, key: Seq<char>) -> Seq<char> {
    normalized(joined(joined(base, ws), key))
}

/// What building a run context gives: the build arguments are checked
/// first; then `--git-url` must be given and yield a repository key; the
/// repository directory must stay inside the start directory.
pub open spec fn context_result(cli: Cli, base: Seq<char>) -> Result<Seq<char>, ErrorView> {
    match build_args_check(cli.build_args@.map_values(|s: String| s@)) {
        Err(e) => Err(e),
        Ok(_) => match cli.git_url {
            None => Err(ErrorView::MissingGitUrl),
            Some(u) => match repo_key_of(u@) {
                None => Err(ErrorView::UnsupportedGitUrl { url: u@ }),
                Some(k) => match within_check(base, workspace_of(base, cli.workspace_dir@, k)) {
                    Err(e) => Err(e),
                    Ok(_) => Ok(workspace_of(base, cli.workspace_dir@, k)),
                },
            },
        },
    }
}

/// The environment of the Java build for a JDK home and the current search
/// path.
pub open spec fn java_env_of(
    java_home: Option<Seq<char>>,
    current_path: Option<Seq<char>>,
    list_separator: char,
) -> Seq<(Seq<char>, Seq<char>)> {
    match java_home {
        None => Seq::empty(),
        Some(h) => {
            let bin = joined(h, "bin"@);
            let path = match current_path {
                Some(p) => if p.len() == 0 { bin } else { bin.push(list_separator) + p },
                None => bin,
            };
            seq![("JAVA_HOME"@, h), ("PATH"@, path)]
        },
    }
}

impl RunContext {
    /// Builds the run context of `cli` for a run started in `base_dir`,
    /// keeping every path inside `base_dir`.
    pub fn from_cli(cli: Cli, base_dir: String) -> (r: Result<RunContext, DeployError>)
        ensures
            match r {
                Ok(ctx) => {
                    &&& context_result(cli, base_dir@) == Ok::<Seq<char>, ErrorView>(ctx.workspace_dir@)
                    &&& ctx.cli == cli
                    &&& ctx.base_dir@ == base_dir@
                    &&& ctx.docker_config_dir@ == joined(ctx.workspace_dir@, ".docker"@)
                },
                Err(e) => context_result(cli, base_dir@) == Err::<Seq<char>, ErrorView>(e@),
            },
    {
        validate_build_args(cli.build_args.as_slice())?;
        let key = match &cli.git_url {
            None => return Err(DeployError::MissingGitUrl),
            Some(url) => match repository_key_of(url.as_str()) {
                None => return Err(DeployError::UnsupportedGitUrl { url: url.clone() }),
                Some(k) => k,
            },
        };
        let root = join_path(base_dir.as_str(), cli.workspace_dir.as_str());
        let joined_dir = join_path(root.as_str(), key.as_str());
        let workspace_dir = normalize_path(joined_dir.as_str());
        ensure_within(base_dir.as_str(), workspace_dir.as_str())?;
        let docker_config_dir = join_path(workspace_dir.as_str(), ".docker");
        Ok(RunContext { cli, base_dir, workspace_dir, docker_config_dir })
    }

    /// The path whose being a directory decides the `auto` acquire mode.
    pub fn git_dir(&self) -> (p: String)
        ensures
            p@ == joined(self.workspace_dir@, ".git"@),
    {
        join_path(self.workspace_dir.as_str(), ".git")
    }

    /// The acquire mode of the run: `auto` becomes `pull` when the work
    /// directory already holds a `.git` directory and `clone` otherwise.
    pub fn effective_mode(&self, git_dir_exists: bool) -> (m: AcquireMode)
        ensures
            m == (match self.cli.mode {
                AcquireMode::Auto => if git_dir_exists { AcquireMode::Pull } else { AcquireMode::Clone },
                other => other,
            }),
    {
        match self.cli.mode {
            AcquireMode::Auto => if git_dir_exists { AcquireMode::Pull } else { AcquireMode::Clone },
            mode => mode,
        }
    }

    /// The environment handed to the Java build: nothing without
    /// `--java-home`; with it, `JAVA_HOME` names the JDK and `PATH` searches
    /// its `bin` directory before the current search path (joined with
    /// `list_separator`, the platform's separator of search-path entries).
    pub fn java_envs(&self, current_path: Option<&str>, list_separator: char) -> (v: Vec<(String, String)>)
        ensures
            env_views(v@) == java_env_of(
                self.cli.java_home.deep_view(),
                match current_path { Some(p) => Some(p@), None => None },
                list_separator,
            ),
    {
        match &self.cli.java_home {
            None => {
                let v: Vec<(String, String)> = Vec::new();
                assert(env_views(v@) =~= Seq::<(Seq<char>, Seq<char>)>::empty());
                v
            },
            Some(home) => {
                let bin = join_path(home.as_str(), "bin");
                let path = match current_path {
                    Some(p) => {
                        if p.unicode_len() == 0 {
                            bin.clone()
                        } else {
                            let sep = string_of(vec![list_separator].as_slice());
                            proof { assert(sep@ =~= seq![list_separator]); assert(bin@ + sep@ =~= bin@.push(list_separator)); }
                            concat3(bin.as_str(), sep.as_str(), p)
                        }
                    },
                    None => bin.clone(),
                };
                let v = vec![(String::from_str("JAVA_HOME"), home.clone()), (String::from_str("PATH"), path)];
                assert(env_views(v@) =~= seq![("JAVA_HOME"@, home@), ("PATH"@, path@)]);
                v
            },
        }
    }

    /// The repository root of the deployment: always the work directory.
    pub fn repo_dir(&self) -> (p: &str)
        ensures
            p@ == self.workspace_dir@,
    {
        self.workspace_dir.as_str()
    }
}

/// The build arguments pass exactly when every one of them holds `=`; when
/// they do not, the first one without `=` is named.
pub proof fn lemma_build_args_need_equals(items: Seq<Seq<char>>)
    ensures
        build_args_check(items) is Ok <==> forall|i: int| 0 <= i < items.len() ==> (#[trigger] items[i]).contains('='),
        build_args_check(items) is Err ==> exists|i: int| 0 <= i < items.len() && !(#[trigger] items[i]).contains('=')
            && (forall|j: int| 0 <= j < i ==> (#[trigger] items[j]).contains('='))
            && build_args_check(items) == Err::<(), ErrorView>(build_arg_error(items[i])),
    decreases items.len(),
{
    if items.len() > 0 {
        let init = items.drop_last();
        lemma_build_args_need_equals(init);
        assert forall|i: int| 0 <= i < init.len() implies #[trigger] init[i] == items[i] by {}
        let n = items.len() - 1;
        assert(items[n] == items.last());
        if build_args_check(init) is Ok {
            if items.last().contains('=') {
                assert forall|i: int| 0 <= i < items.len() implies (#[trigger] items[i]).contains('=') by {
                    if i < n {
                        assert(init[i].contains('='));
                    }
                }
            }
            if !items.last().contains('=') {
                assert(!items[n].contains('='));
                assert(forall|j: int| 0 <= j < n ==> (#[trigger] items[j]).contains('=')) by {
                    assert forall|j: int| 0 <= j < n implies (#[trigger] items[j]).contains('=') by {
                        assert(init[j] == items[j]);
                    }
                }
            }
        } else {
            let i = choose|i: int| 0 <= i < init.len() && !(#[trigger] init[i]).contains('=')
                && (forall|j: int| 0 <= j < i ==> (#[trigger] init[j]).contains('='))
                && build_args_check(init) == Err::<(), ErrorView>(build_arg_error(init[i]));
            assert(items[i] == init[i]);
            assert(!items[i].contains('='));
            assert forall|j: int| 0 <= j < i implies (#[trigger] items[j]).contains('=') by {
                assert(init[j] == items[j]);
            }
        }
    }
}

} // verus!
