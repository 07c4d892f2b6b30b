//! Image versioning for a deployment run.
use vstd::prelude::*;
use crate::context::{ImageMetadata, ImageMetadataView};
use crate::error::{DeployError, ErrorView};
use crate::text::{blank, chars_of, concat3, concat5, is_blank, string_of};

verus! {

/// Characters kept in a tag: ASCII letters and digits, `.`, `_` and `-`.
pub open spec fn tag_char(c: char) -> bool {
    ('a' <= c && c <= 'z') || ('A' <= c && c <= 'Z') || ('0' <= c && c <= '9') || c == '.' || c == '_' || c == '-'
}

/// Every character outside the tag alphabet becomes `-`.
pub open spec fn replace_disallowed(s: Seq<char>) -> Seq<char> {
    Seq::new(s.len(), |i: int| if tag_char(s[i]) { s[i] } else { '-' })
}

/// `s` without leading and trailing `-`.
pub open spec fn trim_dashes(s: Seq<char>) -> Seq<char>
    decreases s.len(),
{
    if s.len() > 0 && s[0] == '-' {
        trim_dashes(s.drop_first())
    } else if s.len() > 0 && s.last() == '-' {
        trim_dashes(s.drop_last())
    } else {
        s
    }
}

/// A branch name made fit for an image tag.
pub open spec fn sanitized(s: Seq<char>) -> Seq<char> {
    trim_dashes(replace_disallowed(s))
}

fn is_tag_char(c: char) -> (b: bool)
    ensures
        b == tag_char(c),
{
    ('a' <= c && c <= 'z') || ('A' <= c && c <= 'Z') || ('0' <= c && c <= '9') || c == '.' || c == '_' || c == '-'
}

proof fn lemma_trim_dashes_window(s: Seq<char>, lo: int, hi: int)
    requires
        0 <= lo <= hi <= s.len(),
        forall|k: int| 0 <= k < lo ==> s[k] == '-',
        forall|k: int| hi <= k < s.len() ==> s[k] == '-',
        lo < hi ==> s[lo] != '-' && s[hi - 1] != '-',
    ensures
        trim_dashes(s) == s.subrange(lo, hi),
    decreases s.len(),
{
    if s.len() > 0 && s[0] == '-' {
        let t = s.drop_first();
        if lo == 0 {
            assert(hi == 0);
            assert forall|k: int| 0 <= k < t.len() implies t[k] == '-' by { assert(t[k] == s[k + 1]); }
            lemma_trim_dashes_window(t, 0, 0);
            assert(s.subrange(lo, hi) =~= t.subrange(0, 0));
        } else {
            assert forall|k: int| 0 <= k < lo - 1 implies t[k] == '-' by { assert(t[k] == s[k + 1]); }
            assert forall|k: int| hi - 1 <= k < t.len() implies t[k] == '-' by { assert(t[k] == s[k + 1]); }
            lemma_trim_dashes_window(t, lo - 1, hi - 1);
            assert(s.subrange(lo, hi) =~= t.subrange(lo - 1, hi - 1));
        }
    } else if s.len() > 0 && s.last() == '-' {
        let t = s.drop_last();
        if hi == s.len() {
            assert(lo < hi ==> s[hi - 1] != '-');
            assert(lo == hi);
            assert(false);
        }
        lemma_trim_dashes_window(t, lo, hi);
        assert(s.subrange(lo, hi) =~= t.subrange(lo, hi));
    } else {
        if s.len() > 0 {
            assert(lo == 0 && hi == s.len());
        } else {
            assert(lo == 0 && hi == 0);
        }
        assert(s.subrange(lo, hi) =~= s);
    }
}

proof fn lemma_trim_dashes_shape(t: Seq<char>) -> (w: (int, int))
    ensures
        0 <= w.0 <= w.1 <= t.len(),
        trim_dashes(t) == t.subrange(w.0, w.1),
        trim_dashes(t).len() > 0 ==> trim_dashes(t)[0] != '-' && trim_dashes(t).last() != '-',
    decreases t.len(),
{
    if t.len() > 0 && t[0] == '-' {
        let u = t.drop_first();
        let (a, b) = lemma_trim_dashes_shape(u);
        assert(u.subrange(a, b) =~= t.subrange(a + 1, b + 1));
        (a + 1, b + 1)
    } else if t.len() > 0 && t.last() == '-' {
        let u = t.drop_last();
        let (a, b) = lemma_trim_dashes_shape(u);
        assert(u.subrange(a, b) =~= t.subrange(a, b));
        (a, b)
    } else {
        assert(t.subrange(0, t.len() as int) =~= t);
        (0, t.len() as int)
    }
}

/// A sanitized branch name is fit for a tag: it holds only `[A-Za-z0-9._-]`,
/// neither starts nor ends with `-`, and sanitizing it again changes nothing.
pub proof fn lemma_sanitized_fits_tag(s: Seq<char>)
    ensures
        forall|i: int| 0 <= i < sanitized(s).len() ==> tag_char(#[trigger] sanitized(s)[i]),
        sanitized(s).len() > 0 ==> sanitized(s)[0] != '-' && sanitized(s).last() != '-',
        sanitized(sanitized(s)) == sanitized(s),
{
    let r = replace_disallowed(s);
    let (a, b) = lemma_trim_dashes_shape(r);
    let x = sanitized(s);
    assert forall|i: int| 0 <= i < x.len() implies tag_char(#[trigger] x[i]) by {
        assert(x[i] == r[a + i]);
    }
    assert(replace_disallowed(x) =~= x);
    if x.len() > 0 {
        assert(trim_dashes(x) == x);
    } else {
        assert(trim_dashes(x) == x);
    }
}

/// Makes a branch name usable in an image tag: characters outside
/// `[A-Za-z0-9._-]` become `-`, then leading and trailing `-` are removed.
pub fn sanitize_tag_part(input: &str) -> (s: String)
    ensures
        s@ == sanitized(input@),
{
    let v = chars_of(input);
    let ghost r = replace_disallowed(input@);
    let mut mapped: Vec<char> = Vec::new();
    let mut i: usize = 0;
    while i < v.len()
        invariant
            v@ == input@,
            r == replace_disallowed(input@),
            i <= v.len(),
            mapped@ == r.take(i as int),
        decreases v.len() - i,
    {
        if is_tag_char(v[i]) {
            mapped.push(v[i]);
        } else {
            mapped.push('-');
        }
        i = i + 1;
        assert(mapped@ =~= r.take(i as int));
    }
    assert(r.take(v.len() as int) =~= r);
    let mut lo: usize = 0;
    while lo < mapped.len() && mapped[lo] == '-'
        invariant
            mapped@ == r,
            lo <= mapped.len(),
            forall|k: int| 0 <= k < lo ==> r[k] == '-',
        decreases mapped.len() - lo,
    {
        lo = lo + 1;
    }
    let mut hi: usize = mapped.len();
    while hi > lo && mapped[hi - 1] == '-'
        invariant
            mapped@ == r,
            lo <= hi <= mapped.len(),
            forall|k: int| hi <= k < r.len() ==> r[k] == '-',
        decreases hi,
    {
        hi = hi - 1;
    }
    proof {
        if lo == mapped.len() {
            assert(hi == lo);
        }
        lemma_trim_dashes_window(r, lo as int, hi as int);
    }
    let mut out: Vec<char> = Vec::new();
    let mut k: usize = lo;
    while k < hi
        invariant
            mapped@ == r,
            lo <= k <= hi <= mapped.len(),
            out@ == r.subrange(lo as int, k as int),
        decreases hi - k,
    {
        out.push(mapped[k]);
        k = k + 1;
        assert(out@ =~= r.subrange(lo as int, k as int));
    }
    string_of(out.as_slice())
}

/// The tag of a run: the one given, else `<branch>-<short sha>-<timestamp>`
/// with the branch made fit for a tag.
pub open spec fn tag_of(tag: Option<Seq<char>>, branch: Seq<char>, short_sha: Seq<char>, timestamp: Seq<char>) -> Seq<char> {
    match tag {
        Some(t) => t,
        None => sanitized(branch) + "-"@ + short_sha + "-"@ + timestamp,
    }
}

/// The image coordinates of a run; a blank tag is refused.
pub open spec fn image_check(
    image: Seq<char>,
    tag: Option<Seq<char>>,
    branch: Seq<char>,
    short_sha: Seq<char>,
    timestamp: Seq<char>,
) -> Result<ImageMetadataView, ErrorView> {
    let t = tag_of(tag, branch, short_sha, timestamp);
    if blank(t) {
        Err(ErrorView::Context { message: "镜像 tag 不能为空"@ })
    } else {
        Ok(ImageMetadataView { image, tag: t, full_name: image + ":"@ + t, branch, short_sha })
    }
}

/// Builds the image coordinates of a run from the command line's image,
/// tag and branch, the commit's short hash and the local time formatted as
/// `%Y%m%d%H%M%S`.
pub fn build_image_metadata(
    cli: &crate::cli::Cli,
    short_sha: &str,
    timestamp: &str,
) -> (r: Result<ImageMetadata, DeployError>)
    ensures
        crate::error::outcome(r) == image_check(cli.image@, cli.tag.deep_view(), cli.branch@, short_sha@, timestamp@),
{
    let tag = match &cli.tag {
        Some(t) => t.clone(),
        None => {
            let branch = sanitize_tag_part(cli.branch.as_str());
            concat5(branch.as_str(), "-", short_sha, "-", timestamp)
        },
    };
    if is_blank(tag.as_str()) {
        return Err(DeployError::Context { message: String::from_str("镜像 tag 不能为空") });
    }
    let full_name = concat3(cli.image.as_str(), ":", tag.as_str());
    Ok(ImageMetadata {
        image: cli.image.clone(),
        tag,
        full_name,
        branch: cli.branch.clone(),
        short_sha: String::from_str(short_sha),
    })
}

} // verus!
