//! Case conversions between component names and method names.

use vstd::prelude::*;
use vstd::string::*;

use crate::ast::tag::is_ascii_upper;
use crate::parse::{extends, lemma_reports_push, report, reports, Diagnostic, Report};
use crate::span::Span;
use crate::text::{chars_of, string_from_chars};
use crate::token::{colon2, push_colon2, stream_view, Delimiter, Spacing, Tok, TokenTree};

verus! {

/// What a modifier outside `on:` reports.
pub open spec fn modifier_reports(m: Option<TokenTree>) -> Seq<Report> {
    match m {
        Some(t) => seq![report(t.spec_span(), "unknown modifier: modifiers are only supported on `on:` directives"@)],
        None => Seq::empty(),
    }
}

/// Reports a modifier, if there is one: modifiers are only supported on `on:`.
pub fn emit_error_if_modifier(m: Option<&TokenTree>, diags: &mut Vec<Diagnostic>)
    ensures
        reports(final(diags)@) == reports(old(diags)@) + modifier_reports(match m {
            Some(t) => Some(*t),
            None => None,
        }),
        m is None ==> final(diags)@ == old(diags)@,
        m matches Some(t) ==> final(diags)@.len() == old(diags)@.len() + 1 && extends(old(diags)@, final(diags)@)
            && final(diags)@.last().span == t.spec_span()
            && final(diags)@.last().message@ == "unknown modifier: modifiers are only supported on `on:` directives"@,
{
    proof {
        broadcast use lemma_reports_push;
        assert(reports(diags@) + Seq::<Report>::empty() =~= reports(diags@));
    }
    if let Some(modifier) = m {
        let ghost r0 = reports(diags@);
        diags.push(Diagnostic::new(modifier.span(), "unknown modifier: modifiers are only supported on `on:` directives"));
        proof {
            broadcast use lemma_reports_push;
            assert(reports(diags@) =~= r0 + modifier_reports(Some(*modifier)));
        }
    }
}

/// Whether the token is the punctuation `c`.
pub open spec fn is_punct_tok(t: Tok, c: char) -> bool {
    t matches Tok::Punct(ch, _, _) && ch == c
}

/// How deep in angle brackets position `i` of a path is: each `<` opens
/// one, each `>` that does not end `->` closes one.
pub open spec fn angle_depth(s: Seq<Tok>, i: int) -> int
    decreases i,
{
    if i <= 0 {
        0
    } else {
        let d = angle_depth(s, i - 1);
        let t = s[i - 1];
        if is_punct_tok(t, '<') {
            d + 1
        } else if is_punct_tok(t, '>') && !(i >= 2 && s[i - 2] matches Tok::Punct('-', Spacing::Joint, _)) && d > 0 {
            d - 1
        } else {
            d
        }
    }
}

/// Whether the generic arguments at `i` need a `::` before them: a `<` of a
/// path's segment (not the first token, not inside other generics) that is
/// not already after `::`.
pub open spec fn needs_turbofish(s: Seq<Tok>, i: int) -> bool {
    &&& 0 < i < s.len()
    &&& is_punct_tok(s[i], '<')
    &&& angle_depth(s, i) == 0
    &&& !(i >= 2 && is_punct_tok(s[i - 1], ':') && is_punct_tok(s[i - 2], ':'))
}

/// A path that always uses the turbofish: `Vec<T>` becomes `Vec::<T>`,
/// `a::B<C<D>>::e<F>` becomes `a::B::<C<D>>::e::<F>`.
pub open spec fn turbofish_tokens(s: Seq<Tok>) -> Seq<Tok>
    decreases s.len(),
{
    if s.len() == 0 {
        Seq::empty()
    } else {
        turbofish_tokens(s.drop_last()) + (if needs_turbofish(s, s.len() - 1) {
            colon2(Span::CallSite)
        } else {
            Seq::empty()
        }) + seq![s.last()]
    }
}

/// Whether the segment of a path just before `i` takes parenthesized
/// arguments, as `Fn(A) -> B` does: a `(..)` right after an identifier,
/// outside any generics.
pub open spec fn fn_generics_at(s: Seq<Tok>, i: int) -> bool {
    &&& 0 < i < s.len()
    &&& s[i] matches Tok::Group(Delimiter::Parenthesis, _, _, _)
    &&& s[i - 1] is Ident
    &&& angle_depth(s, i) == 0
}

/// The first position from `k` on where a segment of the path takes
/// parenthesized arguments.
pub open spec fn first_fn_generics(s: Seq<Tok>, k: int) -> Option<int>
    decreases s.len() - k,
{
    if k < 0 || k >= s.len() {
        None
    } else if fn_generics_at(s, k) {
        Some(k)
    } else {
        first_fn_generics(s, k + 1)
    }
}

/// Why a path cannot be made to use the turbofish: its first parenthesized
/// arguments, where they are.
pub open spec fn fn_generics_report(s: Seq<Tok>, i: int) -> Report {
    report(
        match s[i] {
            Tok::Group(_, _, sp, _) => sp,
            _ => Span::CallSite,
        },
        "function generics are not allowed"@,
    )
}

/// What making a path use the turbofish reports: parenthesized arguments,
/// which a path of generics cannot take.
pub open spec fn fn_generics_reports(s: Seq<Tok>) -> Seq<Report> {
    match first_fn_generics(s, 0) {
        Some(i) => seq![fn_generics_report(s, i)],
        None => Seq::empty(),
    }
}

/// Where no segment takes parenthesized arguments between `k` and `i`, the
/// first one from `k` on is the first one from `i` on.
proof fn lemma_first_fn_generics_skip(s: Seq<Tok>, k: int, i: int)
    requires
        0 <= k <= i,
        forall|j: int| k <= j < i ==> !fn_generics_at(s, j),
    ensures
        first_fn_generics(s, k) == first_fn_generics(s, i),
    decreases i - k,
{
    if k < i {
        lemma_first_fn_generics_skip(s, k + 1, i);
    }
}

/// A path where no segment takes parenthesized arguments has none first.
pub proof fn lemma_first_fn_generics_none(s: Seq<Tok>)
    requires
        forall|i: int| 0 <= i < s.len() ==> !fn_generics_at(s, i),
    ensures
        first_fn_generics(s, 0) is None,
{
    lemma_first_fn_generics_skip(s, 0, s.len() as int);
}

/// The depth of a position does not depend on what comes after it.
pub proof fn lemma_angle_depth_prefix(s: Seq<Tok>, n: int, k: int)
    requires
        0 <= k <= n <= s.len(),
    ensures
        angle_depth(s.subrange(0, n), k) == angle_depth(s, k),
    decreases k,
{
    if k > 0 {
        lemma_angle_depth_prefix(s, n, k - 1);
    }
}

/// The depth of a position is never negative, nor more than the position.
pub proof fn lemma_angle_depth_bounds(s: Seq<Tok>, k: int)
    requires
        0 <= k,
    ensures
        0 <= angle_depth(s, k) <= k,
    decreases k,
{
    if k > 0 {
        lemma_angle_depth_bounds(s, k - 1);
    }
}

/// Whether generics need a `::` at a position does not depend on what comes
/// after it.
pub proof fn lemma_needs_turbofish_prefix(s: Seq<Tok>, n: int, i: int)
    requires
        0 <= i < n <= s.len(),
    ensures
        needs_turbofish(s.subrange(0, n), i) == needs_turbofish(s, i),
{
    lemma_angle_depth_prefix(s, n, i);
}

/// A path that already uses the turbofish everywhere is left as it is.
pub proof fn law_turbofish_keeps_turbofish(s: Seq<Tok>)
    requires
        forall|i: int| 0 <= i < s.len() ==> !needs_turbofish(s, i),
    ensures
        turbofish_tokens(s) == s,
    decreases s.len(),
{
    if s.len() > 0 {
        let p = s.drop_last();
        assert forall|i: int| 0 <= i < p.len() implies !needs_turbofish(p, i) by {
            lemma_needs_turbofish_prefix(s, s.len() - 1, i);
            assert(!needs_turbofish(s, i));
        }
        law_turbofish_keeps_turbofish(p);
        assert(!needs_turbofish(s, s.len() - 1));
        assert(turbofish_tokens(s) =~= s);
    }
}

/// What making a path use the turbofish keeps: the depth at its end, its
/// last token, and the token before that where no `::` goes before the last;
/// and no generics in it need a `::` any more.
proof fn lemma_turbofish_shape(s: Seq<Tok>)
    ensures
        angle_depth(turbofish_tokens(s), turbofish_tokens(s).len() as int) == angle_depth(s, s.len() as int),
        forall|i: int| 0 <= i < turbofish_tokens(s).len() ==> !needs_turbofish(turbofish_tokens(s), i),
        s.len() == 0 ==> turbofish_tokens(s).len() == 0,
        s.len() > 0 ==> turbofish_tokens(s).len() > 0 && turbofish_tokens(s).last() == s.last(),
        s.len() > 1 && !needs_turbofish(s, s.len() - 1) ==> turbofish_tokens(s).len() > 1
            && turbofish_tokens(s)[turbofish_tokens(s).len() - 2] == s[s.len() - 2],
    decreases s.len(),
{
    if s.len() > 0 {
        let p = s.drop_last();
        let x = s.last();
        let n = p.len() as int;
        lemma_turbofish_shape(p);
        let tp = turbofish_tokens(p);
        let need = needs_turbofish(s, n);
        let mid = tp + (if need {
            colon2(Span::CallSite)
        } else {
            Seq::empty()
        });
        let t = mid + seq![x];
        assert(turbofish_tokens(s) == t);
        assert(mid.subrange(0, tp.len() as int) =~= tp);
        assert(t.subrange(0, mid.len() as int) =~= mid);
        assert(t.subrange(0, tp.len() as int) =~= tp);
        assert(s.subrange(0, n) =~= p);
        lemma_angle_depth_prefix(mid, tp.len() as int, tp.len() as int);
        lemma_angle_depth_prefix(t, mid.len() as int, mid.len() as int);
        lemma_angle_depth_prefix(s, n, n);
        if need {
            assert(angle_depth(mid, tp.len() + 1int) == angle_depth(mid, tp.len() as int));
            assert(angle_depth(mid, tp.len() + 2int) == angle_depth(mid, tp.len() + 1int));
        }
        assert(angle_depth(mid, mid.len() as int) == angle_depth(p, n));
        assert(angle_depth(t, t.len() as int) == angle_depth(s, s.len() as int));
        assert forall|i: int| 0 <= i < t.len() implies !needs_turbofish(t, i) by {
            if i < tp.len() {
                lemma_needs_turbofish_prefix(t, tp.len() as int, i);
            } else if i < mid.len() {
                assert(t[i] == mid[i]);
            } else if is_punct_tok(x, '<') && angle_depth(t, i) == 0 && i > 0 {
                if need {
                    assert(t[i - 1] == mid[i - 1]);
                    assert(t[i - 2] == mid[i - 2]);
                } else {
                    assert(n > 1);
                    assert(!needs_turbofish(p, n - 1));
                    assert(t[i - 1] == tp.last());
                    assert(t[i - 2] == tp[tp.len() - 2]);
                }
            }
        }
        if s.len() > 1 && !need {
            assert(t[t.len() - 2] == tp.last());
        }
    }
}

/// How many `::` making a path use the turbofish puts in before the tokens
/// `0..n` of it.
pub open spec fn turbofish_count(s: Seq<Tok>, n: int) -> int
    decreases n,
{
    if n <= 0 {
        0
    } else {
        turbofish_count(s, n - 1) + if needs_turbofish(s, n - 1) {
            1int
        } else {
            0int
        }
    }
}

proof fn lemma_turbofish_count_prefix(s: Seq<Tok>, m: int, n: int)
    requires
        0 <= n <= m <= s.len(),
    ensures
        turbofish_count(s.subrange(0, m), n) == turbofish_count(s, n),
    decreases n,
{
    if n > 0 {
        lemma_turbofish_count_prefix(s, m, n - 1);
        lemma_needs_turbofish_prefix(s, m, n - 1);
    }
}

proof fn lemma_turbofish_count_mono(s: Seq<Tok>, a: int, b: int)
    requires
        0 <= a <= b,
    ensures
        0 <= turbofish_count(s, a) <= turbofish_count(s, b),
    decreases b,
{
    if a < b {
        lemma_turbofish_count_mono(s, a, b - 1);
    } else if b > 0 {
        lemma_turbofish_count_mono(s, 0, b - 1);
    }
}

/// Making a path use the turbofish keeps every token of it, in order, and
/// puts in nothing but a `::` before each generics that needs one: token
/// `i` lands at `i` plus two for each `::` put in up to it, and where one
/// is put in before it, `::` stands just before it.
pub proof fn law_turbofish_keeps_every_token(s: Seq<Tok>)
    ensures
        turbofish_tokens(s).len() == s.len() + 2 * turbofish_count(s, s.len() as int),
        forall|i: int|
            0 <= i < s.len() ==> turbofish_tokens(s)[i + 2 * turbofish_count(s, i + 1)] == s[i],
        forall|i: int|
            0 <= i < s.len() && needs_turbofish(s, i) ==> turbofish_tokens(s).subrange(
                i + 2 * turbofish_count(s, i + 1) - 2,
                i + 2 * turbofish_count(s, i + 1),
            ) == colon2(Span::CallSite),
    decreases s.len(),
{
    if s.len() > 0 {
        let p = s.drop_last();
        let x = s.last();
        let n = p.len() as int;
        law_turbofish_keeps_every_token(p);
        let tp = turbofish_tokens(p);
        let need = needs_turbofish(s, n);
        let ins = if need {
            colon2(Span::CallSite)
        } else {
            Seq::empty()
        };
        let t = tp + ins + seq![x];
        assert(turbofish_tokens(s) == t);
        assert(s.subrange(0, n) =~= p);
        assert forall|k: int| 0 <= k <= n implies turbofish_count(s, k) == turbofish_count(p, k) by {
            lemma_turbofish_count_prefix(s, n, k);
        }
        assert(turbofish_count(s, n + 1) == turbofish_count(p, n) + if need { 1int } else { 0int });
        assert forall|i: int| 0 <= i < s.len() implies t[i + 2 * turbofish_count(s, i + 1)] == s[i] by {
            if i < n {
                lemma_turbofish_count_mono(p, i + 1, n);
                assert(turbofish_count(s, i + 1) == turbofish_count(p, i + 1));
                assert(t[i + 2 * turbofish_count(p, i + 1)] == tp[i + 2 * turbofish_count(p, i + 1)]);
                assert(p[i] == s[i]);
            }
        }
        assert forall|i: int|
            0 <= i < s.len() && needs_turbofish(s, i) implies t.subrange(
                i + 2 * turbofish_count(s, i + 1) - 2,
                i + 2 * turbofish_count(s, i + 1),
            ) == colon2(Span::CallSite) by {
            if i < n {
                lemma_turbofish_count_mono(p, i + 1, n);
                lemma_needs_turbofish_prefix(s, n, i);
                assert(turbofish_count(s, i + 1) == turbofish_count(p, i + 1));
                lemma_turbofish_count_mono(p, 0, i);
                assert(s.subrange(0, n) == p);
                assert(needs_turbofish(p, i));
                assert(turbofish_count(p, i + 1) == turbofish_count(p, i) + 1);
                let e = i + 2 * turbofish_count(p, i + 1);
                assert(2 <= e <= tp.len());
                assert(t.subrange(e - 2, e) =~= tp.subrange(e - 2, e));
            } else {
                assert(t.subrange(t.len() - 3, t.len() - 1) =~= ins);
            }
        }
    }
}

/// After a path is made to use the turbofish, no generics in it need a
/// `::` any more.
pub proof fn law_turbofish_leaves_none_needed(s: Seq<Tok>)
    ensures
        forall|i: int| 0 <= i < turbofish_tokens(s).len() ==> !needs_turbofish(turbofish_tokens(s), i),
{
    lemma_turbofish_shape(s);
}

/// A path with no segment with parenthesized arguments from `k` on has
/// none at any position from `k` on.
proof fn lemma_first_fn_generics_none_all(s: Seq<Tok>, k: int)
    requires
        0 <= k,
        first_fn_generics(s, k) is None,
    ensures
        forall|i: int| k <= i ==> !fn_generics_at(s, i),
    decreases s.len() - k,
{
    if k < s.len() {
        lemma_first_fn_generics_none_all(s, k + 1);
    }
}

/// Whether a segment takes parenthesized arguments at a position does not
/// depend on what comes after it.
proof fn lemma_fn_generics_prefix(s: Seq<Tok>, n: int, i: int)
    requires
        0 <= i < n <= s.len(),
    ensures
        fn_generics_at(s.subrange(0, n), i) == fn_generics_at(s, i),
{
    lemma_angle_depth_prefix(s, n, i);
}

/// Making a path use the turbofish puts no parenthesized arguments in it.
proof fn lemma_turbofish_no_fn_generics(s: Seq<Tok>)
    requires
        forall|i: int| 0 <= i < s.len() ==> !fn_generics_at(s, i),
    ensures
        forall|j: int| 0 <= j < turbofish_tokens(s).len() ==> !fn_generics_at(turbofish_tokens(s), j),
    decreases s.len(),
{
    if s.len() > 0 {
        let p = s.drop_last();
        let x = s.last();
        let n = p.len() as int;
        assert(s.subrange(0, n) =~= p);
        assert forall|i: int| 0 <= i < p.len() implies !fn_generics_at(p, i) by {
            lemma_fn_generics_prefix(s, n, i);
        }
        lemma_turbofish_no_fn_generics(p);
        lemma_turbofish_shape(p);
        let tp = turbofish_tokens(p);
        let need = needs_turbofish(s, n);
        let ins = if need {
            colon2(Span::CallSite)
        } else {
            Seq::empty()
        };
        let t = tp + ins + seq![x];
        assert(turbofish_tokens(s) == t);
        assert(t.subrange(0, tp.len() as int) =~= tp);
        assert forall|j: int| 0 <= j < t.len() implies !fn_generics_at(t, j) by {
            if j < tp.len() {
                lemma_fn_generics_prefix(t, tp.len() as int, j);
            } else if j == t.len() - 1 && n > 0 && (x matches Tok::Group(Delimiter::Parenthesis, _, _, _)) {
                assert(!need);
                assert(t[j - 1] == tp.last());
                lemma_angle_depth_prefix(t, tp.len() as int, tp.len() as int);
                lemma_angle_depth_prefix(s, n, n);
                assert(angle_depth(t, j) == angle_depth(s, n));
                assert(!fn_generics_at(s, n));
            }
        }
    }
}

/// Making a path that takes no parenthesized arguments use the turbofish
/// gives a path that takes none either, and doing it again changes nothing:
/// where `turbofishify` succeeds, it succeeds on its result with the same
/// tokens.
pub proof fn law_turbofishify_idempotent(s: Seq<Tok>)
    requires
        first_fn_generics(s, 0) is None,
    ensures
        first_fn_generics(turbofish_tokens(s), 0) is None,
        turbofish_tokens(turbofish_tokens(s)) == turbofish_tokens(s),
{
    lemma_first_fn_generics_none_all(s, 0);
    lemma_turbofish_no_fn_generics(s);
    lemma_first_fn_generics_none(turbofish_tokens(s));
    law_turbofish_idempotent(s);
}

/// Making a path use the turbofish twice is making it use it once.
pub proof fn law_turbofish_idempotent(s: Seq<Tok>)
    ensures
        turbofish_tokens(turbofish_tokens(s)) == turbofish_tokens(s),
{
    lemma_turbofish_shape(s);
    law_turbofish_keeps_turbofish(turbofish_tokens(s));
}

fn is_punct_at(path: &Vec<TokenTree>, i: usize, c: char) -> (r: bool)
    requires
        i < path@.len(),
    ensures
        r == is_punct_tok(stream_view(path@)[i as int], c),
{
    proof {
        crate::token::lemma_stream_view(path@);
    }
    match &path[i] {
        TokenTree::Punct { ch, .. } => *ch == c,
        _ => false,
    }
}

fn is_joint_dash_at(path: &Vec<TokenTree>, i: usize) -> (r: bool)
    requires
        i < path@.len(),
    ensures
        r == (stream_view(path@)[i as int] matches Tok::Punct('-', Spacing::Joint, _)),
{
    proof {
        crate::token::lemma_stream_view(path@);
    }
    match &path[i] {
        TokenTree::Punct { ch, spacing, .. } => *ch == '-' && *spacing == Spacing::Joint,
        _ => false,
    }
}

/// Makes a path always use the turbofish: a `::` goes before the generic
/// arguments of each segment that has none there, `Vec<T>` becoming
/// `Vec::<T>`; generics inside generics are left as they are. A segment
/// with parenthesized arguments, as in `Fn(i32)`, is an error: function
/// generics are not allowed.
pub fn turbofishify(path: &Vec<TokenTree>) -> (r: Result<Vec<TokenTree>, Diagnostic>)
    ensures
        first_fn_generics(stream_view(path@), 0) is None <==> r is Ok,
        r matches Ok(t) ==> stream_view(t@) == turbofish_tokens(stream_view(path@)),
        r matches Err(d) ==> d@ == fn_generics_report(stream_view(path@), first_fn_generics(stream_view(path@), 0)->0),
{
    let ghost sv = stream_view(path@);
    proof {
        crate::token::lemma_stream_view(path@);
    }
    let mut depth: usize = 0;
    let mut i: usize = 0;
    while i < path.len()
        invariant
            i <= path@.len(),
            sv == stream_view(path@),
            sv.len() == path@.len(),
            depth == angle_depth(sv, i as int),
            depth <= i,
            forall|j: int| 0 <= j < i ==> !fn_generics_at(sv, j),
        decreases path.len() - i,
    {
        proof {
            crate::token::lemma_stream_view(path@);
        }
        let paren = match &path[i] {
            TokenTree::Group { delim: Delimiter::Parenthesis, .. } => true,
            _ => false,
        };
        let after_ident = i > 0 && match &path[i - 1] {
            TokenTree::Ident { .. } => true,
            _ => false,
        };
        if paren && after_ident && depth == 0 {
            proof {
                lemma_first_fn_generics_skip(sv, 0, i as int);
            }
            return Err(Diagnostic::new(path[i].span(), "function generics are not allowed"));
        }
        let open = is_punct_at(path, i, '<');
        if open {
            depth = depth + 1;
        } else if is_punct_at(path, i, '>') && !(i >= 1 && is_joint_dash_at(path, i - 1)) && depth > 0 {
            depth = depth - 1;
        }
        i = i + 1;
    }
    proof {
        lemma_first_fn_generics_skip(sv, 0, i as int);
    }
    Ok(add_turbofish(path))
}

/// Makes a path use the turbofish, as [`turbofishify`] does, on any path:
/// parenthesized arguments are passed through as they are.
pub(crate) fn add_turbofish(path: &Vec<TokenTree>) -> (r: Vec<TokenTree>)
    ensures
        stream_view(r@) == turbofish_tokens(stream_view(path@)),
{
    let ghost sv = stream_view(path@);
    proof {
        crate::token::lemma_stream_view(path@);
    }
    let mut r: Vec<TokenTree> = Vec::new();
    let mut depth: usize = 0;
    let mut i: usize = 0;
    assert(stream_view(r@) =~= Seq::<Tok>::empty());
    while i < path.len()
        invariant
            i <= path@.len(),
            sv == stream_view(path@),
            sv.len() == path@.len(),
            depth == angle_depth(sv, i as int),
            depth <= i,
            stream_view(r@) == turbofish_tokens(sv.subrange(0, i as int)),
        decreases path.len() - i,
    {
        let ghost sub = sv.subrange(0, i + 1);
        proof {
            crate::token::lemma_stream_view(path@);
            assert(sub.drop_last() =~= sv.subrange(0, i as int));
            lemma_angle_depth_prefix(sv, i + 1, i as int);
            if i >= 1 {
                assert(sub[i - 1] == sv[i - 1]);
            }
            if i >= 2 {
                assert(sub[i - 2] == sv[i - 2]);
            }
        }
        let open = is_punct_at(path, i, '<');
        let after_colon2 = i >= 2 && is_punct_at(path, i - 1, ':') && is_punct_at(path, i - 2, ':');
        let need = open && i > 0 && depth == 0 && !after_colon2;
        assert(need == needs_turbofish(sub, i as int));
        let ghost before = stream_view(r@);
        if need {
            push_colon2(&mut r, Span::CallSite);
        }
        let ghost mid = stream_view(r@);
        assert(mid == before + (if needs_turbofish(sub, i as int) { colon2(Span::CallSite) } else { Seq::<Tok>::empty() }));
        crate::token::push_tree(&mut r, path[i].deep_clone());
        assert(stream_view(r@) =~= mid + seq![sv[i as int]]);
        if open {
            depth = depth + 1;
        } else if is_punct_at(path, i, '>') && !(i >= 1 && is_joint_dash_at(path, i - 1)) && depth > 0 {
            depth = depth - 1;
        }
        i = i + 1;
        proof {
            assert(stream_view(r@) =~= turbofish_tokens(sub));
        }
    }
    proof {
        assert(sv.subrange(0, i as int) =~= sv);
    }
    r
}

pub open spec fn is_ascii_lower(c: char) -> bool {
    'a' <= c <= 'z'
}

pub open spec fn is_ascii_alphanumeric(c: char) -> bool {
    is_ascii_upper(c) || is_ascii_lower(c) || ('0' <= c <= '9')
}

/// `char::to_ascii_lowercase`.
pub open spec fn spec_to_ascii_lowercase(c: char) -> char {
    if is_ascii_upper(c) {
        ((c as int) + 32) as char
    } else {
        c
    }
}

pub fn to_ascii_lowercase(c: char) -> (r: char)
    ensures
        r == spec_to_ascii_lowercase(c),
{
    if 'A' <= c && c <= 'Z' {
        let b: u8 = (c as u8) + 32;
        b as char
    } else {
        c
    }
}

/// What `char::to_uppercase` yields for `c`: its Unicode uppercase mapping.
pub uninterp spec fn unicode_uppercase(c: char) -> Seq<char>;

/// The uppercase mapping of a character: ASCII lowercase letters map onto
/// the ASCII uppercase letters; other characters by their Unicode mapping.
pub open spec fn spec_to_uppercase(c: char) -> Seq<char> {
    if is_ascii_lower(c) {
        seq![((c as int) - 32) as char]
    } else {
        unicode_uppercase(c)
    }
}

/// `char::to_uppercase` of std, collected. The contract states the mapping of
/// the ASCII lowercase letters onto the ASCII uppercase letters, and names the
/// mapping of every other character; nothing more is stated of it.
#[verifier::external_body]
fn to_uppercase(c: char) -> (r: Vec<char>)
    ensures
        is_ascii_lower(c) ==> r@ == seq![((c as int) - 32) as char],
        !is_ascii_lower(c) ==> r@ == unicode_uppercase(c),
{
    c.to_uppercase().collect()
}

/// The snake_case method name of an UpperCamelCase name, built from the
/// front: `first` holds while no character has been converted yet.
pub open spec fn snake_from(s: Seq<char>, first: bool) -> Seq<char>
    decreases s.len(),
{
    if s.len() == 0 {
        Seq::empty()
    } else {
        let c = s[0];
        let head = if is_ascii_upper(c) && !first {
            seq!['_', spec_to_ascii_lowercase(c)]
        } else {
            seq![spec_to_ascii_lowercase(c)]
        };
        head + snake_from(s.drop_first(), false)
    }
}

pub open spec fn spec_upper_camel_to_snake_case(s: Seq<char>) -> Seq<char> {
    snake_from(s, true)
}

/// Converts an UpperCamelCase name to snake_case: every character is made
/// lowercase, and an `_` is placed before every uppercase character but the
/// first one.
pub fn upper_camel_to_snake_case(ident: &str) -> (r: String)
    ensures
        r@ == spec_upper_camel_to_snake_case(ident@),
{
    let s = chars_of(ident);
    let v = upper_camel_to_snake_chars(&s);
    string_from_chars(&v)
}

pub fn upper_camel_to_snake_chars(s: &Vec<char>) -> (r: Vec<char>)
    ensures
        r@ == spec_upper_camel_to_snake_case(s@),
{
    let mut new: Vec<char> = Vec::new();
    let mut i: usize = 0;
    assert(s@.skip(0) =~= s@);
    while i < s.len()
        invariant
            i <= s.len(),
            new@.len() == 0 <==> i == 0,
            new@ + snake_from(s@.skip(i as int), i == 0) == snake_from(s@, true),
        decreases s.len() - i,
    {
        let c = s[i];
        let ghost rest = s@.skip(i as int);
        assert(rest[0] == c);
        assert(rest.drop_first() =~= s@.skip(i + 1));
        let ghost old_new = new@;
        if 'A' <= c && c <= 'Z' && new.len() > 0 {
            new.push('_');
        }
        let l = to_ascii_lowercase(c);
        new.push(l);
        i = i + 1;
        assert(new@ + snake_from(s@.skip(i as int), false) =~= old_new + snake_from(
            rest,
            old_new.len() == 0,
        ));
    }
    assert(s@.skip(i as int) =~= Seq::<char>::empty());
    assert(new@ + Seq::<char>::empty() =~= new@);
    new
}

/// The UpperCamelCase name of a snake_case name, built from the front:
/// `start` holds where a new word begins.
pub open spec fn camel_from(s: Seq<char>, start: bool) -> Seq<char>
    decreases s.len(),
{
    if s.len() == 0 {
        Seq::empty()
    } else {
        let c = s[0];
        if c == '_' {
            camel_from(s.drop_first(), true)
        } else if start {
            spec_to_uppercase(c) + camel_from(s.drop_first(), false)
        } else {
            seq![c] + camel_from(s.drop_first(), false)
        }
    }
}

/// `syn::Ident::unraw`: the name without its `r#` prefix.
pub open spec fn spec_unraw(s: Seq<char>) -> Seq<char> {
    if s.len() >= 2 && s[0] == 'r' && s[1] == '#' {
        s.skip(2)
    } else {
        s
    }
}

pub open spec fn spec_snake_case_to_upper_camel(s: Seq<char>) -> Seq<char> {
    camel_from(spec_unraw(s), true)
}

pub fn unraw(s: &Vec<char>) -> (r: Vec<char>)
    ensures
        r@ == spec_unraw(s@),
{
    let mut r: Vec<char> = Vec::new();
    let start: usize = if s.len() >= 2 && s[0] == 'r' && s[1] == '#' {
        2
    } else {
        0
    };
    let mut i = start;
    while i < s.len()
        invariant
            start <= i <= s.len(),
            start == 0 || start == 2,
            start == 2 <==> (s@.len() >= 2 && s@[0] == 'r' && s@[1] == '#'),
            r@ == s@.subrange(start as int, i as int),
        decreases s.len() - i,
    {
        r.push(s[i]);
        i = i + 1;
        assert(r@ =~= s@.subrange(start as int, i as int));
    }
    assert(r@ =~= spec_unraw(s@));
    r
}

/// Converts a snake_case identifier (its raw prefix dropped) to
/// UpperCamelCase: every `_` is removed and the character after it, as well
/// as the first character, is made uppercase.
pub fn snake_case_to_upper_camel(ident: &str) -> (r: String)
    ensures
        r@ == spec_snake_case_to_upper_camel(ident@),
{
    let text = chars_of(ident);
    let s = unraw(&text);
    let mut new: Vec<char> = Vec::new();
    let mut next_char_is_word_start = true;
    let mut i: usize = 0;
    assert(s@.skip(0) =~= s@);
    while i < s.len()
        invariant
            i <= s.len(),
            new@ + camel_from(s@.skip(i as int), next_char_is_word_start) == camel_from(
                s@,
                true,
            ),
        decreases s.len() - i,
    {
        let c = s[i];
        let ghost rest = s@.skip(i as int);
        let ghost old_new = new@;
        let ghost old_start = next_char_is_word_start;
        assert(rest[0] == c);
        assert(rest.drop_first() =~= s@.skip(i + 1));
        if c == '_' {
            next_char_is_word_start = true;
        } else if next_char_is_word_start {
            next_char_is_word_start = false;
            let up = to_uppercase(c);
            let mut j: usize = 0;
            while j < up.len()
                invariant
                    j <= up.len(),
                    new@ == old_new + up@.subrange(0, j as int),
                decreases up.len() - j,
            {
                new.push(up[j]);
                j = j + 1;
                assert(new@ =~= old_new + up@.subrange(0, j as int));
            }
            assert(up@.subrange(0, j as int) =~= up@);
        } else {
            new.push(c);
        }
        i = i + 1;
        assert(new@ + camel_from(s@.skip(i as int), next_char_is_word_start) =~= old_new
            + camel_from(rest, old_start));
    }
    assert(s@.skip(i as int) =~= Seq::<char>::empty());
    assert(new@ + Seq::<char>::empty() =~= new@);
    string_from_chars(&new)
}

/// A name that starts with an ASCII uppercase letter and is made of ASCII
/// letters and digits only, like a component or slot name.
pub open spec fn is_upper_camel_name(s: Seq<char>) -> bool {
    &&& s.len() > 0
    &&& is_ascii_upper(s[0])
    &&& forall|i: int| 0 <= i < s.len() ==> is_ascii_alphanumeric(#[trigger] s[i])
}

proof fn lemma_upper_lower(c: char)
    requires
        is_ascii_upper(c),
    ensures
        is_ascii_lower(spec_to_ascii_lowercase(c)),
        ((spec_to_ascii_lowercase(c) as int) - 32) as char == c,
{
}

proof fn lemma_camel_snake_tail(s: Seq<char>)
    requires
        forall|i: int| 0 <= i < s.len() ==> is_ascii_alphanumeric(#[trigger] s[i]),
    ensures
        camel_from(snake_from(s, false), false) == s,
    decreases s.len(),
{
    if s.len() > 0 {
        let c = s[0];
        let rest = s.drop_first();
        assert forall|i: int| 0 <= i < rest.len() implies is_ascii_alphanumeric(
            #[trigger] rest[i],
        ) by {
            assert(rest[i] == s[i + 1]);
        }
        lemma_camel_snake_tail(rest);
        let tail = snake_from(rest, false);
        assert(is_ascii_alphanumeric(s[0]));
        if is_ascii_upper(c) {
            let l = spec_to_ascii_lowercase(c);
            lemma_upper_lower(c);
            let w = seq!['_', l] + tail;
            assert(w.drop_first() =~= seq![l] + tail);
            assert((seq![l] + tail).drop_first() =~= tail);
            assert(camel_from(seq![l] + tail, true) == spec_to_uppercase(l) + camel_from(
                tail,
                false,
            ));
            assert(camel_from(w, false) =~= seq![c] + rest);
        } else {
            let w = seq![c] + tail;
            assert(w.drop_first() =~= tail);
            assert(camel_from(w, false) =~= seq![c] + rest);
        }
        assert(seq![c] + rest =~= s);
    }
}

/// Turning a component name into its snake_case method name and back gives
/// the name itself, for every name that starts with an ASCII uppercase letter
/// and holds only ASCII letters and digits.
pub proof fn law_snake_case_round_trip(s: Seq<char>)
    requires
        is_upper_camel_name(s),
    ensures
        spec_snake_case_to_upper_camel(spec_upper_camel_to_snake_case(s)) == s,
{
    let c = s[0];
    let rest = s.drop_first();
    let l = spec_to_ascii_lowercase(c);
    lemma_upper_lower(c);
    assert forall|i: int| 0 <= i < rest.len() implies is_ascii_alphanumeric(#[trigger] rest[i]) by {
        assert(rest[i] == s[i + 1]);
    }
    lemma_camel_snake_tail(rest);
    let tail = snake_from(rest, false);
    let w = seq![l] + tail;
    assert(snake_from(s, true) == w);
    assert(spec_unraw(w) == w) by {
        assert(w[0] == l);
    }
    assert(w.drop_first() =~= tail);
    assert(camel_from(w, true) =~= seq![c] + rest);
    assert(seq![c] + rest =~= s);
}

} // verus!
