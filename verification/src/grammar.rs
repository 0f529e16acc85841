//! The mathematical model of the grammar. `spec_parse` maps a source text to
//! the tree or the single error that parsing yields; the executable parser is
//! proved to return exactly this.
//!
//! The grammar accepts, with arbitrary surrounding whitespace, either a
//! protocol declaration — the literal `protocol`, an identifier, then `{`,
//! whitespace and `}` — or one block comment `/*` ... `*/`, and then requires
//! the end of the input.

use vstd::prelude::*;
use crate::ast::AvdlV;
use crate::error::{ErrV, Expected, ReasonV, RuleLabel, SpanV};
use crate::lex::{is_ident_char, is_ident_start, is_ws};

verus! {

/// The keyword that opens a protocol declaration.
pub open spec fn kw() -> Seq<char> {
    seq!['p', 'r', 'o', 't', 'o', 'c', 'o', 'l']
}

/// The first position at or after `i` holding no whitespace character.
pub open spec fn skip_ws_from(s: Seq<char>, i: int) -> int
    decreases s.len() - i,
{
    if 0 <= i < s.len() && is_ws(s[i]) {
        skip_ws_from(s, i + 1)
    } else {
        i
    }
}

/// The first position at or after `i` holding no identifier character.
pub open spec fn ident_end_from(s: Seq<char>, i: int) -> int
    decreases s.len() - i,
{
    if 0 <= i < s.len() && is_ident_char(s[i]) {
        ident_end_from(s, i + 1)
    } else {
        i
    }
}

/// How many characters of `p` match `s` starting at `i`.
pub open spec fn prefix_match_len(s: Seq<char>, i: int, p: Seq<char>) -> int
    decreases p.len(),
{
    if p.len() == 0 {
        0
    } else if 0 <= i < s.len() && s[i] == p[0] {
        1 + prefix_match_len(s, i + 1, p.skip(1))
    } else {
        0
    }
}

/// `skip_ws_from` finds exactly the position `j` that ends a whitespace run.
pub proof fn lemma_skip_ws_exact(s: Seq<char>, i: int, j: int)
    requires
        0 <= i <= j <= s.len(),
        forall|k: int| i <= k < j ==> is_ws(#[trigger] s[k]),
        j < s.len() ==> !is_ws(s[j]),
    ensures
        skip_ws_from(s, i) == j,
    decreases j - i,
{
    if i < j {
        assert(is_ws(s[i]));
        lemma_skip_ws_exact(s, i + 1, j);
    }
}

/// `ident_end_from` finds exactly the position `j` that ends an identifier
/// run.
pub proof fn lemma_ident_end_exact(s: Seq<char>, i: int, j: int)
    requires
        0 <= i <= j <= s.len(),
        forall|k: int| i <= k < j ==> is_ident_char(#[trigger] s[k]),
        j < s.len() ==> !is_ident_char(s[j]),
    ensures
        ident_end_from(s, i) == j,
    decreases j - i,
{
    if i < j {
        assert(is_ident_char(s[i]));
        lemma_ident_end_exact(s, i + 1, j);
    }
}

/// `prefix_match_len` counts matching characters that lie inside `s`, and
/// stops only at the first mismatch or at the end of either sequence.
pub proof fn lemma_prefix_match_props(s: Seq<char>, i: int, p: Seq<char>)
    requires
        0 <= i <= s.len(),
    ensures
        0 <= prefix_match_len(s, i, p) <= p.len(),
        i + prefix_match_len(s, i, p) <= s.len(),
        forall|k: int| 0 <= k < prefix_match_len(s, i, p) ==> s[i + k] == #[trigger] p[k],
        prefix_match_len(s, i, p) < p.len() ==> (i + prefix_match_len(s, i, p) == s.len() || s[i
            + prefix_match_len(s, i, p)] != p[prefix_match_len(s, i, p)]),
    decreases p.len(),
{
    if p.len() > 0 && i < s.len() && s[i] == p[0] {
        let q = p.skip(1);
        lemma_prefix_match_props(s, i + 1, q);
        let r1 = prefix_match_len(s, i + 1, q);
        assert(prefix_match_len(s, i, p) == 1 + r1);
        assert forall|k: int| 0 <= k < 1 + r1 implies s[i + k] == #[trigger] p[k] by {
            if k >= 1 {
                let c = q[k - 1];
                assert(q[k - 1] == p[k]);
                assert(s[i + 1 + (k - 1)] == q[k - 1]);
            }
        }
        if 1 + r1 < p.len() {
            let c = q[r1];
            assert(q[r1] == p[1 + r1]);
            assert(i + 1 + r1 == s.len() || s[i + 1 + r1] != q[r1]);
        }
    }
}

/// The match count is exactly `m` when the first `m` characters match and
/// the next one does not.
pub proof fn lemma_prefix_match_exact(s: Seq<char>, i: int, p: Seq<char>, m: int)
    requires
        0 <= i <= s.len(),
        0 <= m <= p.len(),
        i + m <= s.len(),
        forall|k: int| 0 <= k < m ==> s[i + k] == #[trigger] p[k],
        m < p.len() ==> (i + m == s.len() || s[i + m] != p[m]),
    ensures
        prefix_match_len(s, i, p) == m,
{
    lemma_prefix_match_props(s, i, p);
    let r = prefix_match_len(s, i, p);
    if r < m {
        let c = p[r];
        assert(s[i + r] == p[r]);
        assert(i + r < i + m <= s.len());
        assert(i + r == s.len() || s[i + r] != p[r]);
        assert(false);
    }
    if m < r {
        let c = p[m];
        assert(s[i + m] == p[m]);
        assert(i + m < i + r <= s.len());
        assert(i + m == s.len() || s[i + m] != p[m]);
        assert(false);
    }
}

/// Whether a comment terminator `*/` starts at position `t`.
pub open spec fn close_at(s: Seq<char>, t: int) -> bool {
    0 <= t && t + 1 < s.len() && s[t] == '*' && s[t + 1] == '/'
}

/// The position of the first comment terminator at or after `i`, or the
/// input's length when there is none.
pub open spec fn find_close_from(s: Seq<char>, i: int) -> int
    decreases s.len() - i,
{
    if i >= s.len() {
        s.len() as int
    } else if close_at(s, i) {
        i
    } else {
        find_close_from(s, i + 1)
    }
}

/// A text that contains no comment terminator `*/`.
pub open spec fn no_terminator(b: Seq<char>) -> bool {
    forall|t: int| 0 <= t < b.len() - 1 ==> !(#[trigger] b[t] == '*' && b[t + 1] == '/')
}

/// `find_close_from` lands between `i` and the input's end, on a terminator
/// when there is one, and passes no terminator on the way.
pub proof fn lemma_find_close_props(s: Seq<char>, i: int)
    requires
        0 <= i <= s.len(),
    ensures
        i <= find_close_from(s, i) <= s.len(),
        find_close_from(s, i) < s.len() ==> close_at(s, find_close_from(s, i)),
        forall|t: int| i <= t < find_close_from(s, i) ==> !close_at(s, t),
    decreases s.len() - i,
{
    if i < s.len() && !close_at(s, i) {
        lemma_find_close_props(s, i + 1);
    }
}

/// `find_close_from` finds exactly the first terminator position `q`.
pub proof fn lemma_find_close_exact(s: Seq<char>, i: int, q: int)
    requires
        0 <= i <= q,
        close_at(s, q),
        forall|t: int| i <= t < q ==> !close_at(s, t),
    ensures
        find_close_from(s, i) == q,
    decreases q - i,
{
    if i < q {
        lemma_find_close_exact(s, i + 1, q);
    }
}

/// When no terminator stands at or after `i`, `find_close_from` reports the
/// input's length.
pub proof fn lemma_find_close_none(s: Seq<char>, i: int)
    requires
        0 <= i <= s.len(),
        forall|t: int| i <= t ==> !close_at(s, t),
    ensures
        find_close_from(s, i) == s.len(),
    decreases s.len() - i,
{
    if i < s.len() {
        assert(!close_at(s, i));
        lemma_find_close_none(s, i + 1);
    }
}

/// The span of the single character at `j`, or the empty span at the end of
/// the input.
pub open spec fn span_at(s: Seq<char>, j: int) -> SpanV {
    if j < s.len() {
        SpanV { start: j, end: j + 1 }
    } else {
        SpanV { start: s.len() as int, end: s.len() as int }
    }
}

/// The character at `j`, or `None` at the end of the input.
pub open spec fn char_at(s: Seq<char>, j: int) -> Option<char> {
    if 0 <= j < s.len() {
        Some(s[j])
    } else {
        None
    }
}

/// The error reported when neither alternative opens at `i0`: whichever of
/// the two made more progress names the token it missed; when both fail on
/// their first character the expectations are merged.
pub open spec fn top_error(s: Seq<char>, i0: int, pk: int) -> ErrV {
    if pk >= 1 {
        ErrV {
            span: span_at(s, i0 + pk),
            found: char_at(s, i0 + pk),
            expected: seq![Expected::Token(kw()[pk])],
            label: Some(RuleLabel::Protocol),
            reason: ReasonV::Unexpected,
        }
    } else if i0 < s.len() && s[i0] == '/' {
        ErrV {
            span: span_at(s, i0 + 1),
            found: char_at(s, i0 + 1),
            expected: seq![Expected::Token('*')],
            label: Some(RuleLabel::Comment),
            reason: ReasonV::Unexpected,
        }
    } else {
        ErrV {
            span: span_at(s, i0),
            found: char_at(s, i0),
            expected: seq![Expected::Token('p'), Expected::Token('/')],
            label: None,
            reason: ReasonV::Unexpected,
        }
    }
}

/// After a whole alternative has matched up to `i`, only trailing whitespace
/// may remain; anything else is reported against the expected end of input.
pub open spec fn spec_finish(s: Seq<char>, i: int, tree: AvdlV) -> Result<AvdlV, ErrV> {
    let p = skip_ws_from(s, i);
    if p == s.len() {
        Ok(tree)
    } else {
        Err(ErrV {
            span: SpanV { start: p, end: p + 1 },
            found: Some(s[p]),
            expected: seq![Expected::End],
            label: None,
            reason: ReasonV::Unexpected,
        })
    }
}

/// The braced body after the protocol name, from position `e` (the end of
/// the name): `{`, whitespace only, `}`. A missing `{` or a non-whitespace
/// body character is a plain mismatch; an input that ends inside the braces
/// is an unclosed delimiter.
pub open spec fn spec_parse_body(s: Seq<char>, e: int, name: Seq<char>) -> Result<AvdlV, ErrV> {
    let k = skip_ws_from(s, e);
    if k < s.len() && s[k] == '{' {
        let m = skip_ws_from(s, k + 1);
        if m < s.len() && s[m] == '}' {
            spec_finish(
                s,
                m + 1,
                AvdlV::Protocol { name: name, body: Box::new(AvdlV::Empty) },
            )
        } else if m == s.len() {
            Err(ErrV {
                span: SpanV { start: s.len() as int, end: s.len() as int },
                found: None,
                expected: seq![Expected::Token('}')],
                label: Some(RuleLabel::Content),
                reason: ReasonV::Unclosed { open: SpanV { start: k, end: k + 1 }, delimiter: '{' },
            })
        } else {
            Err(ErrV {
                span: SpanV { start: m, end: m + 1 },
                found: Some(s[m]),
                expected: seq![Expected::Token('}')],
                label: Some(RuleLabel::Content),
                reason: ReasonV::Unexpected,
            })
        }
    } else {
        Err(ErrV {
            span: span_at(s, k),
            found: char_at(s, k),
            expected: seq![Expected::Token('{')],
            label: Some(RuleLabel::Content),
            reason: ReasonV::Unexpected,
        })
    }
}

/// The rest of a protocol declaration once the keyword has matched, from
/// position `i`: a padded identifier, then the braced body.
pub open spec fn spec_parse_after_keyword(s: Seq<char>, i: int) -> Result<AvdlV, ErrV> {
    let j = skip_ws_from(s, i);
    if j < s.len() && is_ident_start(s[j]) {
        let e = ident_end_from(s, j + 1);
        spec_parse_body(s, e, s.subrange(j, e))
    } else {
        Err(ErrV {
            span: span_at(s, j),
            found: char_at(s, j),
            expected: Seq::empty(),
            label: Some(RuleLabel::ProtocolName),
            reason: ReasonV::Unexpected,
        })
    }
}

/// The rest of a comment once the opener `/*` has matched, from position
/// `i`: any characters up to the first `*/`, then trailing whitespace only.
pub open spec fn spec_parse_comment(s: Seq<char>, i: int) -> Result<AvdlV, ErrV> {
    let t = find_close_from(s, i);
    if t < s.len() {
        spec_finish(s, t + 2, AvdlV::Comment)
    } else {
        Err(ErrV {
            span: SpanV { start: s.len() as int, end: s.len() as int },
            found: None,
            expected: seq![Expected::Token('*')],
            label: Some(RuleLabel::Comment),
            reason: ReasonV::Unexpected,
        })
    }
}

/// What parsing a whole source text yields: the tree, or the one error that
/// is reported. The alternative that makes more progress is the one whose
/// error is kept, as `top_error` details.
pub open spec fn spec_parse(s: Seq<char>) -> Result<AvdlV, ErrV> {
    let i0 = skip_ws_from(s, 0);
    let pk = prefix_match_len(s, i0, kw());
    if pk == kw().len() {
        spec_parse_after_keyword(s, i0 + pk)
    } else if i0 + 1 < s.len() && s[i0] == '/' && s[i0 + 1] == '*' {
        spec_parse_comment(s, i0 + 2)
    } else {
        Err(top_error(s, i0, pk))
    }
}

} // verus!
